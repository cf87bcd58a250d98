//! The error type of the library.

use vstd::prelude::*;

verus! {

/// An error that a socket operation can end in.
#[derive(Debug)]
pub enum Error {
    /// An I/O error from the underlying transport or system call.
    Io(std::io::Error),
}

/// The result type of the library's fallible operations.
pub type Result<T> = core::result::Result<T, Error>;

/// Turns a system error code into an I/O error, through rustix's
/// `impl From<rustix::io::Errno> for std::io::Error`. Nothing is stated of the
/// result beyond its type.
#[verifier::external_body]
pub(crate) fn io_error_from_errno(e: rustix::io::Errno) -> (res: std::io::Error) {
    std::io::Error::from(e)
}

} // verus!
