//! The low-level socket traits.
//!
//! A transport implements [`Socket`], which splits into a [`ReadHalf`] and a
//! [`WriteHalf`]. File descriptors travel alongside the bytes.

use crate::error::Result;
use crate::connection::credentials::Credentials;
use rustix::fd::OwnedFd;
use vstd::prelude::*;

verus! {

/// The socket trait: what a type needs to be used as a transport.
pub trait Socket: Sized {
    /// The read half of the socket.
    type ReadHalf: ReadHalf;
    /// The write half of the socket.
    type WriteHalf: WriteHalf;

    /// Whether this socket can transfer file descriptors.
    ///
    /// This is `true` for Unix domain sockets and `false` for other socket types.
    const CAN_TRANSFER_FDS: bool = false;

    /// Split the socket into read and write halves.
    fn split(self) -> (Self::ReadHalf, Self::WriteHalf);
}

/// The read half of a socket.
pub trait ReadHalf {
    /// Read from the socket into `buf`.
    ///
    /// On completion, the number of bytes read and the file descriptors received
    /// are returned.
    fn read(&mut self, buf: &mut [u8]) -> Result<(usize, Vec<OwnedFd>)>;
}

/// The write half of a socket.
pub trait WriteHalf {
    /// Whether this half accepts a write of `len` bytes carrying `fd_count` file
    /// descriptors. Most transports accept every write.
    open spec fn accepts_write(&self, len: nat, fd_count: nat) -> bool {
        true
    }

    /// Write `buf` to the socket, together with the file descriptors `fds`.
    fn write(&mut self, buf: &[u8], fds: &[OwnedFd]) -> Result<()>
        requires
            old(self).accepts_write(buf@.len(), fds@.len()),
    ;
}

/// Fetching the peer credentials of a socket.
///
/// Socket read halves that know their peer implement this; higher-level code
/// uses [`crate::connection::Connection::peer_credentials`].
pub trait FetchPeerCredentials {
    /// Fetch the peer credentials for this socket.
    fn fetch_peer_credentials(&self) -> core::result::Result<Credentials, std::io::Error>;
}

/// Marker for Unix domain sockets: types whose descriptor answers peer
/// credential queries.
pub trait UnixSocket {}

} // verus!
