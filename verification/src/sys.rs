//! Declarations of the operating-system types that the library carries
//! through, and the few system calls it makes on them.

use vstd::prelude::*;

verus! {

/// An owned file descriptor (`rustix::fd::OwnedFd`). Opaque: the library only
/// moves such values around, it never looks inside.
#[verifier::external_type_specification]
#[verifier::external_body]
pub struct ExOwnedFd(rustix::fd::OwnedFd);

/// A system error code (`rustix::io::Errno`).
#[verifier::external_type_specification]
#[verifier::external_body]
pub struct ExErrno(rustix::io::Errno);

/// A Unix user ID (`rustix::process::Uid`).
#[verifier::external_type_specification]
#[verifier::external_body]
pub struct ExUid(rustix::process::Uid);

/// A process ID (`rustix::process::Pid`).
#[verifier::external_type_specification]
#[verifier::external_body]
pub struct ExPid(rustix::process::Pid);

/// An I/O error (`std::io::Error`).
#[verifier::external_type_specification]
#[verifier::external_body]
pub struct ExIoError(std::io::Error);

/// A process file descriptor, together with the process it was opened for.
#[derive(Debug)]
pub struct PidFd {
    fd: rustix::fd::OwnedFd,
    target: rustix::process::Pid,
}

impl PidFd {
    /// The descriptor.
    pub closed spec fn spec_fd(&self) -> rustix::fd::OwnedFd {
        self.fd
    }

    /// The process the descriptor was opened for.
    pub closed spec fn spec_target(&self) -> rustix::process::Pid {
        self.target
    }

    /// The process the descriptor was opened for.
    pub fn target(&self) -> (pid: rustix::process::Pid)
        ensures
            pid == self.spec_target(),
    {
        self.target
    }

    /// Take the descriptor out.
    pub fn into_fd(self) -> (fd: rustix::fd::OwnedFd)
        ensures
            fd == self.spec_fd(),
    {
        self.fd
    }
}

/// Duplicates `fd` with `rustix::io::fcntl_dupfd_cloexec(fd, 0)`. The new
/// descriptor is chosen by the kernel; what is stated is which descriptor it
/// duplicates: the ghost part of the result is `fd` itself.
#[verifier::external_body]
pub(crate) fn dup_fd(fd: &rustix::fd::OwnedFd) -> (res: Result<
    (rustix::fd::OwnedFd, Ghost<rustix::fd::OwnedFd>),
    rustix::io::Errno,
>)
    ensures
        res matches Ok((_, source)) ==> source@ == *fd,
{
    match rustix::io::fcntl_dupfd_cloexec(fd, 0) {
        Ok(dup) => Ok((dup, Ghost(*fd))),
        Err(e) => Err(e),
    }
}


/// The real user ID of this process, from `rustix::process::getuid()`. It
/// depends on the process, so nothing is stated of it.
#[verifier::external_body]
pub(crate) fn current_uid() -> (uid: rustix::process::Uid) {
    rustix::process::getuid()
}

/// The ID of this process, from `rustix::process::getpid()`. It depends on the
/// process, so nothing is stated of it.
#[verifier::external_body]
pub(crate) fn current_pid() -> (pid: rustix::process::Pid) {
    rustix::process::getpid()
}

/// Opens a process file descriptor for `pid` with
/// `rustix::process::pidfd_open(pid, PidfdFlags::empty())`. Whether it
/// succeeds, and which descriptor it returns, is up to the kernel; what is
/// stated is the process a returned descriptor was opened for: `pid`.
#[verifier::external_body]
pub(crate) fn open_pidfd(pid: rustix::process::Pid) -> (res: Result<PidFd, rustix::io::Errno>)
    ensures
        res matches Ok(p) ==> p.spec_target() == pid,
{
    match rustix::process::pidfd_open(pid, rustix::process::PidfdFlags::empty()) {
        Ok(fd) => Ok(PidFd { fd, target: pid }),
        Err(e) => Err(e),
    }
}

} // verus!
