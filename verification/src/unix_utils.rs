//! Assembling the peer credentials of a Unix socket.
//!
//! The system queries themselves (`SO_PEERCRED`, `SO_PEERPIDFD`) are made by
//! the transports; this module decides what the answers amount to.

use crate::connection::Credentials;
use crate::error::io_error_from_errno;
use crate::sys::{open_pidfd, PidFd};
use rustix::fd::OwnedFd;
use rustix::io::Errno;
use rustix::process::{Pid, Uid};
use vstd::prelude::*;

verus! {

/// The answer to the `SO_PEERPIDFD` socket option query.
#[derive(Debug)]
pub enum PeerPidfd {
    /// The kernel returned the peer's process file descriptor.
    Received(OwnedFd),
    /// The kernel does not know the option (`ENOPROTOOPT`).
    Unsupported,
    /// The query failed for another reason.
    Failed(std::io::Error),
}

/// Credentials for the process `pid` of user `uid`, from the outcome of
/// opening a process file descriptor for it: the opened descriptor becomes the
/// credentials' process descriptor, and a failure to open one is the error.
pub fn credentials_with_pidfd(uid: Uid, pid: Pid, opened: Result<OwnedFd, Errno>) -> (res: Result<
    Credentials,
    std::io::Error,
>)
    ensures
        opened matches Ok(fd) ==> res matches Ok(c) && c.spec_uid() == uid && c.spec_pid() == pid
            && c.spec_process_fd() == fd,
        opened is Err ==> res is Err,
{
    match opened {
        Ok(fd) => Ok(Credentials::new(uid, pid, fd)),
        Err(e) => Err(io_error_from_errno(e)),
    }
}

/// Credentials for the process `pid` of user `uid`, from the outcome of
/// the library opening a process file descriptor: the opened descriptor, with
/// the process it was opened for, becomes the credentials' process descriptor,
/// and a failure to open one is the error.
pub fn credentials_with_opened_pidfd(uid: Uid, pid: Pid, opened: Result<PidFd, Errno>) -> (res:
    Result<Credentials, std::io::Error>)
    ensures
        opened matches Ok(p) ==> res matches Ok(c) && c.spec_uid() == uid && c.spec_pid() == pid
            && c.spec_process_fd() == p.spec_fd() && c.spec_process_fd_target() == Some(
            p.spec_target(),
        ),
        opened is Err ==> res is Err,
{
    match opened {
        Ok(p) => Ok(Credentials::with_pidfd(uid, pid, p)),
        Err(e) => Err(io_error_from_errno(e)),
    }
}

/// Credentials for the process `pid` of user `uid`, with a process file
/// descriptor newly opened for `pid` (see [`credentials_with_opened_pidfd`]).
pub fn credentials_for(uid: Uid, pid: Pid) -> (res: Result<Credentials, std::io::Error>)
    ensures
        res matches Ok(c) ==> c.spec_uid() == uid && c.spec_pid() == pid
            && c.spec_process_fd_target() == Some(pid),
{
    let opened = open_pidfd(pid);
    credentials_with_opened_pidfd(uid, pid, opened)
}

/// What credentials for a process are, whatever the kernel answers: a
/// successful result names user `uid` and process `pid`, and its process file
/// descriptor is one opened for process `pid`, not for any other.
pub proof fn lemma_credentials_for_name_the_process(
    uid: Uid,
    pid: Pid,
    res: Result<Credentials, std::io::Error>,
)
    requires
        call_ensures(credentials_for, (uid, pid), res),
    ensures
        res matches Ok(c) ==> {
            &&& c.spec_uid() == uid
            &&& c.spec_pid() == pid
            &&& c.spec_process_fd_target() == Some(pid)
        },
{
}

/// Credentials of a peer, from its `SO_PEERCRED` user and process IDs and the
/// answer to the `SO_PEERPIDFD` query.
///
/// A received process descriptor is used as it is; when the kernel does not
/// support the query, a process descriptor is opened for `pid` instead; any
/// other failure of the query is returned.
pub fn credentials_from_peer(uid: Uid, pid: Pid, pidfd: PeerPidfd) -> (res: Result<
    Credentials,
    std::io::Error,
>)
    ensures
        pidfd matches PeerPidfd::Received(fd) ==> res matches Ok(c) && c.spec_uid() == uid
            && c.spec_pid() == pid && c.spec_process_fd() == fd,
        pidfd matches PeerPidfd::Failed(e) ==> res == Err::<Credentials, std::io::Error>(e),
        pidfd is Unsupported ==> (res matches Ok(c) ==> c.spec_uid() == uid && c.spec_pid()
            == pid && c.spec_process_fd_target() == Some(pid)),
{
    match pidfd {
        PeerPidfd::Received(fd) => Ok(Credentials::new(uid, pid, fd)),
        PeerPidfd::Unsupported => credentials_for(uid, pid),
        PeerPidfd::Failed(e) => Err(e),
    }
}

/// The peer's credentials, for each answer to the `SO_PEERPIDFD` query: a
/// received descriptor is the process descriptor, as it is; a failed query's
/// error is the result; and when the kernel lacks the option, a successful
/// result carries a process descriptor opened for the peer `pid`, never for
/// another process. The user and process IDs are the peer's in every
/// successful case.
pub proof fn lemma_peer_credentials_follow_the_query(
    uid: Uid,
    pid: Pid,
    pidfd: PeerPidfd,
    res: Result<Credentials, std::io::Error>,
)
    requires
        call_ensures(credentials_from_peer, (uid, pid, pidfd), res),
    ensures
        res matches Ok(c) ==> c.spec_uid() == uid && c.spec_pid() == pid,
        pidfd matches PeerPidfd::Received(fd) ==> res matches Ok(c) && c.spec_process_fd() == fd,
        pidfd matches PeerPidfd::Failed(e) ==> res == Err::<Credentials, std::io::Error>(e),
        pidfd is Unsupported ==> (res matches Ok(c) ==> c.spec_process_fd_target() == Some(pid)),
{
}

} // verus!
