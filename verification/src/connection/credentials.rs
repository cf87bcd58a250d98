//! Credentials of the peer process of a connection.

use crate::sys::PidFd;
use rustix::fd::OwnedFd;
use rustix::process::{Pid, Uid};
use vstd::prelude::*;

verus! {

/// The credentials of the process on the other side of a connection.
#[derive(Debug)]
pub struct Credentials {
    uid: Uid,
    pid: Pid,
    process_fd: OwnedFd,
    process_fd_target: Option<Pid>,
}

impl Credentials {
    /// The user ID of the peer.
    pub closed spec fn spec_uid(&self) -> Uid {
        self.uid
    }

    /// The process ID of the peer.
    pub closed spec fn spec_pid(&self) -> Pid {
        self.pid
    }

    /// The process file descriptor of the peer.
    pub closed spec fn spec_process_fd(&self) -> OwnedFd {
        self.process_fd
    }

    /// The process that the process file descriptor was opened for, where the
    /// library opened it; `None` for a descriptor handed in from elsewhere.
    pub closed spec fn spec_process_fd_target(&self) -> Option<Pid> {
        self.process_fd_target
    }

    /// Create new credentials.
    pub fn new(uid: Uid, pid: Pid, process_fd: OwnedFd) -> (c: Self)
        ensures
            c.spec_uid() == uid,
            c.spec_pid() == pid,
            c.spec_process_fd() == process_fd,
            c.spec_process_fd_target() is None,
    {
        Credentials { uid, pid, process_fd, process_fd_target: None }
    }

    /// Create credentials whose process file descriptor was opened by the
    /// library.
    pub fn with_pidfd(uid: Uid, pid: Pid, pidfd: PidFd) -> (c: Self)
        ensures
            c.spec_uid() == uid,
            c.spec_pid() == pid,
            c.spec_process_fd() == pidfd.spec_fd(),
            c.spec_process_fd_target() == Some(pidfd.spec_target()),
    {
        let target = pidfd.target();
        let process_fd = pidfd.into_fd();
        Credentials { uid, pid, process_fd, process_fd_target: Some(target) }
    }

    /// The numeric Unix user ID of the peer.
    pub fn unix_user_id(&self) -> (uid: Uid)
        ensures
            uid == self.spec_uid(),
    {
        self.uid
    }

    /// The process ID of the peer.
    pub fn process_id(&self) -> (pid: Pid)
        ensures
            pid == self.spec_pid(),
    {
        self.pid
    }

    /// The process file descriptor of the peer.
    pub fn process_fd(&self) -> (fd: &OwnedFd)
        ensures
            *fd == self.spec_process_fd(),
    {
        &self.process_fd
    }
}

} // verus!
