use rustix::fd::AsRawFd;
use zlink::connection::Credentials;
use zlink::unix_utils::{credentials_for, credentials_from_peer, PeerPidfd};

#[test]
fn credentials_accessors() {
    let (fd, _w) = rustix::pipe::pipe().unwrap();
    let raw = fd.as_raw_fd();
    let uid = rustix::process::getuid();
    let pid = rustix::process::getpid();
    let creds = Credentials::new(uid, pid, fd);
    assert_eq!(creds.unix_user_id(), uid);
    assert_eq!(creds.process_id(), pid);
    assert_eq!(creds.process_fd().as_raw_fd(), raw);
}

#[test]
fn received_pidfd_is_used() {
    let (fd, _w) = rustix::pipe::pipe().unwrap();
    let raw = fd.as_raw_fd();
    let uid = rustix::process::getuid();
    let pid = rustix::process::getpid();
    let creds = credentials_from_peer(uid, pid, PeerPidfd::Received(fd)).unwrap();
    assert_eq!(creds.process_fd().as_raw_fd(), raw);
    assert_eq!(creds.unix_user_id(), uid);
    assert_eq!(creds.process_id(), pid);
}

#[test]
fn failed_query_is_returned() {
    let uid = rustix::process::getuid();
    let pid = rustix::process::getpid();
    let err = std::io::Error::new(std::io::ErrorKind::PermissionDenied, "denied");
    let res = credentials_from_peer(uid, pid, PeerPidfd::Failed(err));
    assert_eq!(res.unwrap_err().kind(), std::io::ErrorKind::PermissionDenied);
}

#[test]
fn unsupported_query_falls_back_to_pidfd_open() {
    let uid = rustix::process::getuid();
    let pid = rustix::process::getpid();
    let creds = credentials_from_peer(uid, pid, PeerPidfd::Unsupported).unwrap();
    assert_eq!(creds.unix_user_id(), uid);
    assert_eq!(creds.process_id(), pid);
    assert!(creds.process_fd().as_raw_fd() >= 0);
}

#[test]
fn credentials_for_current_process() {
    let uid = rustix::process::getuid();
    let pid = rustix::process::getpid();
    let creds = credentials_for(uid, pid).unwrap();
    assert_eq!(creds.process_id(), pid);
}

#[test]
fn opened_pidfd_becomes_process_fd() {
    let (fd, _w) = rustix::pipe::pipe().unwrap();
    let raw = fd.as_raw_fd();
    let uid = rustix::process::getuid();
    let pid = rustix::process::getpid();
    let creds = zlink::unix_utils::credentials_with_pidfd(uid, pid, Ok(fd)).unwrap();
    assert_eq!(creds.process_fd().as_raw_fd(), raw);
    assert_eq!(creds.unix_user_id(), uid);
    assert_eq!(creds.process_id(), pid);
}

#[test]
fn failed_pidfd_open_is_an_error() {
    let uid = rustix::process::getuid();
    let pid = rustix::process::getpid();
    let res = zlink::unix_utils::credentials_with_pidfd(uid, pid, Err(rustix::io::Errno::SRCH));
    assert_eq!(res.unwrap_err().raw_os_error(), Some(rustix::io::Errno::SRCH.raw_os_error()));
}
