use zlink::connection::socket::Socket;
use zlink::connection::{Connection, ConnectionIds, ReadConnection, WriteConnection};
use zlink::test_utils::mock_socket::{MockSocket, MockWriteHalf};

/// A source of identifiers whose next identifier is `start`.
fn ids_from(start: usize) -> ConnectionIds {
    let mut ids = ConnectionIds::new();
    for _ in 0..start {
        ids.allocate();
    }
    ids
}

#[test]
fn peer_credentials_mock_socket() {
    // Get the expected credentials of the current process.
    let expected_uid = rustix::process::getuid();
    let expected_pid = rustix::process::getpid();

    // Create a mock socket with some dummy responses.
    let socket = MockSocket::with_responses(&[]);
    let mut connection = Connection::new(socket, &mut ids_from(0));

    // Get peer credentials - should return current process credentials.
    let creds = connection.peer_credentials().unwrap();

    assert_eq!(
        creds.unix_user_id(),
        expected_uid,
        "UID should match current process"
    );
    assert_eq!(
        creds.process_id(),
        expected_pid,
        "PID should match current process"
    );

    // Save values for comparison.
    let uid1 = creds.unix_user_id();
    let pid1 = creds.process_id();

    // Verify caching works - calling again should return the same values.
    let creds2 = connection.peer_credentials().unwrap();
    assert_eq!(uid1, creds2.unix_user_id(), "Cached UID should match");
    assert_eq!(pid1, creds2.process_id(), "Cached PID should match");
}

#[test]
fn cached_credentials_are_the_same_allocation() {
    let mut connection = Connection::new(MockSocket::with_responses(&[]), &mut ids_from(3));
    let first = connection.peer_credentials().unwrap().clone();
    let second = connection.peer_credentials().unwrap();
    assert!(std::sync::Arc::ptr_eq(&first, second));
}

#[test]
fn both_halves_share_the_connection_id() {
    let connection = Connection::new(MockSocket::with_responses(&["a"]), &mut ids_from(42));
    assert_eq!(connection.read().id(), 42);
    assert_eq!(connection.write().id(), 42);
    assert_eq!(connection.id(), 42);
}

#[test]
fn split_and_join_keep_halves() {
    let connection = Connection::new(MockSocket::with_responses(&["abc"]), &mut ids_from(7));
    let (read, write) = connection.split();
    assert_eq!(read.id(), 7);
    assert_eq!(write.id(), 7);
    assert_eq!(read.read_half().remaining_data(), b"abc\0\0");
    let joined: Connection<MockSocket> = Connection::join(read, write);
    assert_eq!(joined.id(), 7);
    assert_eq!(joined.read().read_half().remaining_data(), b"abc\0\0");
}

#[test]
fn join_halves_built_separately() {
    let (read_half, _) = MockSocket::with_responses(&["q"]).split();
    let read = ReadConnection::new(read_half, 9);
    let write = WriteConnection::new(MockWriteHalf::new(), 9);
    let mut connection: Connection<MockSocket> = Connection::join(read, write);
    assert_eq!(connection.id(), 9);
    assert!(connection.write_mut().write_half().written_data().is_empty());
    assert_eq!(connection.read_mut().read_half().fds_consumed(), 0);
}

#[test]
fn mock_socket_cannot_transfer_fds() {
    assert!(!<MockSocket as Socket>::CAN_TRANSFER_FDS);
}

#[test]
fn connection_new_only_splits_the_socket() {
    let s = MockSocket::new(&["a"], vec![]);
    let c = Connection::new(s, &mut ids_from(11));
    assert_eq!(c.read().id(), c.write().id());
    assert_eq!(c.id(), 11);
    assert_eq!(c.read().read_half().remaining_data(), b"a\0\0");
    assert_eq!(c.write().write_half().written_data(), b"");
}

#[test]
fn ids_are_handed_out_in_turn() {
    let mut ids = ConnectionIds::new();
    let a = Connection::new(MockSocket::with_responses(&[]), &mut ids);
    let b = Connection::new(MockSocket::with_responses(&[]), &mut ids);
    assert_eq!(a.id(), 0);
    assert_eq!(b.id(), 1);
    assert_eq!(ids.allocate(), 2);
}

#[test]
fn join_refetches_credentials() {
    let mut c = Connection::new(MockSocket::with_responses(&[]), &mut ids_from(1));
    let first = c.peer_credentials().unwrap().clone();
    let (r, w) = c.split();
    let mut j: Connection<MockSocket> = Connection::join(r, w);
    let second = j.peer_credentials().unwrap();
    assert!(!std::sync::Arc::ptr_eq(&first, second));
    assert_eq!(first.process_id(), second.process_id());
}

#[test]
fn cache_fetched_credentials_stores_ok_and_passes_errors() {
    let mut c = Connection::new(MockSocket::with_responses(&[]), &mut ids_from(2));
    let err = std::io::Error::new(std::io::ErrorKind::NotFound, "gone");
    let res = c.cache_fetched_credentials(Err(err));
    assert_eq!(res.unwrap_err().kind(), std::io::ErrorKind::NotFound);
    let uid = rustix::process::getuid();
    let pid = rustix::process::getpid();
    let creds = zlink::unix_utils::credentials_for(uid, pid).unwrap();
    let cached = c.cache_fetched_credentials(Ok(creds)).unwrap().clone();
    let again = c.peer_credentials().unwrap();
    assert!(std::sync::Arc::ptr_eq(&cached, again));
}
