use rustix::fd::OwnedFd;
use zlink::connection::socket::{ReadHalf, Socket, WriteHalf};
use zlink::test_utils::mock_socket::{CountingWriteHalf, MockSocket, MockWriteHalf, TestWriteHalf};

fn fd() -> OwnedFd {
    let (r, _w) = rustix::pipe::pipe().unwrap();
    r
}

#[test]
fn mock_socket_with_fds_basic() {
    let fds = vec![vec![fd()], vec![fd()]];
    let socket = MockSocket::new(&["test1", "test2"], fds);

    let (mut read, _write) = socket.split();

    let mut buf = [0u8; 10]; // Small buffer to force multiple reads
    let (bytes, fds1) = read.read(&mut buf).unwrap();
    assert!(bytes > 0);
    assert_eq!(fds1.len(), 1);

    let (bytes, fds2) = read.read(&mut buf).unwrap();
    assert!(bytes > 0);
    assert_eq!(fds2.len(), 1);
}

#[test]
fn mock_write_half_captures_fds() {
    let mut write = MockWriteHalf::new();

    let r1 = fd();

    write.write(b"test", std::slice::from_ref(&r1)).unwrap();

    assert_eq!(write.written_data(), b"test");
    assert_eq!(write.fd_write_count(), 1);
    assert_eq!(write.fds_written().len(), 1);
    assert_eq!(write.fds_written()[0].len(), 1);
}

#[test]
fn test_write_half_validates_fd_count() {
    let mut write = TestWriteHalf::new_with_fds(4, 2);

    let borrowed = [fd(), fd()];

    write.write(b"test", &borrowed).unwrap();

    assert_eq!(write.write_count(), 1);
}

#[test]
fn mock_read_half_multiple_fds_per_read() {
    let fds = vec![vec![fd(), fd(), fd()]];
    let socket = MockSocket::new(&["test"], fds);

    let (mut read, _write) = socket.split();

    let mut buf = [0u8; 1024];
    let (bytes, fds) = read.read(&mut buf).unwrap();
    assert!(bytes > 0);
    assert_eq!(fds.len(), 3);
}

#[test]
fn mock_read_half_mixed_fd_and_no_fd_reads() {
    let fds = vec![vec![fd()], vec![]];
    let socket = MockSocket::new(&["test1", "test2"], fds);

    let (mut read, _write) = socket.split();

    let mut buf = [0u8; 10]; // Small buffer to force multiple reads

    let (bytes, fds1) = read.read(&mut buf).unwrap();
    assert!(bytes > 0);
    assert!(!fds1.is_empty());

    let (bytes, fds2) = read.read(&mut buf).unwrap();
    assert!(bytes > 0);
    assert!(fds2.is_empty());
}

#[test]
fn responses_are_null_terminated_with_end_marker() {
    let socket = MockSocket::with_responses(&["ab", "c"]);
    let (read, _write) = socket.split();
    assert_eq!(read.remaining_data(), b"ab\0c\0\0");
}

#[test]
fn no_responses_is_a_single_null_byte() {
    let socket = MockSocket::with_responses(&[]);
    let (read, _write) = socket.split();
    assert_eq!(read.remaining_data(), b"\0");
}

#[test]
fn reads_return_data_in_order_then_nothing() {
    let socket = MockSocket::with_responses(&["hello", "world"]);
    let (mut read, _write) = socket.split();
    let mut collected = Vec::new();
    let mut buf = [0u8; 4];
    loop {
        let (n, fds) = read.read(&mut buf).unwrap();
        assert!(fds.is_empty());
        if n == 0 {
            break;
        }
        assert!(n <= 4);
        collected.extend_from_slice(&buf[..n]);
    }
    assert_eq!(collected, b"hello\0world\0\0");
    assert!(read.remaining_data().is_empty());
}

#[test]
fn read_copies_into_prefix_and_leaves_rest_of_buffer() {
    let socket = MockSocket::with_responses(&["ab"]);
    let (mut read, _write) = socket.split();
    let mut buf = [7u8; 6];
    let (n, _fds) = read.read(&mut buf).unwrap();
    assert_eq!(n, 4);
    assert_eq!(buf, [b'a', b'b', 0, 0, 7, 7]);
}

#[test]
fn read_at_end_consumes_no_fd_set() {
    let socket = MockSocket::new(&[], vec![vec![fd()], vec![fd(), fd()]]);
    let (mut read, _write) = socket.split();
    let mut buf = [0u8; 8];
    let (n, fds) = read.read(&mut buf).unwrap();
    assert_eq!(n, 1);
    assert_eq!(fds.len(), 1);
    assert_eq!(read.fds_consumed(), 1);
    let (n, fds) = read.read(&mut buf).unwrap();
    assert_eq!(n, 0);
    assert!(fds.is_empty());
    assert_eq!(read.fds_consumed(), 1);
}

#[test]
fn empty_buffer_read_still_hands_out_fds() {
    let socket = MockSocket::new(&["x"], vec![vec![fd(), fd()]]);
    let (mut read, _write) = socket.split();
    let mut buf: [u8; 0] = [];
    let (n, fds) = read.read(&mut buf).unwrap();
    assert_eq!(n, 0);
    assert_eq!(fds.len(), 2);
    assert_eq!(read.fds_consumed(), 1);
    assert_eq!(read.remaining_data(), b"x\0\0");
}

#[test]
fn fd_sets_run_out_before_data() {
    let socket = MockSocket::new(&["abcdef"], vec![vec![fd()]]);
    let (mut read, _write) = socket.split();
    let mut buf = [0u8; 2];
    let (_, fds) = read.read(&mut buf).unwrap();
    assert_eq!(fds.len(), 1);
    let (n, fds) = read.read(&mut buf).unwrap();
    assert_eq!(n, 2);
    assert!(fds.is_empty());
    assert_eq!(read.fds_consumed(), 1);
}

#[test]
fn mock_write_half_concatenates_writes() {
    let mut write = MockWriteHalf::default();
    write.write(b"one", &[]).unwrap();
    write.write(b"", &[]).unwrap();
    write.write(b"two", &[fd(), fd()]).unwrap();
    write.write(b"three", &[]).unwrap();
    assert_eq!(write.written_data(), b"onetwothree");
    assert_eq!(write.fd_write_count(), 1);
    assert_eq!(write.fds_written()[0].len(), 2);
}

#[test]
fn split_gives_fresh_write_half() {
    let socket = MockSocket::with_responses(&["a"]);
    let (_read, write) = socket.split();
    assert!(write.written_data().is_empty());
    assert_eq!(write.fd_write_count(), 0);
}

#[test]
fn test_write_half_counts_writes() {
    let mut write = TestWriteHalf::new(3);
    assert_eq!(write.write_count(), 0);
    write.write(b"abc", &[]).unwrap();
    write.write(b"xyz", &[]).unwrap();
    assert_eq!(write.write_count(), 2);
}

#[test]
fn counting_write_half_counts() {
    let mut write = CountingWriteHalf::new();
    assert_eq!(write.count(), 0);
    for _ in 0..3 {
        write.write(b"data", &[]).unwrap();
    }
    assert_eq!(write.count(), 3);
    assert_eq!(CountingWriteHalf::default().count(), 0);
}
