# zlink

The connection layer of a Varlink IPC library, written in Verus.

- `src/connection/` — `Connection`, its read and write halves, the source of
  connection identifiers, peer
  `Credentials`, and the socket traits (`Socket`, `ReadHalf`, `WriteHalf`,
  `FetchPeerCredentials`, `UnixSocket`).
- `src/test_utils/mock_socket.rs` — mock sockets that frame responses with
  null bytes, hand out file descriptor sets, and record or count writes; with
  the proof that the framing splits back into the responses.
- `src/unix/stream.rs` — what the Unix socket transports do next while sending
  a buffer in parts and while waiting for readiness.
- `src/unix_utils.rs` — assembling peer credentials from the socket queries.
- `src/sys.rs` — the operating-system types and calls used, through rustix.
- `app/` — the tokio and smol transports, the `sendmsg`/`recvmsg` system
  calls, the peer credential queries, and connection identifiers.
