//! The write half of a connection.

use vstd::prelude::*;

verus! {

/// The write half of a connection: a socket write half and the identifier of
/// the connection it belongs to.
#[derive(Debug)]
pub struct WriteConnection<W> {
    socket: W,
    id: usize,
}

impl<W> WriteConnection<W> {
    /// The socket write half.
    pub closed spec fn spec_socket(&self) -> W {
        self.socket
    }

    /// The identifier of the connection.
    pub closed spec fn spec_id(&self) -> usize {
        self.id
    }

    /// Create the write half of the connection `id` over `socket`.
    pub fn new(socket: W, id: usize) -> (w: Self)
        ensures
            w.spec_socket() == socket,
            w.spec_id() == id,
    {
        WriteConnection { socket, id }
    }

    /// The unique identifier of the connection.
    pub fn id(&self) -> (id: usize)
        ensures
            id == self.spec_id(),
    {
        self.id
    }

    /// The underlying socket write half.
    pub fn write_half(&self) -> (w: &W)
        ensures
            *w == self.spec_socket(),
    {
        &self.socket
    }
}

} // verus!
