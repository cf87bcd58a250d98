//! The read half of a connection.

use vstd::prelude::*;

verus! {

/// The read half of a connection: a socket read half and the identifier of
/// the connection it belongs to.
#[derive(Debug)]
pub struct ReadConnection<R> {
    socket: R,
    id: usize,
}

impl<R> ReadConnection<R> {
    /// The socket read half.
    pub closed spec fn spec_socket(&self) -> R {
        self.socket
    }

    /// The identifier of the connection.
    pub closed spec fn spec_id(&self) -> usize {
        self.id
    }

    /// Create the read half of the connection `id` over `socket`.
    pub fn new(socket: R, id: usize) -> (r: Self)
        ensures
            r.spec_socket() == socket,
            r.spec_id() == id,
    {
        ReadConnection { socket, id }
    }

    /// The unique identifier of the connection.
    pub fn id(&self) -> (id: usize)
        ensures
            id == self.spec_id(),
    {
        self.id
    }

    /// The underlying socket read half.
    pub fn read_half(&self) -> (r: &R)
        ensures
            *r == self.spec_socket(),
    {
        &self.socket
    }
}

} // verus!
