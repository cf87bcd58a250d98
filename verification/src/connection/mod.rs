//! Connection related API.

pub mod credentials;
pub mod ids;
mod read_connection;
pub mod socket;
mod write_connection;

pub use credentials::Credentials;
pub use ids::ConnectionIds;
pub use read_connection::ReadConnection;
pub use socket::Socket;
pub use write_connection::WriteConnection;

use socket::FetchPeerCredentials;
use std::sync::Arc;
use vstd::prelude::*;

verus! {

/// A connection: the low-level API to send and receive messages.
///
/// Each connection has an identifier, shared between its read and write
/// halves, by which the two halves of the same connection can be matched.
pub struct Connection<S: Socket> {
    read: ReadConnection<S::ReadHalf>,
    write: WriteConnection<S::WriteHalf>,
    credentials: Option<Arc<Credentials>>,
}

impl<S: Socket> Connection<S> {
    /// The read half.
    pub closed spec fn spec_read(&self) -> ReadConnection<S::ReadHalf> {
        self.read
    }

    /// The write half.
    pub closed spec fn spec_write(&self) -> WriteConnection<S::WriteHalf> {
        self.write
    }

    /// The cached peer credentials, if they were fetched.
    pub closed spec fn spec_credentials(&self) -> Option<Arc<Credentials>> {
        self.credentials
    }

    /// The two halves, as [`Connection::split`] returns them.
    pub open spec fn spec_halves(&self) -> (ReadConnection<S::ReadHalf>, WriteConnection<S::WriteHalf>) {
        (self.spec_read(), self.spec_write())
    }

    /// The connection that [`Connection::join`] makes of two halves.
    pub closed spec fn spec_joined(
        read: ReadConnection<S::ReadHalf>,
        write: WriteConnection<S::WriteHalf>,
    ) -> Self {
        Connection { read, write, credentials: None }
    }

    /// Joining two halves and splitting the result gives the same two halves
    /// back, and the joined connection has no cached credentials.
    pub proof fn lemma_split_undoes_join(
        read: ReadConnection<S::ReadHalf>,
        write: WriteConnection<S::WriteHalf>,
    )
        ensures
            Self::spec_joined(read, write).spec_halves() == (read, write),
            Self::spec_joined(read, write).spec_credentials() is None,
    {
    }

    /// Splitting a connection and joining the halves gives back a connection
    /// with the same halves; only the cached credentials are dropped.
    pub proof fn lemma_join_undoes_split(c: Self)
        ensures
            Self::spec_joined(c.spec_halves().0, c.spec_halves().1).spec_halves() == c.spec_halves(),
    {
    }

    /// Connections made one after another from one source of identifiers,
    /// `sources[k]` being the source before the `k`-th connection was made and
    /// `sources[k + 1]` after, all have different identifiers, as long as
    /// fewer than `usize::MAX` connections have been made from the source.
    pub proof fn lemma_connections_have_distinct_ids(conns: Seq<Self>, sources: Seq<ConnectionIds>)
        requires
            sources.len() == conns.len() + 1,
            forall|k: int| 0 <= k < conns.len() ==> #[trigger] conns[k].spec_read().spec_id()
                == sources[k].spec_next(),
            forall|k: int|
                0 <= k < sources.len() - 1 ==> #[trigger] sources[k + 1].spec_next() == ids::following_id(
                    sources[k].spec_next(),
                ),
            sources[0].spec_next() + conns.len() <= usize::MAX,
        ensures
            forall|i: int, j: int|
                0 <= i < j < conns.len() ==> #[trigger] conns[i].spec_read().spec_id()
                    != #[trigger] conns[j].spec_read().spec_id(),
    {
        ids::lemma_allocated_ids_distinct(sources);
        assert forall|i: int, j: int|
            0 <= i < j < conns.len() implies #[trigger] conns[i].spec_read().spec_id()
            != #[trigger] conns[j].spec_read().spec_id() by {
            assert(sources[i].spec_next() == sources[0].spec_next() + i);
            assert(sources[j].spec_next() == sources[0].spec_next() + j);
        }
    }

    /// Create a new connection over `socket`.
    ///
    /// The socket is split, and both halves get the next identifier of `ids`,
    /// the source of identifiers that all connections of the process share:
    /// each connection gets an identifier that none before it got (see
    /// [`ids::lemma_allocated_ids_distinct`]).
    pub fn new(socket: S, ids: &mut ConnectionIds) -> (c: Self)
        ensures
            call_ensures(S::split, (socket,), (c.spec_read().spec_socket(), c.spec_write().spec_socket())),
            c.spec_read().spec_id() == old(ids).spec_next(),
            c.spec_write().spec_id() == old(ids).spec_next(),
            final(ids).spec_next() == ids::following_id(old(ids).spec_next()),
            c.spec_credentials() is None,
    {
        let id = ids.allocate();
        let (read, write) = socket.split();
        Connection {
            read: ReadConnection::new(read, id),
            write: WriteConnection::new(write, id),
            credentials: None,
        }
    }

    /// The reference to the read half of the connection.
    pub fn read(&self) -> (r: &ReadConnection<S::ReadHalf>)
        ensures
            *r == self.spec_read(),
    {
        &self.read
    }

    /// The mutable reference to the read half of the connection.
    pub fn read_mut(&mut self) -> (r: &mut ReadConnection<S::ReadHalf>)
        ensures
            *r == old(self).spec_read(),
            final(self).spec_read() == *final(r),
            final(self).spec_write() == old(self).spec_write(),
            final(self).spec_credentials() == old(self).spec_credentials(),
    {
        &mut self.read
    }

    /// The reference to the write half of the connection.
    pub fn write(&self) -> (w: &WriteConnection<S::WriteHalf>)
        ensures
            *w == self.spec_write(),
    {
        &self.write
    }

    /// The mutable reference to the write half of the connection.
    pub fn write_mut(&mut self) -> (w: &mut WriteConnection<S::WriteHalf>)
        ensures
            *w == old(self).spec_write(),
            final(self).spec_write() == *final(w),
            final(self).spec_read() == old(self).spec_read(),
            final(self).spec_credentials() == old(self).spec_credentials(),
    {
        &mut self.write
    }

    /// Split the connection into read and write halves.
    ///
    /// This drops any cached credentials: fetch them with
    /// [`Connection::peer_credentials`] before splitting if they are needed.
    pub fn split(self) -> (halves: (ReadConnection<S::ReadHalf>, WriteConnection<S::WriteHalf>))
        ensures
            halves == self.spec_halves(),
    {
        (self.read, self.write)
    }

    /// Join the read and write halves into a connection (the opposite of
    /// [`Connection::split`]).
    pub fn join(read: ReadConnection<S::ReadHalf>, write: WriteConnection<S::WriteHalf>) -> (c: Self)
        ensures
            c == Self::spec_joined(read, write),
            c.spec_read() == read,
            c.spec_write() == write,
            c.spec_credentials() is None,
    {
        Connection { read, write, credentials: None }
    }

    /// The unique identifier of the connection.
    ///
    /// Both halves must belong to the same connection.
    pub fn id(&self) -> (id: usize)
        requires
            self.spec_read().spec_id() == self.spec_write().spec_id(),
        ensures
            id == self.spec_read().spec_id(),
    {
        self.read.id()
    }

    /// Cache the outcome of fetching the peer credentials, and return what
    /// [`Connection::peer_credentials`] returns for it: fetched credentials
    /// are cached and returned; an error is returned as it is and leaves the
    /// cache as it was.
    pub fn cache_fetched_credentials(
        &mut self,
        fetched: core::result::Result<Credentials, std::io::Error>,
    ) -> (res: core::result::Result<&Arc<Credentials>, std::io::Error>)
        ensures
            final(self).spec_read() == old(self).spec_read(),
            final(self).spec_write() == old(self).spec_write(),
            match fetched {
                Ok(creds) => res matches Ok(c) && **c == creds && final(self).spec_credentials()
                    == Some(*c),
                Err(e) => res == Err::<&Arc<Credentials>, std::io::Error>(e)
                    && final(self).spec_credentials() == old(self).spec_credentials(),
            },
    {
        match fetched {
            Ok(creds) => {
                self.credentials = Some(Arc::new(creds));
                Ok(self.credentials.as_ref().unwrap())
            },
            Err(e) => Err(e),
        }
    }

    /// Get the peer credentials.
    ///
    /// The credentials are fetched from the read half on the first call and
    /// cached: later calls return the cached value without fetching again. A
    /// failed fetch caches nothing, and its error is returned.
    pub fn peer_credentials(&mut self) -> (res: core::result::Result<&Arc<Credentials>, std::io::Error>)
        where S::ReadHalf: FetchPeerCredentials,
        ensures
            final(self).spec_read() == old(self).spec_read(),
            final(self).spec_write() == old(self).spec_write(),
            old(self).spec_credentials() is Some ==> {
                &&& res matches Ok(c) && *c == old(self).spec_credentials()->0
                &&& final(self).spec_credentials() == old(self).spec_credentials()
            },
            old(self).spec_credentials() is None ==> match res {
                Ok(c) => {
                    &&& call_ensures(
                        <S::ReadHalf as FetchPeerCredentials>::fetch_peer_credentials,
                        (&old(self).spec_read().spec_socket(),),
                        Ok::<Credentials, std::io::Error>(**c),
                    )
                    &&& final(self).spec_credentials() == Some(*c)
                },
                Err(e) => {
                    &&& call_ensures(
                        <S::ReadHalf as FetchPeerCredentials>::fetch_peer_credentials,
                        (&old(self).spec_read().spec_socket(),),
                        Err::<Credentials, std::io::Error>(e),
                    )
                    &&& final(self).spec_credentials() is None
                },
            },
    {
        if self.credentials.is_none() {
            let fetched = self.read.read_half().fetch_peer_credentials();
            return self.cache_fetched_credentials(fetched);
        }
        Ok(self.credentials.as_ref().unwrap())
    }
}

} // verus!
