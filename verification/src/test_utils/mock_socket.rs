//! Mock socket implementations.
//!
//! [`MockSocket`] pre-loads the bytes that reads will return, and the file
//! descriptor sets handed out with them; [`MockWriteHalf`] records what is
//! written; [`TestWriteHalf`] insists on a given write size; and
//! [`CountingWriteHalf`] counts writes.

use crate::connection::socket::{FetchPeerCredentials, ReadHalf, Socket, WriteHalf};
use crate::connection::Credentials;
use crate::unix_utils::credentials_for;
use crate::error::{io_error_from_errno, Error, Result};
use crate::sys::{current_pid, current_uid, dup_fd};
use rustix::fd::OwnedFd;
use rustix::io::Errno;
use vstd::prelude::*;
use vstd::string::StringSliceAdditionalSpecFns;

verus! {

/// The bytes of the responses, each followed by a null byte, in order.
pub open spec fn null_terminated(responses: Seq<Seq<u8>>) -> Seq<u8>
    decreases responses.len(),
{
    if responses.len() == 0 {
        Seq::empty()
    } else {
        null_terminated(responses.drop_last()) + responses.last() + seq![0u8]
    }
}

/// What a [`MockSocket`] built from `responses` reads back: every response
/// null-terminated, then one more null byte to mark the end of all messages.
pub open spec fn framed_responses(responses: Seq<Seq<u8>>) -> Seq<u8> {
    null_terminated(responses) + seq![0u8]
}

/// The byte contents of a list of strings.
pub open spec fn response_bytes(responses: Seq<&str>) -> Seq<Seq<u8>> {
    responses.map_values(|r: &str| r.spec_bytes())
}

/// The contents of a list of file descriptor sets.
pub open spec fn fd_set_views(sets: Seq<Vec<OwnedFd>>) -> Seq<Seq<OwnedFd>> {
    sets.map_values(|s: Vec<OwnedFd>| s@)
}

/// The messages of a byte stream in which each message ends with a null
/// byte, `current` being the part of a message already seen. Bytes after the
/// last null byte belong to no message yet.
pub open spec fn messages_from(bytes: Seq<u8>, current: Seq<u8>) -> Seq<Seq<u8>>
    decreases bytes.len(),
{
    if bytes.len() == 0 {
        Seq::empty()
    } else if bytes[0] == 0 {
        seq![current] + messages_from(bytes.drop_first(), Seq::empty())
    } else {
        messages_from(bytes.drop_first(), current.push(bytes[0]))
    }
}

/// The null-terminated messages of a byte stream.
pub open spec fn messages(bytes: Seq<u8>) -> Seq<Seq<u8>> {
    messages_from(bytes, Seq::empty())
}

/// No response holds a null byte.
pub open spec fn free_of_nul(responses: Seq<Seq<u8>>) -> bool {
    forall|i: int, j: int|
        0 <= i < responses.len() && 0 <= j < responses[i].len() ==> #[trigger] responses[i][j] != 0
}

proof fn lemma_one_message(r: Seq<u8>, current: Seq<u8>, tail: Seq<u8>)
    requires
        forall|j: int| 0 <= j < r.len() ==> #[trigger] r[j] != 0,
    ensures
        messages_from(r + seq![0u8] + tail, current) == seq![current + r] + messages_from(
            tail,
            Seq::empty(),
        ),
    decreases r.len(),
{
    let b = r + seq![0u8] + tail;
    if r.len() == 0 {
        assert(b.drop_first() =~= tail);
        assert(current + r =~= current);
    } else {
        assert(b[0] == r[0]);
        assert(b.drop_first() =~= r.drop_first() + seq![0u8] + tail);
        lemma_one_message(r.drop_first(), current.push(r[0]), tail);
        assert(current.push(r[0]) + r.drop_first() =~= current + r);
    }
}

proof fn lemma_null_terminated_messages(rs: Seq<Seq<u8>>, tail: Seq<u8>)
    requires
        free_of_nul(rs),
    ensures
        messages(null_terminated(rs) + tail) == rs + messages(tail),
    decreases rs.len(),
{
    if rs.len() == 0 {
        assert(null_terminated(rs) + tail =~= tail);
        assert(rs + messages(tail) =~= messages(tail));
    } else {
        let last = rs.last();
        let rest = rs.drop_last();
        let tail2 = last + seq![0u8] + tail;
        assert(free_of_nul(rest)) by {
            assert forall|i: int, j: int|
                0 <= i < rest.len() && 0 <= j < rest[i].len() implies #[trigger] rest[i][j] != 0 by {
                assert(rest[i] == rs[i]);
                assert(rs[i][j] != 0);
            }
        }
        assert forall|j: int| 0 <= j < last.len() implies #[trigger] last[j] != 0 by {
            assert(rs[rs.len() - 1][j] != 0);
        }
        assert(null_terminated(rs) + tail =~= null_terminated(rest) + tail2);
        lemma_null_terminated_messages(rest, tail2);
        lemma_one_message(last, Seq::empty(), tail);
        assert(Seq::<u8>::empty() + last =~= last);
        assert(rest + (seq![last] + messages(tail)) =~= rs + messages(tail));
    }
}

/// What a mock socket reads back splits, at its null bytes, into the responses
/// it was built from, followed by one empty message: the mark that ends them.
pub proof fn lemma_framed_responses_split_back(responses: Seq<Seq<u8>>)
    requires
        free_of_nul(responses),
    ensures
        messages(framed_responses(responses)) == responses.push(Seq::<u8>::empty()),
{
    lemma_null_terminated_messages(responses, seq![0u8]);
    let z = seq![0u8];
    assert(z.drop_first() =~= Seq::<u8>::empty());
    assert(messages(z) =~= seq![Seq::<u8>::empty()] + messages(Seq::<u8>::empty()));
    assert(messages(Seq::<u8>::empty()) =~= Seq::<Seq<u8>>::empty());
    assert(responses + messages(z) =~= responses.push(Seq::<u8>::empty()));
}

/// The total length of the responses.
pub open spec fn total_len(responses: Seq<Seq<u8>>) -> nat
    decreases responses.len(),
{
    if responses.len() == 0 {
        0
    } else {
        total_len(responses.drop_last()) + responses.last().len()
    }
}

proof fn lemma_null_terminated_len(responses: Seq<Seq<u8>>)
    ensures
        null_terminated(responses).len() == total_len(responses) + responses.len(),
    decreases responses.len(),
{
    if responses.len() > 0 {
        lemma_null_terminated_len(responses.drop_last());
    }
}

/// Mock socket: pre-loads response data and the file descriptors that reads
/// hand out.
#[derive(Debug)]
pub struct MockSocket {
    read_data: Vec<u8>,
    read_pos: usize,
    fds: Vec<Vec<OwnedFd>>,
    fd_index: usize,
}

impl MockSocket {
    #[verifier::type_invariant]
    closed spec fn inv(self) -> bool {
        self.read_pos <= self.read_data@.len()
    }

    /// The bytes that reads will return.
    pub closed spec fn spec_data(&self) -> Seq<u8> {
        self.read_data@
    }

    /// How many of those bytes have already been read.
    pub closed spec fn spec_pos(&self) -> nat {
        self.read_pos as nat
    }

    /// The file descriptor sets, one per read.
    pub closed spec fn spec_fd_sets(&self) -> Seq<Seq<OwnedFd>> {
        fd_set_views(self.fds@)
    }

    /// How many file descriptor sets have been handed out.
    pub closed spec fn spec_fd_index(&self) -> nat {
        self.fd_index as nat
    }

    /// Create a new mock socket with pre-configured responses.
    ///
    /// Each response string is null-terminated, and one more null byte marks
    /// the end of all messages. `fds` gives the file descriptors that each read
    /// operation returns, one set per read; an empty set for reads that return
    /// none.
    pub fn new(responses: &[&str], fds: Vec<Vec<OwnedFd>>) -> (s: Self)
        ensures
            s.spec_data() == framed_responses(response_bytes(responses@)),
            s.spec_pos() == 0,
            s.spec_fd_sets() == fd_set_views(fds@),
            s.spec_fd_index() == 0,
    {
        let mut data: Vec<u8> = Vec::new();
        let n = responses.len();
        let ghost rs = response_bytes(responses@);
        for i in 0..n
            invariant
                n == responses@.len(),
                rs == response_bytes(responses@),
                data@ == null_terminated(rs.take(i as int)),
        {
            let bytes = responses[i].as_bytes();
            data.extend_from_slice(bytes);
            data.push(0u8);
            proof {
                assert(rs.take(i + 1).drop_last() =~= rs.take(i as int));
                assert(rs[i as int] == responses@[i as int].spec_bytes());
                assert(data@ =~= null_terminated(rs.take(i as int)) + rs[i as int] + seq![0u8]);
            }
        }
        proof {
            assert(rs.take(n as int) =~= rs);
        }
        data.push(0u8);
        MockSocket { read_data: data, read_pos: 0, fds, fd_index: 0 }
    }

    /// Create a mock socket with responses and no file descriptors.
    pub fn with_responses(responses: &[&str]) -> (s: Self)
        ensures
            s.spec_data() == framed_responses(response_bytes(responses@)),
            s.spec_pos() == 0,
            s.spec_fd_sets() == Seq::<Seq<OwnedFd>>::empty(),
            s.spec_fd_index() == 0,
    {
        let s = Self::new(responses, Vec::new());
        proof {
            assert(s.spec_fd_sets() =~= Seq::<Seq<OwnedFd>>::empty());
        }
        s
    }
}


/// What a new mock socket holds, said of the responses and nothing else: its
/// bytes are as many as the responses' bytes, plus one null byte for each
/// response, plus the final null byte, which is the last byte; when no
/// response holds a null byte, splitting them at null bytes gives back the
/// responses, in order, and then one empty message. Nothing has been read, and
/// the file descriptor sets are the ones given, none handed out yet.
pub proof fn lemma_new_mock_socket(responses: &[&str], fds: Vec<Vec<OwnedFd>>, s: MockSocket)
    requires
        call_ensures(MockSocket::new, (responses, fds), s),
    ensures
        s.spec_data().len() == total_len(response_bytes(responses@)) + responses@.len() + 1,
        s.spec_data().last() == 0,
        free_of_nul(response_bytes(responses@)) ==> messages(s.spec_data())
            == response_bytes(responses@).push(Seq::<u8>::empty()),
        s.spec_pos() == 0,
        s.spec_fd_sets() == fd_set_views(fds@),
        s.spec_fd_index() == 0,
{
    let rb = response_bytes(responses@);
    lemma_null_terminated_len(rb);
    if free_of_nul(rb) {
        lemma_framed_responses_split_back(rb);
    }
}

impl Socket for MockSocket {
    type ReadHalf = MockReadHalf;
    type WriteHalf = MockWriteHalf;

    fn split(self) -> (halves: (MockReadHalf, MockWriteHalf))
        ensures
            halves.0.spec_data() == self.spec_data(),
            halves.0.spec_pos() == self.spec_pos(),
            halves.0.spec_fd_sets() == self.spec_fd_sets(),
            halves.0.spec_fd_index() == self.spec_fd_index(),
            halves.0.spec_pos() <= halves.0.spec_data().len(),
            halves.1.spec_written() == Seq::<u8>::empty(),
            halves.1.spec_fds_written() == Seq::<Seq<OwnedFd>>::empty(),
    {
        proof {
            use_type_invariant(&self);
        }
        let read = MockReadHalf {
            data: self.read_data,
            pos: self.read_pos,
            fds: self.fds,
            fd_index: self.fd_index,
        };
        let write = MockWriteHalf::new();
        (read, write)
    }
}

/// Mock read half: hands out the pre-loaded bytes and file descriptor sets.
#[derive(Debug)]
pub struct MockReadHalf {
    data: Vec<u8>,
    pos: usize,
    fds: Vec<Vec<OwnedFd>>,
    fd_index: usize,
}

impl MockReadHalf {
    #[verifier::type_invariant]
    closed spec fn inv(self) -> bool {
        self.pos <= self.data@.len()
    }

    /// All the bytes this half was loaded with.
    pub closed spec fn spec_data(&self) -> Seq<u8> {
        self.data@
    }

    /// How many of those bytes have been read.
    pub closed spec fn spec_pos(&self) -> nat {
        self.pos as nat
    }

    /// The file descriptor sets; those handed out so far are left empty.
    pub closed spec fn spec_fd_sets(&self) -> Seq<Seq<OwnedFd>> {
        fd_set_views(self.fds@)
    }

    /// How many file descriptor sets have been handed out.
    pub closed spec fn spec_fd_index(&self) -> nat {
        self.fd_index as nat
    }

    /// The bytes not read yet.
    pub open spec fn spec_remaining(&self) -> Seq<u8> {
        self.spec_data().subrange(self.spec_pos() as int, self.spec_data().len() as int)
    }

    /// Get the remaining unread data in the buffer.
    pub fn remaining_data(&self) -> (rest: &[u8])
        ensures
            rest@ == self.spec_remaining(),
    {
        proof {
            use_type_invariant(self);
        }
        &self.data.as_slice()[self.pos..self.data.len()]
    }

    /// Get the number of file descriptor sets that have been consumed.
    pub fn fds_consumed(&self) -> (n: usize)
        ensures
            n == self.spec_fd_index(),
    {
        self.fd_index
    }
}

/// Reads neither lose nor repeat bytes: the bytes one read returns, followed by
/// what is left unread after it, are exactly what was unread before it.
pub proof fn lemma_read_keeps_order(before: MockReadHalf, after: MockReadHalf, n: nat)
    requires
        after.spec_data() == before.spec_data(),
        after.spec_pos() == before.spec_pos() + n,
        before.spec_pos() + n <= before.spec_data().len(),
    ensures
        before.spec_remaining() == before.spec_remaining().take(n as int) + after.spec_remaining(),
{
    assert(before.spec_remaining() =~= before.spec_remaining().take(n as int)
        + after.spec_remaining());
}

impl ReadHalf for MockReadHalf {
    /// Copies as many unread bytes as fit into `buf` and hands out the next file
    /// descriptor set, if any is left. Once every byte has been read, a read
    /// returns nothing and hands out no file descriptors.
    fn read(&mut self, buf: &mut [u8]) -> (res: Result<(usize, Vec<OwnedFd>)>)
        ensures
            res is Ok,
            final(self).spec_pos() <= final(self).spec_data().len(),
            old(self).spec_remaining().len() == 0 ==> {
                &&& res matches Ok((n, fds)) && n == 0 && fds@.len() == 0
                &&& final(self).spec_data() == old(self).spec_data()
                &&& final(self).spec_pos() == old(self).spec_pos()
                &&& final(self).spec_fd_sets() == old(self).spec_fd_sets()
                &&& final(self).spec_fd_index() == old(self).spec_fd_index()
                &&& final(buf)@ == old(buf)@
            },
            old(self).spec_remaining().len() > 0 ==> {
                let n = if old(self).spec_remaining().len() < old(buf)@.len() {
                    old(self).spec_remaining().len()
                } else {
                    old(buf)@.len()
                };
                let i = old(self).spec_fd_index();
                let sets = old(self).spec_fd_sets();
                &&& res matches Ok((m, fds)) && m == n && (if i < sets.len() {
                    fds@ == sets[i as int]
                } else {
                    fds@.len() == 0
                })
                &&& final(buf)@ == old(self).spec_remaining().take(n as int) + old(buf)@.skip(
                    n as int,
                )
                &&& final(self).spec_data() == old(self).spec_data()
                &&& final(self).spec_pos() == old(self).spec_pos() + n
                &&& i < sets.len() ==> final(self).spec_fd_sets() == sets.update(
                    i as int,
                    Seq::<OwnedFd>::empty(),
                ) && final(self).spec_fd_index() == i + 1
                &&& i >= sets.len() ==> final(self).spec_fd_sets() == sets
                    && final(self).spec_fd_index() == i
            },
    {
        proof {
            use_type_invariant(&*self);
        }
        let len = self.data.len();
        let remaining = len - self.pos;
        if remaining == 0 {
            return Ok((0, Vec::new()));
        }
        let to_read = if remaining < buf.len() {
            remaining
        } else {
            buf.len()
        };
        let ghost old_buf = buf@;
        let mut i: usize = 0;
        while i < to_read
            invariant
                0 <= i <= to_read,
                to_read <= buf@.len(),
                buf@.len() == old_buf.len(),
                self.pos + to_read <= self.data@.len(),
                len == self.data@.len(),
                forall|k: int| 0 <= k < i ==> buf@[k] == self.data@[self.pos + k],
                forall|k: int| i <= k < buf@.len() ==> buf@[k] == old_buf[k],
            decreases to_read - i,
        {
            buf[i] = self.data[self.pos + i];
            i = i + 1;
        }
        proof {
            assert(buf@ =~= self.spec_remaining().take(to_read as int) + old_buf.skip(
                to_read as int,
            ));
        }
        self.pos = self.pos + to_read;
        let fds = if self.fd_index < self.fds.len() {
            let mut taken: Vec<OwnedFd> = Vec::new();
            std::mem::swap(&mut self.fds[self.fd_index], &mut taken);
            self.fd_index = self.fd_index + 1;
            taken
        } else {
            Vec::new()
        };
        Ok((to_read, fds))
    }
}

impl FetchPeerCredentials for MockReadHalf {
    /// The credentials of the current process, for want of a peer.
    fn fetch_peer_credentials(&self) -> (res: core::result::Result<Credentials, std::io::Error>)
        ensures
            res matches Ok(c) ==> c.spec_process_fd_target() == Some(c.spec_pid()),
    {
        let uid = current_uid();
        let pid = current_pid();
        credentials_for(uid, pid)
    }
}

/// Mock write half: records the bytes and the file descriptor sets written.
pub struct MockWriteHalf {
    written: Vec<u8>,
    fds_written: Vec<Vec<OwnedFd>>,
    fd_sources: Ghost<Seq<Seq<OwnedFd>>>,
}

impl MockWriteHalf {
    /// All bytes written so far, in order.
    pub closed spec fn spec_written(&self) -> Seq<u8> {
        self.written@
    }

    /// The file descriptor sets written so far, one per write that carried any.
    pub closed spec fn spec_fds_written(&self) -> Seq<Seq<OwnedFd>> {
        fd_set_views(self.fds_written@)
    }

    /// For each written set, the descriptors that its members duplicate, in
    /// order: the descriptors that the write carrying the set was given.
    pub closed spec fn spec_fd_sources(&self) -> Seq<Seq<OwnedFd>> {
        self.fd_sources@
    }

    /// Create a new mock write half.
    pub fn new() -> (w: Self)
        ensures
            w.spec_written() == Seq::<u8>::empty(),
            w.spec_fds_written() == Seq::<Seq<OwnedFd>>::empty(),
            w.spec_fd_sources() == Seq::<Seq<OwnedFd>>::empty(),
    {
        let w = MockWriteHalf {
            written: Vec::new(),
            fds_written: Vec::new(),
            fd_sources: Ghost(Seq::empty()),
        };
        proof {
            assert(w.spec_fds_written() =~= Seq::<Seq<OwnedFd>>::empty());
        }
        w
    }

    /// Get all data that has been written to this mock.
    pub fn written_data(&self) -> (data: &[u8])
        ensures
            data@ == self.spec_written(),
    {
        self.written.as_slice()
    }

    /// Get all file descriptor sets that have been written.
    pub fn fds_written(&self) -> (sets: &Vec<Vec<OwnedFd>>)
        ensures
            fd_set_views(sets@) == self.spec_fds_written(),
    {
        &self.fds_written
    }

    /// Get the number of writes that carried file descriptors.
    pub fn fd_write_count(&self) -> (n: usize)
        ensures
            n == self.spec_fds_written().len(),
    {
        self.fds_written.len()
    }
}

impl Default for MockWriteHalf {
    fn default() -> (w: Self)
        ensures
            w.spec_written() == Seq::<u8>::empty(),
            w.spec_fds_written() == Seq::<Seq<OwnedFd>>::empty(),
            w.spec_fd_sources() == Seq::<Seq<OwnedFd>>::empty(),
    {
        Self::new()
    }
}

impl WriteHalf for MockWriteHalf {
    /// Appends `buf` to the written bytes. When `fds` is not empty, a duplicate
    /// of each descriptor is recorded as one more written set; a failed
    /// duplication ends the write in an error and records no set.
    fn write(&mut self, buf: &[u8], fds: &[OwnedFd]) -> (res: Result<()>)
        ensures
            final(self).spec_written() == old(self).spec_written() + buf@,
            fds@.len() == 0 ==> res is Ok && final(self).spec_fds_written()
                == old(self).spec_fds_written(),
            fds@.len() > 0 && res is Ok ==> {
                &&& final(self).spec_fds_written().len() == old(self).spec_fds_written().len() + 1
                &&& final(self).spec_fds_written().drop_last() == old(self).spec_fds_written()
                &&& final(self).spec_fds_written().last().len() == fds@.len()
                &&& final(self).spec_fd_sources() == old(self).spec_fd_sources().push(fds@)
            },
            fds@.len() == 0 || res is Err ==> final(self).spec_fd_sources()
                == old(self).spec_fd_sources(),
            res is Err ==> final(self).spec_fds_written() == old(self).spec_fds_written(),
    {
        let ghost old_written = self.written@;
        self.written.extend_from_slice(buf);
        proof {
            assert(self.written@ =~= old_written + buf@);
        }
        if fds.len() > 0 {
            let (owned, sources) = match duplicate_fds(fds) {
                Ok(d) => d,
                Err(e) => return Err(Error::Io(io_error_from_errno(e))),
            };
            let ghost old_sets = self.fds_written@;
            self.fds_written.push(owned);
            self.fd_sources = Ghost(self.fd_sources@.push(sources@));
            proof {
                assert(fd_set_views(self.fds_written@).drop_last() =~= fd_set_views(old_sets));
            }
        }
        Ok(())
    }
}

/// Duplicates each of `fds`, in order. The ghost part of the result holds,
/// for each duplicate, the descriptor it duplicates.
pub fn duplicate_fds(fds: &[OwnedFd]) -> (res: core::result::Result<
    (Vec<OwnedFd>, Ghost<Seq<OwnedFd>>),
    Errno,
>)
    ensures
        res matches Ok((dups, sources)) ==> dups@.len() == fds@.len() && sources@ == fds@,
{
    let mut owned: Vec<OwnedFd> = Vec::new();
    let ghost mut sources: Seq<OwnedFd> = Seq::empty();
    let n = fds.len();
    for i in 0..n
        invariant
            n == fds@.len(),
            owned@.len() == i,
            sources == fds@.take(i as int),
    {
        match dup_fd(&fds[i]) {
            Ok((fd, source)) => {
                owned.push(fd);
                proof {
                    sources = sources.push(source@);
                    assert(sources =~= fds@.take(i + 1));
                }
            },
            Err(e) => return Err(e),
        }
    }
    proof {
        assert(sources =~= fds@);
    }
    Ok((owned, Ghost(sources)))
}

/// Duplicating descriptors keeps their number and order: on success there is
/// one duplicate per given descriptor, and the `k`-th duplicates the `k`-th
/// given descriptor, never another one.
pub proof fn lemma_duplicates_follow_the_given_fds(
    fds: &[OwnedFd],
    res: core::result::Result<(Vec<OwnedFd>, Ghost<Seq<OwnedFd>>), Errno>,
)
    requires
        call_ensures(duplicate_fds, (fds,), res),
    ensures
        res matches Ok((dups, sources)) ==> {
            &&& dups@.len() == fds@.len()
            &&& sources@.len() == fds@.len()
            &&& forall|k: int| 0 <= k < fds@.len() ==> #[trigger] sources@[k] == fds@[k]
        },
{
}

/// Write half that insists on the size of each write and the number of file
/// descriptors it carries.
#[derive(Debug)]
pub struct TestWriteHalf {
    expected_len: usize,
    expected_fd_count: Option<usize>,
    write_count: usize,
}

impl TestWriteHalf {
    /// The length every write must have.
    pub closed spec fn spec_expected_len(&self) -> nat {
        self.expected_len as nat
    }

    /// The number of file descriptors every write must carry.
    pub closed spec fn spec_expected_fd_count(&self) -> nat {
        match self.expected_fd_count {
            Some(n) => n as nat,
            None => 0,
        }
    }

    /// The number of writes performed.
    pub closed spec fn spec_write_count(&self) -> nat {
        self.write_count as nat
    }

    /// Create a new test write half that expects writes of the given length,
    /// carrying no file descriptors.
    pub fn new(expected_len: usize) -> (w: Self)
        ensures
            w.spec_expected_len() == expected_len,
            w.spec_expected_fd_count() == 0,
            w.spec_write_count() == 0,
    {
        TestWriteHalf { expected_len, expected_fd_count: None, write_count: 0 }
    }

    /// Create a new test write half expecting writes of the given length, each
    /// carrying the given number of file descriptors.
    pub fn new_with_fds(expected_len: usize, expected_fd_count: usize) -> (w: Self)
        ensures
            w.spec_expected_len() == expected_len,
            w.spec_expected_fd_count() == expected_fd_count,
            w.spec_write_count() == 0,
    {
        TestWriteHalf { expected_len, expected_fd_count: Some(expected_fd_count), write_count: 0 }
    }

    /// Get the number of writes performed.
    pub fn write_count(&self) -> (n: usize)
        ensures
            n == self.spec_write_count(),
    {
        self.write_count
    }
}

impl WriteHalf for TestWriteHalf {
    open spec fn accepts_write(&self, len: nat, fd_count: nat) -> bool {
        &&& len == self.spec_expected_len()
        &&& fd_count == self.spec_expected_fd_count()
        &&& self.spec_write_count() < usize::MAX
    }

    fn write(&mut self, buf: &[u8], fds: &[OwnedFd]) -> (res: Result<()>)
        ensures
            res is Ok,
            final(self).spec_expected_len() == old(self).spec_expected_len(),
            final(self).spec_expected_fd_count() == old(self).spec_expected_fd_count(),
            final(self).spec_write_count() == old(self).spec_write_count() + 1,
    {
        self.write_count = self.write_count + 1;
        Ok(())
    }
}

/// A run of writes to a test write half, each accepted: `halves[k]` is the half
/// before the `k`-th write and `halves[k + 1]` the half after it. Starting from
/// a fresh half, the count after `m` writes is `m`, and the expected length and
/// file descriptor count never change.
pub proof fn lemma_test_write_half_counts_writes(halves: Seq<TestWriteHalf>)
    requires
        halves.len() >= 1,
        halves[0].spec_write_count() == 0,
        forall|k: int|
            0 <= k < halves.len() - 1 ==> {
                &&& #[trigger] halves[k + 1].spec_write_count() == halves[k].spec_write_count() + 1
                &&& halves[k + 1].spec_expected_len() == halves[k].spec_expected_len()
                &&& halves[k + 1].spec_expected_fd_count() == halves[k].spec_expected_fd_count()
            },
    ensures
        halves.last().spec_write_count() == halves.len() - 1,
        halves.last().spec_expected_len() == halves[0].spec_expected_len(),
        halves.last().spec_expected_fd_count() == halves[0].spec_expected_fd_count(),
    decreases halves.len(),
{
    if halves.len() > 1 {
        let front = halves.drop_last();
        assert forall|k: int| 0 <= k < front.len() - 1 implies {
            &&& #[trigger] front[k + 1].spec_write_count() == front[k].spec_write_count() + 1
            &&& front[k + 1].spec_expected_len() == front[k].spec_expected_len()
            &&& front[k + 1].spec_expected_fd_count() == front[k].spec_expected_fd_count()
        } by {
            assert(front[k + 1] == halves[k + 1]);
            assert(halves[k + 1].spec_write_count() == halves[k].spec_write_count() + 1);
        }
        lemma_test_write_half_counts_writes(front);
        let n = halves.len() - 2;
        assert(halves[n + 1].spec_write_count() == halves[n].spec_write_count() + 1);
    }
}

/// Write half that counts the write operations.
#[derive(Debug)]
pub struct CountingWriteHalf {
    count: usize,
}

impl CountingWriteHalf {
    /// The number of writes performed.
    pub closed spec fn spec_count(&self) -> nat {
        self.count as nat
    }

    /// Create a new counting write half.
    pub fn new() -> (w: Self)
        ensures
            w.spec_count() == 0,
    {
        CountingWriteHalf { count: 0 }
    }

    /// Get the number of write operations that have been performed.
    pub fn count(&self) -> (n: usize)
        ensures
            n == self.spec_count(),
    {
        self.count
    }
}

impl Default for CountingWriteHalf {
    fn default() -> (w: Self)
        ensures
            w.spec_count() == 0,
    {
        Self::new()
    }
}

/// A run of writes to a counting write half: `halves[k]` is the half before the
/// `k`-th write and `halves[k + 1]` the half after it. Starting from a fresh
/// half, the count after `m` writes is `m`.
pub proof fn lemma_counting_write_half_counts_writes(halves: Seq<CountingWriteHalf>)
    requires
        halves.len() >= 1,
        halves[0].spec_count() == 0,
        forall|k: int|
            0 <= k < halves.len() - 1 ==> #[trigger] halves[k + 1].spec_count() == halves[k].spec_count()
                + 1,
    ensures
        halves.last().spec_count() == halves.len() - 1,
    decreases halves.len(),
{
    if halves.len() > 1 {
        let front = halves.drop_last();
        assert forall|k: int| 0 <= k < front.len() - 1 implies #[trigger] front[k + 1].spec_count()
            == front[k].spec_count() + 1 by {
            assert(front[k + 1] == halves[k + 1]);
            assert(halves[k + 1].spec_count() == halves[k].spec_count() + 1);
        }
        lemma_counting_write_half_counts_writes(front);
        let n = halves.len() - 2;
        assert(halves[n + 1].spec_count() == halves[n].spec_count() + 1);
    }
}

impl WriteHalf for CountingWriteHalf {
    open spec fn accepts_write(&self, len: nat, fd_count: nat) -> bool {
        self.spec_count() < usize::MAX
    }

    fn write(&mut self, buf: &[u8], fds: &[OwnedFd]) -> (res: Result<()>)
        ensures
            res is Ok,
            final(self).spec_count() == old(self).spec_count() + 1,
    {
        self.count = self.count + 1;
        Ok(())
    }
}

} // verus!
