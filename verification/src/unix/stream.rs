//! The send and receive loops of a Unix domain socket stream.
//!
//! A stream socket may take only part of a buffer per `sendmsg`, and a
//! non-blocking socket may not be ready. The loops that drive the system calls
//! live with the runtime; what they do next is decided here.

use vstd::prelude::*;

verus! {

/// Progress of writing one buffer, with its file descriptors, to a stream.
///
/// The buffer goes out in as many sends as the socket needs, each starting
/// where the previous one stopped. The file descriptors go with the first send
/// only; an empty buffer is never sent, and its file descriptors are not either.
#[derive(Debug)]
pub struct WriteProgress {
    pos: usize,
    len: usize,
}

impl WriteProgress {
    #[verifier::type_invariant]
    closed spec fn inv(self) -> bool {
        self.pos <= self.len
    }

    /// How many bytes have been sent.
    pub closed spec fn spec_pos(&self) -> nat {
        self.pos as nat
    }

    /// The length of the buffer.
    pub closed spec fn spec_len(&self) -> nat {
        self.len as nat
    }

    /// The next send, if one is due: the offset it starts at, and whether the
    /// file descriptors go with it.
    pub open spec fn spec_next_send(&self) -> Option<(nat, bool)> {
        if self.spec_pos() < self.spec_len() {
            Some((self.spec_pos(), self.spec_pos() == 0))
        } else {
            None
        }
    }

    /// Start writing a buffer of `len` bytes.
    pub fn new(len: usize) -> (p: Self)
        ensures
            p.spec_pos() == 0,
            p.spec_len() == len,
    {
        WriteProgress { pos: 0, len }
    }

    /// How many bytes have been sent.
    pub fn position(&self) -> (pos: usize)
        ensures
            pos == self.spec_pos(),
    {
        self.pos
    }

    /// Whether the whole buffer has been sent.
    pub fn is_done(&self) -> (done: bool)
        ensures
            done == (self.spec_next_send() is None),
    {
        self.pos >= self.len
    }

    /// The next send: the offset of the bytes it carries (up to the end of the
    /// buffer), and whether the file descriptors go with it. `None` once the
    /// whole buffer has been sent.
    pub fn next_send(&self) -> (next: Option<(usize, bool)>)
        ensures
            match next {
                Some((start, with_fds)) => self.spec_next_send() == Some((start as nat, with_fds)),
                None => self.spec_next_send() is None,
            },
    {
        if self.pos < self.len {
            Some((self.pos, self.pos == 0))
        } else {
            None
        }
    }

    /// Record that a send took `sent` bytes.
    pub fn record_sent(&mut self, sent: usize)
        requires
            old(self).spec_pos() + sent <= old(self).spec_len(),
        ensures
            final(self).spec_pos() == old(self).spec_pos() + sent,
            final(self).spec_len() == old(self).spec_len(),
    {
        proof {
            use_type_invariant(&*self);
        }
        self.pos = self.pos + sent;
    }
}

/// Whatever the sends take, the file descriptors go with one send at most: once
/// a send has taken any bytes, no later send carries them.
pub proof fn lemma_fds_sent_once(before: WriteProgress, after: WriteProgress, sent: nat)
    requires
        before.spec_len() == after.spec_len(),
        after.spec_pos() == before.spec_pos() + sent,
        sent > 0,
    ensures
        after.spec_next_send() matches Some((_, with_fds)) ==> !with_fds,
{
}

/// An empty buffer is never sent, so its file descriptors are not either.
pub proof fn lemma_empty_buffer_sends_nothing(p: WriteProgress)
    requires
        p.spec_len() == 0,
    ensures
        p.spec_next_send() is None,
{
}

/// The pieces of `buf` between consecutive offsets of `offsets`.
pub open spec fn chunks_between(buf: Seq<u8>, offsets: Seq<nat>) -> Seq<Seq<u8>> {
    Seq::new(
        (offsets.len() - 1) as nat,
        |k: int| buf.subrange(offsets[k] as int, offsets[k + 1] as int),
    )
}

proof fn lemma_offsets_grow(offsets: Seq<nat>)
    requires
        offsets.len() >= 1,
        forall|k: int| 0 <= k < offsets.len() - 1 ==> #[trigger] offsets[k] < offsets[k + 1],
    ensures
        forall|k: int| 0 <= k < offsets.len() ==> #[trigger] offsets[k] >= offsets[0] + k,
    decreases offsets.len(),
{
    if offsets.len() > 1 {
        let rest = offsets.drop_first();
        assert forall|k: int| 0 <= k < rest.len() - 1 implies #[trigger] rest[k] < rest[k + 1] by {
            assert(offsets[k + 1] < offsets[k + 2]);
        }
        lemma_offsets_grow(rest);
        assert forall|k: int| 0 <= k < offsets.len() implies #[trigger] offsets[k] >= offsets[0] + k by {
            if k > 0 {
                assert(rest[k - 1] == offsets[k]);
                assert(rest[0] == offsets[1]);
                assert(offsets[0] < offsets[1]);
            }
        }
    }
}

proof fn lemma_chunks_flatten(buf: Seq<u8>, offsets: Seq<nat>)
    requires
        offsets.len() >= 1,
        forall|k: int| 0 <= k < offsets.len() - 1 ==> #[trigger] offsets[k] <= offsets[k + 1],
        offsets.last() <= buf.len(),
    ensures
        chunks_between(buf, offsets).flatten() == buf.subrange(
            offsets[0] as int,
            offsets.last() as int,
        ),
    decreases offsets.len(),
{
    if offsets.len() == 1 {
        assert(chunks_between(buf, offsets) =~= Seq::<Seq<u8>>::empty());
        assert(buf.subrange(offsets[0] as int, offsets.last() as int) =~= Seq::<u8>::empty());
    } else {
        let rest = offsets.drop_first();
        assert forall|k: int| 0 <= k < rest.len() - 1 implies #[trigger] rest[k] <= rest[k + 1] by {
            assert(offsets[k + 1] <= offsets[k + 2]);
        }
        lemma_chunks_flatten(buf, rest);
        let c = chunks_between(buf, offsets);
        assert(c.drop_first() =~= chunks_between(buf, rest));
        assert(offsets[0] <= offsets[1]);
        // The offsets never pass the end of the buffer.
        assert(offsets[1] <= offsets.last()) by {
            lemma_offsets_bounded(rest);
        }
        assert(c.first() + c.drop_first().flatten() =~= buf.subrange(
            offsets[0] as int,
            offsets.last() as int,
        ));
    }
}

proof fn lemma_offsets_bounded(offsets: Seq<nat>)
    requires
        offsets.len() >= 1,
        forall|k: int| 0 <= k < offsets.len() - 1 ==> #[trigger] offsets[k] <= offsets[k + 1],
    ensures
        offsets[0] <= offsets.last(),
    decreases offsets.len(),
{
    if offsets.len() > 1 {
        let rest = offsets.drop_first();
        assert forall|k: int| 0 <= k < rest.len() - 1 implies #[trigger] rest[k] <= rest[k + 1] by {
            assert(offsets[k + 1] <= offsets[k + 2]);
        }
        lemma_offsets_bounded(rest);
        assert(offsets[0] <= offsets[1]);
    }
}

/// A whole write of `buf`: `states[k]` is the progress before the `k`-th
/// send, `states[k + 1]` the progress after it, each send taking some bytes,
/// and the last state having sent everything.
///
/// The sends start where the previous one stopped, so the bytes they carry,
/// joined, are exactly `buf`; the file descriptors go with the first send and
/// with no other; and there are at most as many sends as bytes.
pub proof fn lemma_write_sends_buffer_once(buf: Seq<u8>, states: Seq<WriteProgress>)
    requires
        states.len() >= 1,
        states[0].spec_pos() == 0,
        forall|k: int| 0 <= k < states.len() ==> #[trigger] states[k].spec_len() == buf.len(),
        forall|k: int|
            0 <= k < states.len() - 1 ==> #[trigger] states[k].spec_pos() < states[k + 1].spec_pos(),
        states.last().spec_pos() == buf.len(),
    ensures
        forall|k: int|
            0 <= k < states.len() - 1 ==> #[trigger] states[k].spec_next_send() == Some(
                (states[k].spec_pos(), k == 0),
            ),
        states.last().spec_next_send() is None,
        chunks_between(buf, states.map_values(|p: WriteProgress| p.spec_pos())).flatten() == buf,
        states.len() - 1 <= buf.len(),
{
    let offsets = states.map_values(|p: WriteProgress| p.spec_pos());
    assert forall|k: int| 0 <= k < offsets.len() - 1 implies #[trigger] offsets[k] < offsets[k + 1] by {
        assert(states[k].spec_pos() < states[k + 1].spec_pos());
    }
    lemma_offsets_grow(offsets);
    assert forall|k: int|
        0 <= k < states.len() - 1 implies #[trigger] states[k].spec_next_send() == Some(
        (states[k].spec_pos(), k == 0),
    ) by {
        assert(offsets[k] >= k);
        assert(offsets[k] < offsets[k + 1]);
        lemma_offsets_grow(offsets.subrange(k + 1, offsets.len() as int));
        let tail = offsets.subrange(k + 1, offsets.len() as int);
        assert(tail[tail.len() - 1] >= tail[0] + (tail.len() - 1));
        assert(tail[0] == offsets[k + 1]);
        assert(tail[tail.len() - 1] == offsets.last());
    }
    assert(offsets.last() >= offsets[0] + (offsets.len() - 1));
    assert forall|k: int| 0 <= k < offsets.len() - 1 implies #[trigger] offsets[k] <= offsets[k + 1] by {
        assert(offsets[k] < offsets[k + 1]);
    }
    lemma_chunks_flatten(buf, offsets);
    assert(buf.subrange(0, buf.len() as int) =~= buf);
}

/// The outcome of one non-blocking system call on the socket.
#[derive(Debug, Clone, Copy, PartialEq, Eq, Structural)]
pub enum Attempt {
    /// The call completed, successfully or with an error other than "would block".
    Completed,
    /// The socket was not ready (`WouldBlock`).
    WouldBlock,
}

/// The outcome of polling the socket for readiness.
#[derive(Debug, Clone, Copy, PartialEq, Eq, Structural)]
pub enum Readiness {
    /// Not ready yet; the task will be woken.
    Pending,
    /// Ready for the operation.
    Ready,
    /// Polling failed.
    Failed,
}

/// What the transfer loop does next.
#[derive(Debug, Clone, Copy, PartialEq, Eq, Structural)]
pub enum Step {
    /// Return the outcome of the system call.
    ReturnOutcome,
    /// Poll the socket for readiness.
    AwaitReadiness,
    /// Return `Pending`: the task is woken when the socket is ready.
    ReturnPending,
    /// Return the polling error.
    ReturnPollError,
    /// Make the system call again.
    Retry,
}

/// The step after a system call on the socket: a call that would block waits
/// for readiness, any other outcome is returned as it is.
pub fn after_attempt(attempt: Attempt) -> (step: Step)
    ensures
        attempt == Attempt::WouldBlock ==> step == Step::AwaitReadiness,
        attempt == Attempt::Completed ==> step == Step::ReturnOutcome,
{
    match attempt {
        Attempt::Completed => Step::ReturnOutcome,
        Attempt::WouldBlock => Step::AwaitReadiness,
    }
}

/// The step after polling for readiness: once ready, the call is made again.
pub fn after_readiness(readiness: Readiness) -> (step: Step)
    ensures
        readiness == Readiness::Pending ==> step == Step::ReturnPending,
        readiness == Readiness::Ready ==> step == Step::Retry,
        readiness == Readiness::Failed ==> step == Step::ReturnPollError,
{
    match readiness {
        Readiness::Pending => Step::ReturnPending,
        Readiness::Ready => Step::Retry,
        Readiness::Failed => Step::ReturnPollError,
    }
}

} // verus!
