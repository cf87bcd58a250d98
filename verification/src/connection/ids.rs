//! Connection identifiers.

use vstd::prelude::*;

verus! {

/// The identifier that follows `id`: one more, wrapping around to 0 after
/// `usize::MAX`.
pub open spec fn following_id(id: usize) -> usize {
    if id == usize::MAX {
        0
    } else {
        (id + 1) as usize
    }
}

/// The source of connection identifiers: it hands out 0, 1, 2, ... in turn,
/// wrapping around after `usize::MAX`. A process keeps one, shared by all its
/// connections.
#[derive(Debug)]
pub struct ConnectionIds {
    next: usize,
}

impl ConnectionIds {
    /// The identifier handed out next.
    pub closed spec fn spec_next(&self) -> usize {
        self.next
    }

    /// A source that starts at 0.
    pub fn new() -> (ids: Self)
        ensures
            ids.spec_next() == 0,
    {
        ConnectionIds { next: 0 }
    }

    /// Hand out the next identifier.
    pub fn allocate(&mut self) -> (id: usize)
        ensures
            id == old(self).spec_next(),
            final(self).spec_next() == following_id(old(self).spec_next()),
    {
        let id = self.next;
        self.next = if self.next == usize::MAX {
            0
        } else {
            self.next + 1
        };
        id
    }
}

/// Identifiers are fresh: along a run of allocations, `sources[k]` being the
/// source before the `k`-th allocation and `sources[k + 1]` after it, no two
/// allocations hand out the same identifier, as long as the run does not
/// reach past `usize::MAX`.
pub proof fn lemma_allocated_ids_distinct(sources: Seq<ConnectionIds>)
    requires
        sources.len() >= 1,
        forall|k: int|
            0 <= k < sources.len() - 1 ==> #[trigger] sources[k + 1].spec_next() == following_id(
                sources[k].spec_next(),
            ),
        sources[0].spec_next() + sources.len() - 1 <= usize::MAX,
    ensures
        forall|k: int| 0 <= k < sources.len() ==> #[trigger] sources[k].spec_next() == sources[0].spec_next() + k,
        forall|i: int, j: int|
            0 <= i < j < sources.len() ==> #[trigger] sources[i].spec_next() != #[trigger] sources[j].spec_next(),
    decreases sources.len(),
{
    if sources.len() > 1 {
        let front = sources.drop_last();
        assert forall|k: int| 0 <= k < front.len() - 1 implies #[trigger] front[k + 1].spec_next()
            == following_id(front[k].spec_next()) by {
            assert(front[k + 1] == sources[k + 1]);
            assert(sources[k + 1].spec_next() == following_id(sources[k].spec_next()));
        }
        lemma_allocated_ids_distinct(front);
        let n = sources.len() - 2;
        assert(sources[n + 1].spec_next() == following_id(sources[n].spec_next()));
        assert(front[n] == sources[n]);
        assert forall|k: int| 0 <= k < sources.len() implies #[trigger] sources[k].spec_next()
            == sources[0].spec_next() + k by {
            if k < sources.len() - 1 {
                assert(front[k] == sources[k]);
            }
        }
    }
}

} // verus!
