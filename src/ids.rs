//! Allocation of connection identities.
use vstd::prelude::*;

verus! {

/// An identity given to one connection for the lifetime of the process.
pub type ConnectionId = u64;

/// Hands out connection identities, counting up from 1; an identity is
/// never handed out twice.
pub struct IdAllocator {
    next: u64,
}

impl View for IdAllocator {
    /// The identity that the next allocation hands out.
    type V = nat;

    closed spec fn view(&self) -> nat {
        self.next as nat
    }
}

/// One allocation: `id` is handed out by an allocator in state `before`,
/// which is left in state `after`.
pub open spec fn allocation_step(before: IdAllocator, id: ConnectionId, after: IdAllocator) -> bool {
    &&& id == before@
    &&& after@ == before@ + 1
}

impl IdAllocator {
    /// An allocator whose first identity is 1.
    pub fn new() -> (a: Self)
        ensures
            a@ == 1,
    {
        IdAllocator { next: 1 }
    }

    /// Whether every identity has been handed out, so that no allocation
    /// can follow.
    pub fn is_exhausted(&self) -> (r: bool)
        ensures
            r == (self@ >= u64::MAX),
    {
        self.next == u64::MAX
    }

    /// Hands out the next identity.
    pub fn next_id(&mut self) -> (id: ConnectionId)
        requires
            old(self)@ < u64::MAX,
        ensures
            allocation_step(*old(self), id, *final(self)),
    {
        let id = self.next;
        self.next = self.next + 1;
        id
    }
}

/// The `i`-th allocation of a run hands out the first state's identity
/// plus `i`.
proof fn lemma_run_ids(states: Seq<IdAllocator>, ids: Seq<ConnectionId>, i: int)
    requires
        states.len() == ids.len() + 1,
        forall|k: int| 0 <= k < ids.len() ==> #[trigger] allocation_step(states[k], ids[k], states[k + 1]),
        0 <= i < ids.len(),
    ensures
        ids[i] == states[0]@ + i,
        states[i + 1]@ == states[0]@ + i + 1,
    decreases i,
{
    if i > 0 {
        lemma_run_ids(states, ids, i - 1);
    }
    assert(allocation_step(states[i], ids[i], states[i + 1]));
}

/// Uniqueness: the identities handed out by any run of successive
/// allocations on one allocator are pairwise distinct.
pub proof fn lemma_ids_distinct(states: Seq<IdAllocator>, ids: Seq<ConnectionId>)
    requires
        states.len() == ids.len() + 1,
        forall|k: int| 0 <= k < ids.len() ==> #[trigger] allocation_step(states[k], ids[k], states[k + 1]),
    ensures
        forall|i: int, j: int| 0 <= i < j < ids.len() ==> ids[i] != ids[j],
{
    assert forall|i: int, j: int| 0 <= i < j < ids.len() implies ids[i] != ids[j] by {
        lemma_run_ids(states, ids, i);
        lemma_run_ids(states, ids, j);
    }
}

} // verus!
