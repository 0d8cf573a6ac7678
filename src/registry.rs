//! The table of live connections: identity to outbound channel.
use vstd::prelude::*;
use std::collections::HashMap;
use tokio::sync::mpsc::UnboundedSender;
use crate::channel::Outbox;
use crate::ids::ConnectionId;
use vstd::std_specs::iter::IteratorSpec;

verus! {

broadcast use vstd::std_specs::hash::group_hash_axioms;

/// Maps the identity of each live connection to the outbox of its
/// outbound channel.
pub struct Registry {
    peers: HashMap<ConnectionId, Outbox>,
}

impl View for Registry {
    type V = Map<ConnectionId, Outbox>;

    closed spec fn view(&self) -> Self::V {
        self.peers@
    }
}

/// The identities of a snapshot, in its order.
pub open spec fn snapshot_ids(s: Seq<(ConnectionId, &Outbox)>) -> Seq<ConnectionId> {
    s.map_values(|p: (ConnectionId, &Outbox)| p.0)
}

impl Registry {
    /// A registry with no connection in it.
    pub fn new() -> (r: Self)
        ensures
            r@ == Map::<ConnectionId, Outbox>::empty(),
    {
        Registry { peers: HashMap::new() }
    }

    /// Maps `id` to a fresh outbox for `tx`, in place of what it was mapped
    /// to before.
    pub fn register(&mut self, id: ConnectionId, tx: UnboundedSender<String>)
        ensures
            final(self)@.dom() == old(self)@.dom().insert(id),
            final(self)@.remove(id) == old(self)@.remove(id),
            final(self)@[id].sender() == tx,
            final(self)@[id].handed() == Seq::<(Seq<char>, bool)>::empty(),
    {
        self.peers.insert(id, Outbox::new(tx));
        assert(self@.remove(id) =~= old(self)@.remove(id));
    }

    /// Hands `msg` to the outbound channel of `id`; nothing else changes.
    pub fn push_to(&mut self, id: ConnectionId, msg: String) -> (r: Result<(), String>)
        requires
            old(self)@.contains_key(id),
        ensures
            final(self)@ == old(self)@.insert(id, final(self)@[id]),
            final(self)@[id].sender() == old(self)@[id].sender(),
            final(self)@[id].handed() == old(self)@[id].handed().push((msg@, r is Ok)),
            r matches Err(back) ==> back@ == msg@,
    {
        match self.peers.remove(&id) {
            Some(mut o) => {
                let r = o.hand(msg);
                self.peers.insert(id, o);
                assert(self@ =~= old(self)@.insert(id, self@[id]));
                r
            },
            None => Err(msg),
        }
    }

    /// Removes `id`, if it is there.
    pub fn deregister(&mut self, id: ConnectionId)
        ensures
            final(self)@ == old(self)@.remove(id),
    {
        self.peers.remove(&id);
    }

    /// Whether `id` is registered.
    pub fn contains(&self, id: ConnectionId) -> (r: bool)
        ensures
            r == self@.contains_key(id),
    {
        self.peers.contains_key(&id)
    }

    /// The number of registered connections.
    pub fn len(&self) -> (n: usize)
        ensures
            n == self@.len(),
    {
        self.peers.len()
    }

    /// Every registered connection but `exclude`, each once, with its
    /// outbox.
    pub fn snapshot_others<'a>(&'a self, exclude: ConnectionId) -> (r: Vec<(ConnectionId, &'a Outbox)>)
        ensures
            snapshot_ids(r@).no_duplicates(),
            snapshot_ids(r@).to_set() == self@.dom().remove(exclude),
            forall|i: int| 0 <= i < r@.len() ==> #[trigger] r@[i].1 == self@[r@[i].0],
    {
        let mut r: Vec<(ConnectionId, &'a Outbox)> = Vec::new();
        for (id, tx) in it: self.peers.iter()
            invariant
                it.seq().no_duplicates(),
                snapshot_ids(r@).no_duplicates(),
                forall|i: int| 0 <= i < r@.len() ==> self@.contains_key(#[trigger] r@[i].0) && r@[i].1 == self@[r@[i].0],
                forall|k: ConnectionId| #[trigger] snapshot_ids(r@).contains(k) <==> (k != exclude && exists|j: int| 0 <= j < it.index() && *it.seq()[j].0 == k),
        {
            let ghost before = r@;
            let ghost j = it.index();
            proof {
                let s = it.seq();
                assert(s == vstd::std_specs::hash::spec_hash_map_iter(&self.peers).remaining());
                assert(*s[j].0 == *id);
                if snapshot_ids(before).contains(*id) {
                    let j2 = choose|j2: int| 0 <= j2 < j && *s[j2].0 == *id;
                    assert(s[j2] == s[j]);
                }
                assert(!snapshot_ids(before).contains(*id));
            }
            if *id != exclude {
                r.push((*id, tx));
                assert(snapshot_ids(r@) =~= snapshot_ids(before).push(*id));
            }
            assert forall|k: ConnectionId| #[trigger] snapshot_ids(r@).contains(k) <==> (k != exclude && exists|j1: int| 0 <= j1 < j + 1 && *it.seq()[j1].0 == k) by {
                if k == *id && k != exclude {
                    assert(snapshot_ids(r@)[snapshot_ids(r@).len() - 1] == k);
                }
                if k != *id {
                    if snapshot_ids(r@).contains(k) {
                        let i = choose|i: int| 0 <= i < snapshot_ids(r@).len() && snapshot_ids(r@)[i] == k;
                        assert(snapshot_ids(before)[i] == k);
                    }
                    if snapshot_ids(before).contains(k) {
                        let i = choose|i: int| 0 <= i < snapshot_ids(before).len() && snapshot_ids(before)[i] == k;
                        assert(snapshot_ids(r@)[i] == k);
                    }
                    assert((exists|j1: int| 0 <= j1 < j + 1 && *it.seq()[j1].0 == k) == (exists|j1: int| 0 <= j1 < j && *it.seq()[j1].0 == k));
                }
            }
        }
        r
    }
}

/// Deregistering an identity a second time leaves the registry as the
/// first deregistration left it.
pub proof fn lemma_deregister_idempotent(r: Registry, id: ConnectionId)
    ensures
        r@.remove(id).remove(id) == r@.remove(id),
{
    assert(r@.remove(id).remove(id) =~= r@.remove(id));
}

} // verus!
