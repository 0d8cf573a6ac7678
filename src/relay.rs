//! The state a signaling server shares between its connections.
use vstd::prelude::*;
use tokio::sync::mpsc::UnboundedSender;
use crate::ids::{ConnectionId, IdAllocator};
use crate::channel::Outbox;
use crate::dispatch::{broadcast, fans_out, hands_out, Delivery};
use crate::registry::Registry;

verus! {

/// The identity allocator and the registry of one server. Every registered
/// identity has already been handed out, so a new connection never takes
/// the place of a live one.
pub struct Relay {
    ids: IdAllocator,
    registry: Registry,
}

impl Relay {
    /// The identity that the next connection gets.
    pub closed spec fn next_id(&self) -> nat {
        self.ids@
    }

    /// The live connections and the outboxes of their outbound channels.
    pub closed spec fn peers(&self) -> Map<ConnectionId, Outbox> {
        self.registry@
    }

    /// Every registered identity lies below the next one to hand out.
    pub open spec fn wf(&self) -> bool {
        &&& self.next_id() >= 1
        &&& forall|k: ConnectionId| #[trigger] self.peers().contains_key(k) ==> 1 <= k < self.next_id()
    }

    /// A server with no connection, whose first identity is 1.
    pub fn new() -> (r: Self)
        ensures
            r.wf(),
            r.next_id() == 1,
            r.peers() == Map::<ConnectionId, Outbox>::empty(),
    {
        Relay { ids: IdAllocator::new(), registry: Registry::new() }
    }

    /// The registry of live connections.
    pub fn registry(&self) -> (r: &Registry)
        ensures
            r@ == self.peers(),
    {
        &self.registry
    }

    /// Whether every identity has been handed out, so that no connection
    /// can be accepted.
    pub fn is_full(&self) -> (r: bool)
        ensures
            r == (self.next_id() >= u64::MAX),
    {
        self.ids.is_exhausted()
    }

    /// Gives a new connection a fresh identity and registers `tx` as its
    /// outbound channel.
    pub fn accept(&mut self, tx: UnboundedSender<String>) -> (id: ConnectionId)
        requires
            old(self).wf(),
            old(self).next_id() < u64::MAX,
        ensures
            final(self).wf(),
            id == old(self).next_id(),
            final(self).next_id() == old(self).next_id() + 1,
            !old(self).peers().contains_key(id),
            final(self).peers().dom() == old(self).peers().dom().insert(id),
            final(self).peers().remove(id) == old(self).peers(),
            final(self).peers()[id].sender() == tx,
            final(self).peers()[id].handed() == Seq::<(Seq<char>, bool)>::empty(),
    {
        let id = self.ids.next_id();
        self.registry.register(id, tx);
        assert(old(self).peers().remove(id) =~= old(self).peers());
        assert forall|k: ConnectionId| #[trigger] self.peers().contains_key(k) implies 1 <= k < self.next_id() by {
            if k != id {
                assert(old(self).peers().contains_key(k));
            }
        }
        id
    }

    /// Hands `payload` to the outbound channel of every live connection
    /// but `sender`, once each.
    pub fn broadcast(&mut self, sender: ConnectionId, payload: &String) -> (report: Vec<Delivery>)
        requires
            old(self).wf(),
        ensures
            final(self).wf(),
            final(self).next_id() == old(self).next_id(),
            fans_out(old(self).peers().dom(), sender, report@),
            hands_out(old(self).peers(), final(self).peers(), payload@, report@),
    {
        let report = broadcast(&mut self.registry, sender, payload);
        assert forall|k: ConnectionId| #[trigger] self.peers().contains_key(k) implies 1 <= k < self.next_id() by {
            assert(old(self).peers().contains_key(k));
        }
        report
    }

    /// Deregisters `id`, if it is registered.
    pub fn remove(&mut self, id: ConnectionId)
        requires
            old(self).wf(),
        ensures
            final(self).wf(),
            final(self).next_id() == old(self).next_id(),
            final(self).peers() == old(self).peers().remove(id),
    {
        self.registry.deregister(id);
        assert forall|k: ConnectionId| #[trigger] self.peers().contains_key(k) implies 1 <= k < self.next_id() by {
            assert(old(self).peers().contains_key(k));
        }
    }
}

/// One operation on a server, going from `before` to `after`: when
/// `accepted` holds an identity, a connection was accepted and given it;
/// otherwise some other operation ran, which hands out no identity.
pub open spec fn server_step(before: Relay, accepted: Option<ConnectionId>, after: Relay) -> bool {
    match accepted {
        Some(id) => id == before.next_id() && after.next_id() == before.next_id() + 1,
        None => after.next_id() == before.next_id(),
    }
}

/// Over a run of server operations the next identity never goes down.
proof fn lemma_next_id_grows(states: Seq<Relay>, accepted: Seq<Option<ConnectionId>>, i: int, j: int)
    requires
        states.len() == accepted.len() + 1,
        forall|k: int| 0 <= k < accepted.len() ==> #[trigger] server_step(states[k], accepted[k], states[k + 1]),
        0 <= i <= j < states.len(),
    ensures
        states[i].next_id() <= states[j].next_id(),
    decreases j - i,
{
    if i < j {
        lemma_next_id_grows(states, accepted, i + 1, j);
        assert(server_step(states[i], accepted[i], states[i + 1]));
    }
}

/// Uniqueness: whatever connects, disconnects and broadcasts in between,
/// the connections a server accepts get pairwise distinct identities.
pub proof fn lemma_accepted_ids_distinct(states: Seq<Relay>, accepted: Seq<Option<ConnectionId>>)
    requires
        states.len() == accepted.len() + 1,
        forall|k: int| 0 <= k < accepted.len() ==> #[trigger] server_step(states[k], accepted[k], states[k + 1]),
    ensures
        forall|i: int, j: int|
            0 <= i < j < accepted.len() && accepted[i] is Some && accepted[j] is Some ==> accepted[i] != accepted[j],
{
    assert forall|i: int, j: int|
        0 <= i < j < accepted.len() && accepted[i] is Some && accepted[j] is Some implies accepted[i] != accepted[j] by {
        assert(server_step(states[i], accepted[i], states[i + 1]));
        assert(server_step(states[j], accepted[j], states[j + 1]));
        lemma_next_id_grows(states, accepted, i + 1, j);
    }
}

} // verus!
