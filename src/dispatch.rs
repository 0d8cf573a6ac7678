//! Fan-out of one peer's message to every other registered peer.
use vstd::prelude::*;
use crate::channel::Outbox;
use crate::ids::ConnectionId;
use crate::registry::{snapshot_ids, Registry};

verus! {

/// The outcome of handing a message to one peer's outbound channel.
#[derive(Debug, Clone, Copy, PartialEq, Eq, Structural)]
pub struct Delivery {
    /// The peer whose channel the message was handed to.
    pub peer: ConnectionId,
    /// Whether the channel took the message; it refuses it once the peer's
    /// writer has gone.
    pub accepted: bool,
}

/// The peers of a broadcast report, in its order.
pub open spec fn report_peers(report: Seq<Delivery>) -> Seq<ConnectionId> {
    report.map_values(|d: Delivery| d.peer)
}

/// The report of a broadcast from `sender` over the registered identities
/// `peers` names each peer other than the sender once, and no other.
pub open spec fn fans_out(peers: Set<ConnectionId>, sender: ConnectionId, report: Seq<Delivery>) -> bool {
    &&& report_peers(report).no_duplicates()
    &&& report_peers(report).to_set() == peers.remove(sender)
}

/// Going from the outboxes `before` to `after`, `payload` was handed once to
/// the channel of each peer in `report`, with the outcome the report gives,
/// and every other outbox was left as it was.
pub open spec fn hands_out(
    before: Map<ConnectionId, Outbox>,
    after: Map<ConnectionId, Outbox>,
    payload: Seq<char>,
    report: Seq<Delivery>,
) -> bool {
    &&& after.dom() == before.dom()
    &&& forall|i: int|
        0 <= i < report.len() ==> {
            &&& after[#[trigger] report[i].peer].sender() == before[report[i].peer].sender()
            &&& after[report[i].peer].handed() == before[report[i].peer].handed().push(
                (payload, report[i].accepted),
            )
        }
    &&& forall|u: ConnectionId|
        #[trigger] after.contains_key(u) && !report_peers(report).contains(u) ==> after[u] == before[u]
}

/// Hands `payload` to the outbound channel of every peer in `registry` but
/// `sender`, once each. A channel that refuses it does not stop the others.
pub fn broadcast(registry: &mut Registry, sender: ConnectionId, payload: &String) -> (report: Vec<Delivery>)
    ensures
        fans_out(old(registry)@.dom(), sender, report@),
        hands_out(old(registry)@, final(registry)@, payload@, report@),
{
    let mut targets: Vec<ConnectionId> = Vec::new();
    {
        let snapshot = registry.snapshot_others(sender);
        for k in 0..snapshot.len()
            invariant
                targets@ == snapshot_ids(snapshot@).take(k as int),
        {
            targets.push(snapshot[k].0);
            assert(targets@ =~= snapshot_ids(snapshot@).take(k + 1));
        }
        assert(targets@ =~= snapshot_ids(snapshot@));
    }
    let ghost start = registry@;
    let mut report: Vec<Delivery> = Vec::new();
    for k in 0..targets.len()
        invariant
            targets@.no_duplicates(),
            targets@.to_set() == start.dom().remove(sender),
            registry@.dom() == start.dom(),
            report@.len() == k,
            forall|i: int| 0 <= i < k ==> #[trigger] report@[i].peer == targets@[i],
            forall|i: int|
                0 <= i < k ==> {
                    &&& registry@[#[trigger] targets@[i]].sender() == start[targets@[i]].sender()
                    &&& registry@[targets@[i]].handed() == start[targets@[i]].handed().push(
                        (payload@, report@[i].accepted),
                    )
                },
            forall|u: ConnectionId|
                #[trigger] registry@.contains_key(u) && !targets@.take(k as int).contains(u) ==> registry@[u] == start[u],
    {
        let peer = targets[k];
        assert(targets@.to_set().contains(peer));
        assert(!targets@.take(k as int).contains(peer));
        let ghost mid = registry@;
        let accepted = registry.push_to(peer, payload.clone()).is_ok();
        report.push(Delivery { peer, accepted });
        assert forall|i: int| 0 <= i < k implies #[trigger] targets@[i] != peer by {}
        assert forall|u: ConnectionId|
            #[trigger] registry@.contains_key(u) && !targets@.take(k + 1).contains(u) implies registry@[u] == start[u] by {
            assert(targets@.take(k + 1)[k as int] == peer);
            assert(u != peer);
            if targets@.take(k as int).contains(u) {
                let j = choose|j: int| 0 <= j < k && targets@.take(k as int)[j] == u;
                assert(targets@.take(k + 1)[j] == u);
            }
        }
    }
    proof {
        assert(report_peers(report@) =~= targets@);
        assert(targets@.take(targets@.len() as int) =~= targets@);
    }
    report
}

/// No self-delivery: a broadcast hands nothing to the sender's own channel.
pub proof fn lemma_no_self_delivery(
    before: Map<ConnectionId, Outbox>,
    after: Map<ConnectionId, Outbox>,
    sender: ConnectionId,
    payload: Seq<char>,
    report: Seq<Delivery>,
)
    requires
        fans_out(before.dom(), sender, report),
        hands_out(before, after, payload, report),
        before.contains_key(sender),
    ensures
        after[sender] == before[sender],
{
    assert(!report_peers(report).to_set().contains(sender));
}

/// Fan-out completeness: the channel of every registered peer other than
/// the sender is handed the payload exactly once.
pub proof fn lemma_exactly_once(
    before: Map<ConnectionId, Outbox>,
    after: Map<ConnectionId, Outbox>,
    sender: ConnectionId,
    payload: Seq<char>,
    report: Seq<Delivery>,
    peer: ConnectionId,
)
    requires
        fans_out(before.dom(), sender, report),
        hands_out(before, after, payload, report),
        before.contains_key(peer),
        peer != sender,
    ensures
        exists|accepted: bool| after[peer].handed() == before[peer].handed().push((payload, accepted)),
{
    let ids = report_peers(report);
    assert(ids.to_set().contains(peer));
    let i = choose|i: int| 0 <= i < ids.len() && ids[i] == peer;
    assert(report[i].peer == peer);
    assert(after[peer].handed() == before[peer].handed().push((payload, report[i].accepted)));
}

/// Disconnect isolation: when one peer's channel refuses the payload, the
/// channel of every other peer but the sender is still handed it.
pub proof fn lemma_failure_isolated(
    before: Map<ConnectionId, Outbox>,
    after: Map<ConnectionId, Outbox>,
    sender: ConnectionId,
    payload: Seq<char>,
    report: Seq<Delivery>,
    failed: int,
    other: ConnectionId,
)
    requires
        fans_out(before.dom(), sender, report),
        hands_out(before, after, payload, report),
        0 <= failed < report.len(),
        !report[failed].accepted,
        before.contains_key(other),
        other != sender,
        other != report[failed].peer,
    ensures
        exists|accepted: bool| after[other].handed() == before[other].handed().push((payload, accepted)),
{
    lemma_exactly_once(before, after, sender, payload, report, other);
}

/// Per-sender order: two successive broadcasts from one sender hand each
/// other peer's channel the first payload and then the second, and nothing
/// else.
pub proof fn lemma_in_send_order(
    m0: Map<ConnectionId, Outbox>,
    m1: Map<ConnectionId, Outbox>,
    m2: Map<ConnectionId, Outbox>,
    sender: ConnectionId,
    first: Seq<char>,
    second: Seq<char>,
    r1: Seq<Delivery>,
    r2: Seq<Delivery>,
    peer: ConnectionId,
)
    requires
        fans_out(m0.dom(), sender, r1),
        hands_out(m0, m1, first, r1),
        fans_out(m1.dom(), sender, r2),
        hands_out(m1, m2, second, r2),
        m0.contains_key(peer),
        peer != sender,
    ensures
        exists|a: bool, b: bool| m2[peer].handed() == m0[peer].handed().push((first, a)).push((second, b)),
{
    lemma_exactly_once(m0, m1, sender, first, r1, peer);
    lemma_exactly_once(m1, m2, sender, second, r2, peer);
    let a = choose|a: bool| m1[peer].handed() == m0[peer].handed().push((first, a));
    let b = choose|b: bool| m2[peer].handed() == m1[peer].handed().push((second, b));
    assert(m2[peer].handed() == m0[peer].handed().push((first, a)).push((second, b)));
}

} // verus!
