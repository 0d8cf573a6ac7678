use signal_relay::dispatch::{broadcast, Delivery};
use signal_relay::ids::IdAllocator;
use signal_relay::registry::Registry;
use signal_relay::relay::Relay;
use signal_relay::session::{Frame, Inbound, Session, SessionState, Step};
use tokio::sync::mpsc::error::TryRecvError;
use tokio::sync::mpsc::{unbounded_channel, UnboundedReceiver};

fn connect(relay: &mut Relay) -> (Session, UnboundedReceiver<String>) {
    Session::open(relay)
}

fn text(s: &str) -> Inbound {
    Inbound::Frame(Frame::Text(s.to_string()))
}

fn peers_of(step: &Step) -> Vec<u64> {
    match step {
        Step::Relayed(report) => {
            let mut ids: Vec<u64> = report.iter().map(|d| d.peer).collect();
            ids.sort();
            ids
        }
        other => panic!("expected a relayed step, got {:?}", other),
    }
}

#[test]
fn allocator_counts_up_from_one() {
    let mut ids = IdAllocator::new();
    assert!(!ids.is_exhausted());
    assert_eq!(ids.next_id(), 1);
    assert_eq!(ids.next_id(), 2);
    assert_eq!(ids.next_id(), 3);
}

#[test]
fn identities_are_distinct_across_connects_and_disconnects() {
    let mut relay = Relay::new();
    let mut seen = Vec::new();
    for _ in 0..5 {
        let (mut s, _rx) = connect(&mut relay);
        seen.push(s.id());
        s.close(&mut relay);
    }
    assert_eq!(seen, vec![1, 2, 3, 4, 5]);
    assert_eq!(relay.registry().len(), 0);
}

#[test]
fn offer_reaches_the_other_peer_only() {
    let mut relay = Relay::new();
    let (mut a, mut a_rx) = connect(&mut relay);
    let (_b, mut b_rx) = connect(&mut relay);
    let offer = r#"{"type":"offer","sdp":"..."}"#;
    let step = a.on_inbound(&mut relay, text(offer));
    assert_eq!(peers_of(&step), vec![2]);
    assert_eq!(b_rx.try_recv(), Ok(offer.to_string()));
    assert_eq!(b_rx.try_recv(), Err(TryRecvError::Empty));
    assert_eq!(a_rx.try_recv(), Err(TryRecvError::Empty));
    assert_eq!(a.state(), SessionState::Registered);
}

#[test]
fn disconnected_peer_misses_the_ping() {
    let mut relay = Relay::new();
    let (mut a, mut a_rx) = connect(&mut relay);
    let (mut b, mut b_rx) = connect(&mut relay);
    let (c, mut c_rx) = connect(&mut relay);
    assert!(matches!(b.on_inbound(&mut relay, Inbound::Ended), Step::Stop));
    b.close(&mut relay);
    let step = a.on_inbound(&mut relay, text("ping"));
    assert_eq!(peers_of(&step), vec![c.id()]);
    assert_eq!(c_rx.try_recv(), Ok("ping".to_string()));
    assert_eq!(b_rx.try_recv(), Err(TryRecvError::Disconnected));
    assert_eq!(a_rx.try_recv(), Err(TryRecvError::Empty));
    let others: Vec<u64> = relay.registry().snapshot_others(a.id()).iter().map(|p| p.0).collect();
    assert_eq!(others, vec![c.id()]);
}

#[test]
fn binary_frame_is_not_relayed() {
    let mut relay = Relay::new();
    let (mut a, mut a_rx) = connect(&mut relay);
    let (_b, mut b_rx) = connect(&mut relay);
    let step = a.on_inbound(&mut relay, Inbound::Frame(Frame::Binary(vec![1, 2, 3])));
    assert!(matches!(step, Step::Ignored));
    assert_eq!(b_rx.try_recv(), Err(TryRecvError::Empty));
    assert_eq!(a_rx.try_recv(), Err(TryRecvError::Empty));
    assert_eq!(a.state(), SessionState::Registered);
}

#[test]
fn control_frames_are_not_relayed() {
    let mut relay = Relay::new();
    let (mut a, _a_rx) = connect(&mut relay);
    let (_b, mut b_rx) = connect(&mut relay);
    assert!(matches!(a.on_inbound(&mut relay, Inbound::Frame(Frame::Ping(vec![9]))), Step::Ignored));
    assert!(matches!(a.on_inbound(&mut relay, Inbound::Frame(Frame::Pong(vec![]))), Step::Ignored));
    assert!(matches!(a.on_inbound(&mut relay, Inbound::Frame(Frame::Close)), Step::Ignored));
    assert_eq!(b_rx.try_recv(), Err(TryRecvError::Empty));
}

#[test]
fn sender_never_receives_its_own_message() {
    let mut relay = Relay::new();
    let (mut a, mut a_rx) = connect(&mut relay);
    let (_b, _b_rx) = connect(&mut relay);
    let (_c, _c_rx) = connect(&mut relay);
    let step = a.on_inbound(&mut relay, text("hello"));
    assert!(!peers_of(&step).contains(&a.id()));
    assert_eq!(a_rx.try_recv(), Err(TryRecvError::Empty));
}

#[test]
fn each_peer_gets_one_copy_in_send_order() {
    let mut relay = Relay::new();
    let (mut a, _a_rx) = connect(&mut relay);
    let (_b, mut b_rx) = connect(&mut relay);
    let (_c, mut c_rx) = connect(&mut relay);
    a.on_inbound(&mut relay, text("first"));
    a.on_inbound(&mut relay, text("second"));
    for rx in [&mut b_rx, &mut c_rx] {
        assert_eq!(rx.try_recv(), Ok("first".to_string()));
        assert_eq!(rx.try_recv(), Ok("second".to_string()));
        assert_eq!(rx.try_recv(), Err(TryRecvError::Empty));
    }
}

#[test]
fn failed_push_does_not_stop_the_others() {
    let mut registry = Registry::new();
    let (a_tx, _a_rx) = unbounded_channel();
    let (b_tx, b_rx) = unbounded_channel();
    let (c_tx, mut c_rx) = unbounded_channel();
    registry.register(1, a_tx);
    registry.register(2, b_tx);
    registry.register(3, c_tx);
    drop(b_rx);
    let mut report = broadcast(&mut registry, 1, &"candidate".to_string());
    report.sort_by_key(|d| d.peer);
    assert_eq!(
        report,
        vec![Delivery { peer: 2, accepted: false }, Delivery { peer: 3, accepted: true }]
    );
    assert_eq!(c_rx.try_recv(), Ok("candidate".to_string()));
}

#[test]
fn broadcast_with_no_other_peer_pushes_nothing() {
    let mut registry = Registry::new();
    assert!(broadcast(&mut registry, 7, &"x".to_string()).is_empty());
    let (tx, mut rx) = unbounded_channel();
    registry.register(7, tx);
    assert!(broadcast(&mut registry, 7, &"x".to_string()).is_empty());
    assert_eq!(rx.try_recv(), Err(TryRecvError::Empty));
}

#[test]
fn deregister_twice_equals_once() {
    let mut registry = Registry::new();
    let (a_tx, _a_rx) = unbounded_channel();
    let (b_tx, _b_rx) = unbounded_channel();
    registry.register(1, a_tx);
    registry.register(2, b_tx);
    registry.deregister(1);
    assert!(!registry.contains(1));
    assert!(registry.contains(2));
    assert_eq!(registry.len(), 1);
    registry.deregister(1);
    assert!(!registry.contains(1));
    assert!(registry.contains(2));
    assert_eq!(registry.len(), 1);
}

#[test]
fn register_overwrites_an_existing_entry() {
    let mut registry = Registry::new();
    let (old_tx, mut old_rx) = unbounded_channel();
    let (new_tx, mut new_rx) = unbounded_channel();
    let (s_tx, _s_rx) = unbounded_channel();
    registry.register(4, old_tx);
    registry.register(4, new_tx);
    registry.register(5, s_tx);
    assert_eq!(registry.len(), 2);
    broadcast(&mut registry, 5, &"m".to_string());
    assert_eq!(new_rx.try_recv(), Ok("m".to_string()));
    assert_eq!(old_rx.try_recv(), Err(TryRecvError::Disconnected));
}

#[test]
fn snapshot_excludes_only_the_given_identity() {
    let mut registry = Registry::new();
    for id in [3u64, 1, 2] {
        let (tx, _rx) = unbounded_channel();
        registry.register(id, tx);
    }
    let mut ids: Vec<u64> = registry.snapshot_others(2).iter().map(|p| p.0).collect();
    ids.sort();
    assert_eq!(ids, vec![1, 3]);
    let mut all: Vec<u64> = registry.snapshot_others(99).iter().map(|p| p.0).collect();
    all.sort();
    assert_eq!(all, vec![1, 2, 3]);
}

#[test]
fn stream_error_closes_the_session() {
    let mut relay = Relay::new();
    let (mut a, _a_rx) = connect(&mut relay);
    let (_b, mut b_rx) = connect(&mut relay);
    assert!(relay.registry().contains(a.id()));
    assert!(matches!(a.on_inbound(&mut relay, Inbound::Failed), Step::Stop));
    assert_eq!(a.state(), SessionState::Closing);
    assert!(matches!(a.on_inbound(&mut relay, text("late")), Step::Stop));
    assert_eq!(b_rx.try_recv(), Err(TryRecvError::Empty));
    a.close(&mut relay);
    assert_eq!(a.state(), SessionState::Closed);
    assert!(!relay.registry().contains(a.id()));
    a.close(&mut relay);
    assert_eq!(relay.registry().len(), 1);
}

#[test]
fn open_registers_a_fresh_identity_with_a_working_channel() {
    let mut relay = Relay::new();
    assert!(!relay.is_full());
    let (a, mut a_rx) = connect(&mut relay);
    let (mut b, _b_rx) = connect(&mut relay);
    assert_eq!(a.id(), 1);
    assert_eq!(b.id(), 2);
    assert_eq!(a.state(), SessionState::Registered);
    assert_eq!(relay.registry().len(), 2);
    b.on_inbound(&mut relay, text("answer"));
    assert_eq!(a_rx.try_recv(), Ok("answer".to_string()));
}
