//! The lifecycle of one connection: it is registered when it opens, relays
//! each text frame its peer sends, and is deregistered when its inbound
//! stream fails or ends.
use vstd::prelude::*;
use tokio::sync::mpsc::UnboundedReceiver;
use crate::channel::open_channel;
use crate::dispatch::{fans_out, hands_out, Delivery};
use crate::ids::ConnectionId;
use crate::relay::Relay;

verus! {

/// A frame read from a peer's connection.
#[derive(Debug, Clone)]
pub enum Frame {
    Text(String),
    Binary(Vec<u8>),
    Ping(Vec<u8>),
    Pong(Vec<u8>),
    Close,
}

/// What reading the next inbound frame produced.
#[derive(Debug, Clone)]
pub enum Inbound {
    /// A frame arrived.
    Frame(Frame),
    /// The stream reported an error.
    Failed,
    /// The stream ended.
    Ended,
}

/// Where a session stands in its lifecycle.
#[derive(Debug, Clone, Copy, PartialEq, Eq, Structural)]
pub enum SessionState {
    /// Its outbound channel is registered and its inbound frames are relayed.
    Registered,
    /// Its inbound stream has failed or ended; it waits to be deregistered.
    Closing,
    /// It has been deregistered.
    Closed,
}

/// What a session did with one inbound event, and so what its reader does
/// next.
#[derive(Debug)]
pub enum Step {
    /// A text frame was pushed to the other peers, with these outcomes; keep
    /// reading.
    Relayed(Vec<Delivery>),
    /// The frame carries no text and was dropped; keep reading.
    Ignored,
    /// Stop reading, and close the session.
    Stop,
}

/// One connection, from its registration to its deregistration.
pub struct Session {
    id: ConnectionId,
    state: SessionState,
}

impl Session {
    pub closed spec fn spec_id(&self) -> ConnectionId {
        self.id
    }

    pub closed spec fn spec_state(&self) -> SessionState {
        self.state
    }

    /// The identity of the connection.
    #[verifier::when_used_as_spec(spec_id)]
    pub fn id(&self) -> (r: ConnectionId)
        ensures
            r == self.spec_id(),
    {
        self.id
    }

    /// Where the session stands.
    #[verifier::when_used_as_spec(spec_state)]
    pub fn state(&self) -> (r: SessionState)
        ensures
            r == self.spec_state(),
    {
        self.state
    }

    /// Opens a session for a new connection: gives it a fresh identity,
    /// creates its outbound channel and registers the channel's sending
    /// half. The receiving half is for the connection's writer.
    pub fn open(relay: &mut Relay) -> (r: (Session, UnboundedReceiver<String>))
        requires
            old(relay).wf(),
            old(relay).next_id() < u64::MAX,
        ensures
            final(relay).wf(),
            r.0.id() == old(relay).next_id(),
            r.0.state() == SessionState::Registered,
            final(relay).next_id() == old(relay).next_id() + 1,
            !old(relay).peers().contains_key(r.0.id()),
            final(relay).peers().dom() == old(relay).peers().dom().insert(r.0.id()),
            final(relay).peers().remove(r.0.id()) == old(relay).peers(),
            final(relay).peers()[r.0.id()].handed() == Seq::<(Seq<char>, bool)>::empty(),
    {
        let (tx, rx) = open_channel();
        let id = relay.accept(tx);
        (Session { id, state: SessionState::Registered }, rx)
    }

    /// Handles one inbound event. While the session is registered, a text
    /// frame is handed to every other registered peer's channel, a frame
    /// without text is dropped, and a failed or ended stream moves the
    /// session to closing. In any other state the reader is told to stop.
    /// Only a relayed text frame changes the server.
    pub fn on_inbound(&mut self, relay: &mut Relay, event: Inbound) -> (step: Step)
        requires
            old(relay).wf(),
        ensures
            final(relay).wf(),
            final(relay).next_id() == old(relay).next_id(),
            final(self).id() == old(self).id(),
            !(step is Relayed) ==> final(relay).peers() == old(relay).peers(),
            old(self).state() != SessionState::Registered ==> {
                &&& step is Stop
                &&& final(self).state() == old(self).state()
            },
            old(self).state() == SessionState::Registered ==> match event {
                Inbound::Frame(Frame::Text(payload)) => {
                    &&& step is Relayed
                    &&& fans_out(old(relay).peers().dom(), old(self).id(), step->Relayed_0@)
                    &&& hands_out(old(relay).peers(), final(relay).peers(), payload@, step->Relayed_0@)
                    &&& final(self).state() == SessionState::Registered
                },
                Inbound::Frame(_) => {
                    &&& step is Ignored
                    &&& final(self).state() == SessionState::Registered
                },
                _ => {
                    &&& step is Stop
                    &&& final(self).state() == SessionState::Closing
                },
            },
    {
        if self.state != SessionState::Registered {
            return Step::Stop;
        }
        match event {
            Inbound::Frame(Frame::Text(payload)) => {
                let report = relay.broadcast(self.id, &payload);
                Step::Relayed(report)
            },
            Inbound::Frame(_) => Step::Ignored,
            _ => {
                self.state = SessionState::Closing;
                Step::Stop
            },
        }
    }

    /// Deregisters the connection and closes the session. Deregistering is
    /// idempotent, so closing twice is harmless.
    pub fn close(&mut self, relay: &mut Relay)
        requires
            old(relay).wf(),
        ensures
            final(relay).wf(),
            final(relay).next_id() == old(relay).next_id(),
            final(relay).peers() == old(relay).peers().remove(old(self).id()),
            final(self).id() == old(self).id(),
            final(self).state() == SessionState::Closed,
    {
        relay.remove(self.id);
        self.state = SessionState::Closed;
    }
}

} // verus!
