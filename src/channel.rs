//! The outbound channel of a connection: an unbounded queue of text
//! messages, fed by any number of senders and drained by the connection's
//! writer.
use vstd::prelude::*;
use tokio::sync::mpsc::{UnboundedReceiver, UnboundedSender};

verus! {

#[verifier::external_type_specification]
#[verifier::external_body]
#[verifier::reject_recursive_types(T)]
pub struct ExUnboundedSender<T>(UnboundedSender<T>);

#[verifier::external_type_specification]
#[verifier::external_body]
#[verifier::reject_recursive_types(T)]
pub struct ExUnboundedReceiver<T>(UnboundedReceiver<T>);

/// Relies on tokio::sync::mpsc::unbounded_channel: a fresh channel, as its
/// sending and its receiving half.
#[verifier::external_body]
pub(crate) fn open_channel() -> (UnboundedSender<String>, UnboundedReceiver<String>) {
    tokio::sync::mpsc::unbounded_channel()
}

/// Relies on tokio::sync::mpsc::UnboundedSender::send: it never waits, and
/// when the receiving half is gone it fails and gives the message back.
#[verifier::external_body]
pub(crate) fn push(tx: &UnboundedSender<String>, msg: String) -> (r: Result<(), String>)
    ensures
        r matches Err(back) ==> back@ == msg@,
{
    tx.send(msg).map_err(|e| e.0)
}


/// The sending half of one connection's outbound channel, with a record of
/// every message handed to it and whether the channel took it.
pub struct Outbox {
    tx: UnboundedSender<String>,
    log: Ghost<Seq<(Seq<char>, bool)>>,
}

impl Outbox {
    /// The sending half that messages are handed to.
    pub closed spec fn sender(&self) -> UnboundedSender<String> {
        self.tx
    }

    /// Each message handed to the channel so far, in order, with whether
    /// the channel took it.
    pub closed spec fn handed(&self) -> Seq<(Seq<char>, bool)> {
        self.log@
    }

    /// An outbox for `tx` that has been handed nothing.
    pub fn new(tx: UnboundedSender<String>) -> (o: Self)
        ensures
            o.sender() == tx,
            o.handed() == Seq::<(Seq<char>, bool)>::empty(),
    {
        Outbox { tx, log: Ghost(Seq::empty()) }
    }

    /// Hands `msg` to the channel. It fails, and gives the message back,
    /// once the receiving half is gone.
    pub fn hand(&mut self, msg: String) -> (r: Result<(), String>)
        ensures
            final(self).sender() == old(self).sender(),
            final(self).handed() == old(self).handed().push((msg@, r is Ok)),
            r matches Err(back) ==> back@ == msg@,
    {
        let ghost text = msg@;
        let r = push(&self.tx, msg);
        self.log = Ghost(self.log@.push((text, r is Ok)));
        r
    }
}

} // verus!
