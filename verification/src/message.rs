//! Handles, payloads and the message envelope.

use vstd::prelude::*;

verus! {

/// A strong handle to an actor. Two handles are equal exactly when they
/// name the same actor. How many handles to an actor are held is recorded
/// in the ledger of the system: a handle is taken there and given back
/// there, and the actor exists as long as one is held.
#[derive(Clone, Copy, Debug, PartialEq, Eq, Structural)]
pub struct ActorRef {
    pub id: usize,
}

/// A non-owning reference to an actor. It does not keep the actor alive and
/// has to be upgraded to an `ActorRef` before it can be used.
#[derive(Clone, Copy, Debug, PartialEq, Eq, Structural)]
pub struct WeakRef {
    pub id: usize,
}

impl ActorRef {
    /// The non-owning reference to the same actor.
    pub fn downgrade(&self) -> (weak: WeakRef)
        ensures
            weak == (WeakRef { id: self.id }),
    {
        WeakRef { id: self.id }
    }

    /// Whether both handles name the same actor.
    pub fn same_actor(&self, other: &ActorRef) -> (same: bool)
        ensures
            same == (*self == *other),
    {
        self.id == other.id
    }
}

/// A value carried by a `Data` payload. Its concrete kind is only known at
/// run time; a behavior inspects it when it handles the message.
#[derive(Debug, PartialEq, Eq)]
pub enum Datum {
    Text(String),
    Number(u32),
    Flag(bool),
}

/// What a message carries.
#[derive(Debug, PartialEq, Eq)]
pub enum Payload {
    /// A run-time typed value.
    Data(Datum),
    /// A control signal.
    Command,
    /// An acknowledgement.
    Ack,
}

/// A payload together with the actor to reply to, if any.
#[derive(Debug, PartialEq, Eq)]
pub struct Message {
    pub payload: Payload,
    pub sender: Option<ActorRef>,
}

/// A message on its way to the mailbox of `target`.
#[derive(Debug, PartialEq, Eq)]
pub struct Envelope {
    pub target: ActorRef,
    pub message: Message,
}

impl Message {
    /// A message with a reply target.
    pub fn from_actor(payload: Payload, sender: ActorRef) -> (message: Message)
        ensures
            message == (Message { payload, sender: Some(sender) }),
    {
        Message { payload, sender: Some(sender) }
    }

    /// A fire-and-forget message.
    pub fn anonymous(payload: Payload) -> (message: Message)
        ensures
            message == (Message { payload, sender: None }),
    {
        Message { payload, sender: None }
    }
}

} // verus!
