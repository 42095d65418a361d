//! The contract that every actor meets, and what one dispatch step yields.

use vstd::prelude::*;

use crate::message::{ActorRef, Envelope, Message, Payload, WeakRef};
use crate::system::ActorSystem;

verus! {

/// Something an actor did while it handled a message, in the order in which
/// it did it. A driver turns these into log lines.
#[derive(Debug, PartialEq, Eq)]
pub enum Event {
    /// The actor took a message from its mailbox.
    Treating,
    /// A text value was received.
    ReceivedText(String),
    /// A number was received.
    ReceivedNumber(u32),
    /// One step of counting up to a received number.
    Counted(u32),
    /// A value of an unexpected kind was dropped.
    Dropped,
    /// A control signal was received.
    ReceivedCommand,
    /// An acknowledgement was received.
    ReceivedAck,
}

/// The outcome of one dispatch step: what the actor did, the messages it
/// sends, each with its target, in sending order, and the handle to the
/// sender that the handled message held. That handle is spent: whoever
/// runs the step gives it back once the messages have been sent.
#[derive(Debug, PartialEq, Eq)]
pub struct Dispatch {
    pub events: Vec<Event>,
    pub outgoing: Vec<Envelope>,
    pub spent: Option<ActorRef>,
}

/// The envelope that the actor `me` makes to send `payload` to `target`:
/// the sender of the message is always the sending actor itself. The
/// strong handle that the message holds to its sender is taken when the
/// envelope is delivered.
pub open spec fn envelope_from(me: ActorRef, target: ActorRef, payload: Payload) -> Envelope {
    Envelope { target, message: Message { payload, sender: Some(me) } }
}

/// The reply rule for a data message: an actor that understood the value
/// acknowledges it to the sender, if there is one. Nothing is sent for a
/// value that was not understood, nor without a sender.
pub open spec fn acknowledgement(me: ActorRef, message: Message, understood: bool) -> Seq<
    Envelope,
> {
    if understood && message.sender is Some {
        seq![envelope_from(me, message.sender->0, Payload::Ack)]
    } else {
        Seq::empty()
    }
}

pub trait Actor: Sized {
    /// The name given at construction.
    spec fn name(&self) -> Seq<char>;

    /// The messages waiting in the mailbox, oldest first.
    spec fn inbox(&self) -> Seq<Message>;

    /// The handles to other actors that this actor was given.
    spec fn known(&self) -> Seq<ActorRef>;

    /// The non-owning reference of the actor to itself, once it is bound.
    spec fn self_ref(&self) -> Option<WeakRef>;

    /// What the actor does when it handles `message`.
    spec fn events_for(&self, message: Message) -> Seq<Event>;

    /// What the actor, known to others as `me`, sends when it handles
    /// `message`.
    spec fn outgoing_for(&self, me: ActorRef, message: Message) -> Seq<Envelope>;

    /// Second step of construction: binds the self-reference to the handle
    /// under which the actor was allocated.
    fn init(&mut self, me: &ActorRef)
        ensures
            final(self).self_ref() == Some(WeakRef { id: me.id }),
            final(self).name() == old(self).name(),
            final(self).inbox() == old(self).inbox(),
            final(self).known() == old(self).known(),
            forall|message: Message| #[trigger]
                final(self).events_for(message) == old(self).events_for(message),
            forall|me: ActorRef, message: Message| #[trigger]
                final(self).outgoing_for(me, message) == old(self).outgoing_for(me, message),
    ;

    /// The self-reference as it is stored.
    fn myself(&self) -> (weak: Option<WeakRef>)
        ensures
            weak == self.self_ref(),
    ;

    /// The name given at construction.
    fn label(&self) -> (label: &str)
        ensures
            label@ == self.name(),
    ;

    /// The handles to other actors that this actor was given.
    fn known_actors(&self) -> (known: &Vec<ActorRef>)
        ensures
            known@ == self.known(),
    ;

    /// Whether the actor holds a handle to the actor that `handle` names:
    /// in the list of actors it knows, or as the sender of a message that
    /// waits in its mailbox.
    fn holds(&self, handle: &ActorRef) -> (held: bool)
        ensures
            held == (self.known().contains(*handle) || exists|k: int|
                0 <= k < self.inbox().len() && (#[trigger] self.inbox()[k]).sender == Some(*handle)),
    ;

    /// The handles that the actor holds: those to the actors it knows,
    /// then those that the waiting messages hold to their senders. Whoever
    /// takes an actor off the stage gives these back.
    fn handles(&self) -> (held: Vec<ActorRef>)
        ensures
            held@ == self.known() + crate::mailbox::senders(self.inbox()),
    ;

    /// The number of messages waiting in the mailbox.
    fn pending(&self) -> (count: usize)
        ensures
            count == self.inbox().len(),
    ;

    /// Enqueues `message` at the tail of the mailbox. Always succeeds.
    fn receive(&mut self, message: Message)
        ensures
            final(self).inbox() == old(self).inbox().push(message),
            final(self).name() == old(self).name(),
            final(self).known() == old(self).known(),
            final(self).self_ref() == old(self).self_ref(),
            forall|message: Message| #[trigger]
                final(self).events_for(message) == old(self).events_for(message),
            forall|me: ActorRef, message: Message| #[trigger]
                final(self).outgoing_for(me, message) == old(self).outgoing_for(me, message),
    ;

    /// One dispatch step: takes the oldest message from the mailbox and
    /// handles it. The mailbox must hold a message, and the actor must be
    /// bound and exist. Every message sent carries the actor as its sender.
    fn handle_message(&mut self, actor_system: &ActorSystem) -> (dispatch: Dispatch)
        requires
            old(self).inbox().len() > 0,
            old(self).self_ref() is Some,
            actor_system.alive(old(self).self_ref()->0.id),
        ensures
            final(self).inbox() == old(self).inbox().drop_first(),
            final(self).name() == old(self).name(),
            final(self).known() == old(self).known(),
            final(self).self_ref() == old(self).self_ref(),
            forall|message: Message| #[trigger]
                final(self).events_for(message) == old(self).events_for(message),
            forall|me: ActorRef, message: Message| #[trigger]
                final(self).outgoing_for(me, message) == old(self).outgoing_for(me, message),
            dispatch.spent == old(self).inbox()[0].sender,
            dispatch.events@ == old(self).events_for(old(self).inbox()[0]),
            dispatch.outgoing@ == old(self).outgoing_for(
                ActorRef { id: old(self).self_ref()->0.id },
                old(self).inbox()[0],
            ),
            forall|i: int|
                0 <= i < dispatch.outgoing@.len() ==> (#[trigger] dispatch.outgoing@[i]).message.sender
                    == Some(ActorRef { id: old(self).self_ref()->0.id }),
    ;

    /// Resolves the self-reference. While the actor is bound and exists
    /// this takes one more strong handle to it, which the caller gives back
    /// with `release`; otherwise it yields `None` and changes nothing.
    fn resolve(&self, actor_system: &mut ActorSystem) -> (handle: Option<ActorRef>)
        ensures
            handle == match self.self_ref() {
                Some(weak) => old(actor_system).resolved(weak),
                None => None,
            },
            final(actor_system)@ == match self.self_ref() {
                Some(weak) => crate::system::retained(old(actor_system)@, weak.id),
                None => old(actor_system)@,
            },
    {
        match self.myself() {
            Some(weak) => actor_system.upgrade(&weak),
            None => None,
        }
    }

    /// The strong handle of the actor to itself: one more handle is taken,
    /// which the caller gives back with `release`. The actor must be bound
    /// and exist, and its count must be able to grow.
    fn actor_ref(&self, actor_system: &mut ActorSystem) -> (handle: ActorRef)
        requires
            self.self_ref() is Some,
            0 < old(actor_system).strong_of(self.self_ref()->0.id) < usize::MAX,
        ensures
            handle == (ActorRef { id: self.self_ref()->0.id }),
            final(actor_system)@ == crate::system::retained(
                old(actor_system)@,
                self.self_ref()->0.id,
            ),
    {
        match self.resolve(actor_system) {
            Some(handle) => handle,
            None => vstd::pervasive::unreached(),
        }
    }

    /// Makes the envelope that sends `payload` to `target`, with this actor
    /// as the sender. The actor must be bound and exist.
    fn send_message(&self, actor_system: &ActorSystem, target: ActorRef, payload: Payload) -> (envelope:
        Envelope)
        requires
            self.self_ref() is Some,
            actor_system.alive(self.self_ref()->0.id),
        ensures
            envelope == envelope_from(ActorRef { id: self.self_ref()->0.id }, target, payload),
    {
        let me = match self.myself() {
            Some(weak) => ActorRef { id: weak.id },
            None => vstd::pervasive::unreached(),
        };
        Envelope { target, message: Message { payload, sender: Some(me) } }
    }

    /// Sends `payload` to the known actor number `index`.
    fn send_to_known(&self, actor_system: &ActorSystem, index: usize, payload: Payload) -> (envelope:
        Envelope)
        requires
            self.self_ref() is Some,
            actor_system.alive(self.self_ref()->0.id),
            index < self.known().len(),
        ensures
            envelope == envelope_from(
                ActorRef { id: self.self_ref()->0.id },
                self.known()[index as int],
                payload,
            ),
    {
        let target = self.known_actors()[index];
        self.send_message(actor_system, target, payload)
    }

    /// Sends `payload` to the first known actor.
    fn send_to_first(&self, actor_system: &ActorSystem, payload: Payload) -> (envelope: Envelope)
        requires
            self.self_ref() is Some,
            actor_system.alive(self.self_ref()->0.id),
            self.known().len() > 0,
        ensures
            envelope == envelope_from(
                ActorRef { id: self.self_ref()->0.id },
                self.known()[0],
                payload,
            ),
    {
        self.send_to_known(actor_system, 0, payload)
    }
}

/// Whether two states of an actor react to every message alike.
pub open spec fn same_behavior<A: Actor>(after: &A, before: &A) -> bool {
    &&& forall|message: Message| #[trigger]
        after.events_for(message) == before.events_for(message)
    &&& forall|me: ActorRef, message: Message| #[trigger]
        after.outgoing_for(me, message) == before.outgoing_for(me, message)
}

} // verus!
