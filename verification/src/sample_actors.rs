//! Two simple behaviors: one that understands text, one that understands
//! numbers.

use vstd::prelude::*;

use crate::actor::{acknowledgement, Actor, Dispatch, Event};
use crate::mailbox::Mailbox;
use crate::message::{ActorRef, Datum, Envelope, Message, Payload, WeakRef};
use crate::stage::Stage;
use crate::system::{retained_all, ActorSystem};

verus! {

/// What a `Printer` does with `message`: a text value is received, any
/// other value is dropped.
pub open spec fn printer_events(message: Message) -> Seq<Event> {
    match message.payload {
        Payload::Data(Datum::Text(text)) => seq![Event::Treating, Event::ReceivedText(text)],
        Payload::Data(_) => seq![Event::Treating, Event::Dropped],
        Payload::Command => seq![Event::Treating, Event::ReceivedCommand],
        Payload::Ack => seq![Event::Treating, Event::ReceivedAck],
    }
}

/// Whether a `Printer` understands the value that `message` carries.
pub open spec fn printer_understands(message: Message) -> bool {
    message.payload matches Payload::Data(Datum::Text(_))
}

/// The steps `Counted(0)`, .., `Counted(limit - 1)`.
pub open spec fn counting(limit: u32) -> Seq<Event> {
    Seq::new(limit as nat, |i: int| Event::Counted(i as u32))
}

/// What a `Counter` does with `message`: it counts from zero up to a
/// number, excluding the number itself; any other value is dropped.
pub open spec fn counter_events(message: Message) -> Seq<Event> {
    match message.payload {
        Payload::Data(Datum::Number(limit)) => seq![Event::Treating, Event::ReceivedNumber(limit)]
            + counting(limit),
        Payload::Data(_) => seq![Event::Treating, Event::Dropped],
        Payload::Command => seq![Event::Treating, Event::ReceivedCommand],
        Payload::Ack => seq![Event::Treating, Event::ReceivedAck],
    }
}

/// Whether a `Counter` understands the value that `message` carries.
pub open spec fn counter_understands(message: Message) -> bool {
    message.payload matches Payload::Data(Datum::Number(_))
}

/// Whether `handle` is one of `known`.
fn knows(known: &Vec<ActorRef>, handle: &ActorRef) -> (found: bool)
    ensures
        found == known@.contains(*handle),
{
    let mut i: usize = 0;
    while i < known.len()
        invariant
            i <= known@.len(),
            forall|k: int| 0 <= k < i ==> known@[k] != *handle,
        decreases known@.len() - i,
    {
        if known[i].id == handle.id {
            return true;
        }
        i += 1;
    }
    false
}

/// An actor that receives text. It acknowledges a text value to its sender
/// and silently drops every other kind of value.
pub struct Printer {
    name: String,
    message_queue: Mailbox,
    known_actors: Vec<ActorRef>,
    myself: Option<WeakRef>,
}

impl Printer {
    /// First step of construction: an instance with an empty mailbox whose
    /// self-reference is not bound yet.
    pub fn detached(name: String, known_actors: Vec<ActorRef>) -> (actor: Printer)
        ensures
            actor.name() == name@,
            actor.inbox() == Seq::<Message>::empty(),
            actor.known() == known_actors@,
            actor.self_ref() == None::<WeakRef>,
    {
        Printer { name, message_queue: Mailbox::new(), known_actors, myself: None }
    }
}

impl Actor for Printer {
    closed spec fn name(&self) -> Seq<char> {
        self.name@
    }

    closed spec fn inbox(&self) -> Seq<Message> {
        self.message_queue@
    }

    closed spec fn known(&self) -> Seq<ActorRef> {
        self.known_actors@
    }

    closed spec fn self_ref(&self) -> Option<WeakRef> {
        self.myself
    }

    open spec fn events_for(&self, message: Message) -> Seq<Event> {
        printer_events(message)
    }

    open spec fn outgoing_for(&self, me: ActorRef, message: Message) -> Seq<Envelope> {
        acknowledgement(me, message, printer_understands(message))
    }

    fn init(&mut self, me: &ActorRef) {
        self.myself = Some(me.downgrade());
    }

    fn myself(&self) -> (weak: Option<WeakRef>) {
        self.myself
    }

    fn label(&self) -> (label: &str) {
        self.name.as_str()
    }

    fn known_actors(&self) -> (known: &Vec<ActorRef>) {
        &self.known_actors
    }

    fn holds(&self, handle: &ActorRef) -> (held: bool) {
        knows(&self.known_actors, handle) || self.message_queue.names_sender(handle)
    }

    fn handles(&self) -> (held: Vec<ActorRef>) {
        let mut held = self.known_actors.clone();
        let mut waiting = self.message_queue.senders();
        held.append(&mut waiting);
        held
    }

    fn pending(&self) -> (count: usize) {
        self.message_queue.len()
    }

    fn receive(&mut self, message: Message) {
        self.message_queue.push(message);
    }

    fn handle_message(&mut self, actor_system: &ActorSystem) -> (dispatch: Dispatch) {
        let mut events: Vec<Event> = Vec::new();
        let mut outgoing: Vec<Envelope> = Vec::new();
        let mut spent: Option<ActorRef> = None;
        events.push(Event::Treating);
        match self.message_queue.pop() {
            Some(message) => {
                let Message { payload, sender } = message;
                spent = sender;
                match payload {
                    Payload::Data(Datum::Text(text)) => {
                        events.push(Event::ReceivedText(text));
                        if let Some(reply_to) = sender {
                            outgoing.push(self.send_message(actor_system, reply_to, Payload::Ack));
                        }
                    },
                    Payload::Data(_) => events.push(Event::Dropped),
                    Payload::Command => events.push(Event::ReceivedCommand),
                    Payload::Ack => events.push(Event::ReceivedAck),
                }
            },
            None => {},
        }
        Dispatch { events, outgoing, spent }
    }
}

/// An actor that receives numbers. It counts up to a number, acknowledges
/// it to its sender, and silently drops every other kind of value.
pub struct Counter {
    name: String,
    message_queue: Mailbox,
    known_actors: Vec<ActorRef>,
    myself: Option<WeakRef>,
}

impl Counter {
    /// First step of construction: an instance with an empty mailbox whose
    /// self-reference is not bound yet.
    pub fn detached(name: String, known_actors: Vec<ActorRef>) -> (actor: Counter)
        ensures
            actor.name() == name@,
            actor.inbox() == Seq::<Message>::empty(),
            actor.known() == known_actors@,
            actor.self_ref() == None::<WeakRef>,
    {
        Counter { name, message_queue: Mailbox::new(), known_actors, myself: None }
    }
}

impl Actor for Counter {
    closed spec fn name(&self) -> Seq<char> {
        self.name@
    }

    closed spec fn inbox(&self) -> Seq<Message> {
        self.message_queue@
    }

    closed spec fn known(&self) -> Seq<ActorRef> {
        self.known_actors@
    }

    closed spec fn self_ref(&self) -> Option<WeakRef> {
        self.myself
    }

    open spec fn events_for(&self, message: Message) -> Seq<Event> {
        counter_events(message)
    }

    open spec fn outgoing_for(&self, me: ActorRef, message: Message) -> Seq<Envelope> {
        acknowledgement(me, message, counter_understands(message))
    }

    fn init(&mut self, me: &ActorRef) {
        self.myself = Some(me.downgrade());
    }

    fn myself(&self) -> (weak: Option<WeakRef>) {
        self.myself
    }

    fn label(&self) -> (label: &str) {
        self.name.as_str()
    }

    fn known_actors(&self) -> (known: &Vec<ActorRef>) {
        &self.known_actors
    }

    fn holds(&self, handle: &ActorRef) -> (held: bool) {
        knows(&self.known_actors, handle) || self.message_queue.names_sender(handle)
    }

    fn handles(&self) -> (held: Vec<ActorRef>) {
        let mut held = self.known_actors.clone();
        let mut waiting = self.message_queue.senders();
        held.append(&mut waiting);
        held
    }

    fn pending(&self) -> (count: usize) {
        self.message_queue.len()
    }

    fn receive(&mut self, message: Message) {
        self.message_queue.push(message);
    }

    fn handle_message(&mut self, actor_system: &ActorSystem) -> (dispatch: Dispatch) {
        let mut events: Vec<Event> = Vec::new();
        let mut outgoing: Vec<Envelope> = Vec::new();
        let mut spent: Option<ActorRef> = None;
        events.push(Event::Treating);
        match self.message_queue.pop() {
            Some(message) => {
                let Message { payload, sender } = message;
                spent = sender;
                match payload {
                    Payload::Data(Datum::Number(limit)) => {
                        events.push(Event::ReceivedNumber(limit));
                        let mut i: u32 = 0;
                        while i < limit
                            invariant
                                i <= limit,
                                events@ == seq![Event::Treating, Event::ReceivedNumber(limit)]
                                    + counting(i),
                            decreases limit - i,
                        {
                            events.push(Event::Counted(i));
                            i = i + 1;
                        }
                        if let Some(reply_to) = sender {
                            outgoing.push(self.send_message(actor_system, reply_to, Payload::Ack));
                        }
                    },
                    Payload::Data(_) => events.push(Event::Dropped),
                    Payload::Command => events.push(Event::ReceivedCommand),
                    Payload::Ack => events.push(Event::ReceivedAck),
                }
            },
            None => {},
        }
        Dispatch { events, outgoing, spent }
    }
}

/// Either of the two behaviors, so that both can stand on one stage.
pub enum SampleActor {
    Printer(Printer),
    Counter(Counter),
}

impl Actor for SampleActor {
    open spec fn name(&self) -> Seq<char> {
        match self {
            SampleActor::Printer(printer) => printer.name(),
            SampleActor::Counter(counter) => counter.name(),
        }
    }

    open spec fn inbox(&self) -> Seq<Message> {
        match self {
            SampleActor::Printer(printer) => printer.inbox(),
            SampleActor::Counter(counter) => counter.inbox(),
        }
    }

    open spec fn known(&self) -> Seq<ActorRef> {
        match self {
            SampleActor::Printer(printer) => printer.known(),
            SampleActor::Counter(counter) => counter.known(),
        }
    }

    open spec fn self_ref(&self) -> Option<WeakRef> {
        match self {
            SampleActor::Printer(printer) => printer.self_ref(),
            SampleActor::Counter(counter) => counter.self_ref(),
        }
    }

    open spec fn events_for(&self, message: Message) -> Seq<Event> {
        match self {
            SampleActor::Printer(_) => printer_events(message),
            SampleActor::Counter(_) => counter_events(message),
        }
    }

    open spec fn outgoing_for(&self, me: ActorRef, message: Message) -> Seq<Envelope> {
        match self {
            SampleActor::Printer(_) => acknowledgement(me, message, printer_understands(message)),
            SampleActor::Counter(_) => acknowledgement(me, message, counter_understands(message)),
        }
    }

    fn init(&mut self, me: &ActorRef) {
        match self {
            SampleActor::Printer(printer) => printer.init(me),
            SampleActor::Counter(counter) => counter.init(me),
        }
    }

    fn myself(&self) -> (weak: Option<WeakRef>) {
        match self {
            SampleActor::Printer(printer) => printer.myself(),
            SampleActor::Counter(counter) => counter.myself(),
        }
    }

    fn label(&self) -> (label: &str) {
        match self {
            SampleActor::Printer(printer) => printer.label(),
            SampleActor::Counter(counter) => counter.label(),
        }
    }

    fn known_actors(&self) -> (known: &Vec<ActorRef>) {
        match self {
            SampleActor::Printer(printer) => printer.known_actors(),
            SampleActor::Counter(counter) => counter.known_actors(),
        }
    }

    fn holds(&self, handle: &ActorRef) -> (held: bool) {
        match self {
            SampleActor::Printer(printer) => printer.holds(handle),
            SampleActor::Counter(counter) => counter.holds(handle),
        }
    }

    fn handles(&self) -> (held: Vec<ActorRef>) {
        match self {
            SampleActor::Printer(printer) => printer.handles(),
            SampleActor::Counter(counter) => counter.handles(),
        }
    }

    fn pending(&self) -> (count: usize) {
        match self {
            SampleActor::Printer(printer) => printer.pending(),
            SampleActor::Counter(counter) => counter.pending(),
        }
    }

    fn receive(&mut self, message: Message) {
        match self {
            SampleActor::Printer(printer) => printer.receive(message),
            SampleActor::Counter(counter) => counter.receive(message),
        }
    }

    fn handle_message(&mut self, actor_system: &ActorSystem) -> (dispatch: Dispatch) {
        match self {
            SampleActor::Printer(printer) => printer.handle_message(actor_system),
            SampleActor::Counter(counter) => counter.handle_message(actor_system),
        }
    }
}

impl Printer {
    /// Constructs a printer on `stage` and returns the first strong handle
    /// to it. The handle is only returned once the self-reference of the
    /// new actor is bound. The new actor takes one handle to each actor it
    /// knows; each of them exists, and their counts can grow by that.
    pub fn new(name: String, stage: &mut Stage<SampleActor>, known_actors: Vec<ActorRef>) -> (handle:
        ActorRef)
        requires
            old(stage).wf(),
            forall|k: int|
                0 <= k < known_actors@.len() ==> old(stage).is_alive((#[trigger] known_actors@[k]).id)
                    && old(stage).ledger().strong_of(known_actors@[k].id) + known_actors@.len()
                    <= usize::MAX,
        ensures
            final(stage).wf(),
            handle.id == old(stage).ledger()@.len(),
            final(stage).ledger()@ == retained_all(old(stage).ledger()@, known_actors@).push(1usize),
            forall|message: Message| #[trigger]
                final(stage).actor(handle.id).events_for(message) == printer_events(message),
            forall|me: ActorRef, message: Message| #[trigger]
                final(stage).actor(handle.id).outgoing_for(me, message) == acknowledgement(
                    me,
                    message,
                    printer_understands(message),
                ),
            final(stage).actor(handle.id).name() == name@,
            final(stage).actor(handle.id).inbox() == Seq::<Message>::empty(),
            final(stage).actor(handle.id).known() == known_actors@,
            final(stage).actor(handle.id).self_ref() == Some(WeakRef { id: handle.id }),
            final(stage).same_actors(old(stage)),
    {
        stage.construct(SampleActor::Printer(Printer::detached(name, known_actors)))
    }
}

impl Counter {
    /// Constructs a counter on `stage` and returns the first strong handle
    /// to it. The handle is only returned once the self-reference of the
    /// new actor is bound. The new actor takes one handle to each actor it
    /// knows; each of them exists, and their counts can grow by that.
    pub fn new(name: String, stage: &mut Stage<SampleActor>, known_actors: Vec<ActorRef>) -> (handle:
        ActorRef)
        requires
            old(stage).wf(),
            forall|k: int|
                0 <= k < known_actors@.len() ==> old(stage).is_alive((#[trigger] known_actors@[k]).id)
                    && old(stage).ledger().strong_of(known_actors@[k].id) + known_actors@.len()
                    <= usize::MAX,
        ensures
            final(stage).wf(),
            handle.id == old(stage).ledger()@.len(),
            final(stage).ledger()@ == retained_all(old(stage).ledger()@, known_actors@).push(1usize),
            forall|message: Message| #[trigger]
                final(stage).actor(handle.id).events_for(message) == counter_events(message),
            forall|me: ActorRef, message: Message| #[trigger]
                final(stage).actor(handle.id).outgoing_for(me, message) == acknowledgement(
                    me,
                    message,
                    counter_understands(message),
                ),
            final(stage).actor(handle.id).name() == name@,
            final(stage).actor(handle.id).inbox() == Seq::<Message>::empty(),
            final(stage).actor(handle.id).known() == known_actors@,
            final(stage).actor(handle.id).self_ref() == Some(WeakRef { id: handle.id }),
            final(stage).same_actors(old(stage)),
    {
        stage.construct(SampleActor::Counter(Counter::detached(name, known_actors)))
    }
}

} // verus!
