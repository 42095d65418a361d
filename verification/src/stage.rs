//! The stage: the place where actors are allocated, where messages are
//! delivered between them and where one dispatch step at a time is run.
//!
//! Every strong handle is counted in the ledger of the system, the handles
//! at rest as well as those that callers hold. `construct` hands out the
//! first handle to a new actor and takes one to each actor that the new
//! actor knows. A message holds a handle to its sender from the moment it
//! is enqueued until it has been handled and answered. `retain`, `resolve`
//! and `actor_ref` take a handle for the caller, who gives it back with
//! `release`. An actor leaves the stage with its last handle, and it never
//! leaves while an actor on the stage still holds a handle to it.
//!
//! Every operation that changes an actor takes the stage by `&mut`: two
//! dispatch steps never overlap, and a mailbox is never touched by two
//! callers at once.

use vstd::prelude::*;

use crate::actor::{acknowledgement, envelope_from, same_behavior, Actor, Dispatch, Event};
use crate::mailbox::sent_by;
use crate::message::{ActorRef, Envelope, Message, Payload, WeakRef};
use crate::system::{released, retained, retained_all, ActorSystem};

verus! {

/// Whether `actor` holds a handle to the actor that `handle` names: in the
/// list of actors it knows, or as the sender of a waiting message.
pub open spec fn names<A: Actor>(actor: A, handle: ActorRef) -> bool {
    actor.known().contains(handle) || sent_by(actor.inbox(), handle)
}

/// Whether `after` is `before` but for the content of the mailbox.
pub open spec fn same_but_inbox<A: Actor>(after: A, before: A) -> bool {
    &&& after.name() == before.name()
    &&& after.known() == before.known()
    &&& after.self_ref() == before.self_ref()
    &&& same_behavior(&after, &before)
}

/// Whether a stage whose ledger holds `counts` enqueues `envelope`: the
/// target exists, and a handle to the sender, if one is named, can be taken.
pub open spec fn accepted(counts: Seq<usize>, envelope: Envelope) -> bool {
    &&& envelope.target.id < counts.len()
    &&& counts[envelope.target.id as int] > 0
    &&& envelope.message.sender matches Some(sender) ==> sender.id < counts.len() && 0
        < counts[sender.id as int] < usize::MAX
}

/// What the ledger holds after one envelope has been delivered: the message
/// that is enqueued holds one more handle to its sender.
pub open spec fn ledger_with(counts: Seq<usize>, envelope: Envelope) -> Seq<usize> {
    if accepted(counts, envelope) && envelope.message.sender is Some {
        retained(counts, envelope.message.sender->0.id)
    } else {
        counts
    }
}

/// What the ledger holds after `envelopes` have been delivered in order.
pub open spec fn ledger_after(counts: Seq<usize>, envelopes: Seq<Envelope>) -> Seq<usize>
    decreases envelopes.len(),
{
    if envelopes.len() == 0 {
        counts
    } else {
        ledger_with(ledger_after(counts, envelopes.drop_last()), envelopes.last())
    }
}

/// What a mailbox holding `inbox` holds after the envelopes addressed to
/// the actor `id` have been delivered to it, in the order of `envelopes`,
/// on a stage whose ledger held `counts` at the start.
pub open spec fn inbox_after(
    counts: Seq<usize>,
    inbox: Seq<Message>,
    id: usize,
    envelopes: Seq<Envelope>,
) -> Seq<Message>
    decreases envelopes.len(),
{
    if envelopes.len() == 0 {
        inbox
    } else if envelopes.last().target.id == id && accepted(
        ledger_after(counts, envelopes.drop_last()),
        envelopes.last(),
    ) {
        inbox_after(counts, inbox, id, envelopes.drop_last()).push(envelopes.last().message)
    } else {
        inbox_after(counts, inbox, id, envelopes.drop_last())
    }
}

/// The mailbox of the actor `j` before anything is delivered in the
/// dispatch step of the actor `id`: the dispatching actor has taken its
/// oldest message, every other mailbox is untouched.
pub open spec fn inbox_at_dispatch<A: Actor>(before: Stage<A>, id: usize, j: usize) -> Seq<
    Message,
> {
    if j == id {
        before.actor(j).inbox().drop_first()
    } else {
        before.actor(j).inbox()
    }
}

/// What one dispatch step on a stage yields: what the actor did, and the
/// actor that left the stage because the handled message held the last
/// handle to it.
pub struct Dispatched<A> {
    pub events: Vec<Event>,
    pub retired: Option<A>,
}

/// The actors that were allocated, each in the slot of its identity, next
/// to the ledger that says which of them exist.
pub struct Stage<A: Actor> {
    system: ActorSystem,
    cast: Vec<Option<A>>,
}

impl<A: Actor> Stage<A> {
    /// The ledger of strong handles.
    pub closed spec fn ledger(&self) -> ActorSystem {
        self.system
    }

    /// The actor with identity `id`; meaningful while it exists.
    pub closed spec fn actor(&self, id: usize) -> A {
        self.cast@[id as int]->0
    }

    /// Whether the actor `id` exists.
    pub open spec fn is_alive(&self, id: usize) -> bool {
        self.ledger().alive(id)
    }

    /// Whether an actor on the stage holds a handle to the actor `id`.
    pub open spec fn referenced(&self, id: usize) -> bool {
        exists|j: usize| self.is_alive(j) && names(#[trigger] self.actor(j), ActorRef { id })
    }

    /// Whether a handle to the actor `id` can be given back: the actor
    /// exists, and the handle is not the last one while an actor on the
    /// stage still holds a handle to it.
    pub open spec fn can_release(&self, id: usize) -> bool {
        self.ledger().strong_of(id) >= 2 || (self.ledger().strong_of(id) == 1 && !self.referenced(
            id,
        ))
    }

    /// The invariant of a stage: exactly the actors that exist hold a slot,
    /// each of them is bound to its own identity, and every actor that one
    /// of them knows or that a waiting message names as its sender exists.
    pub closed spec fn wf(&self) -> bool {
        &&& self.system@.len() == self.cast@.len()
        &&& forall|i: int|
            0 <= i < self.cast@.len() ==> {
                &&& (#[trigger] self.cast@[i]) is Some <==> self.system@[i] > 0
                &&& self.cast@[i] is Some ==> self.cast@[i]->0.self_ref() == Some(
                    WeakRef { id: i as usize },
                )
            }
        &&& forall|i: int, handle: ActorRef|
            0 <= i < self.cast@.len() && self.cast@[i] is Some && #[trigger] names(
                self.cast@[i]->0,
                handle,
            ) ==> self.system.alive(handle.id)
    }

    /// Whether `self` has the actors of `before`, each as it was.
    pub open spec fn same_actors(&self, before: &Stage<A>) -> bool {
        forall|j: usize| before.is_alive(j) ==> #[trigger] self.actor(j) == before.actor(j)
    }

    /// Whether this stage is `before` after `envelope` has been delivered:
    /// if the stage accepts it, the message is at the tail of the target's
    /// mailbox and holds one more handle to its sender; nothing else has
    /// changed.
    pub open spec fn delivered(&self, before: &Stage<A>, envelope: Envelope) -> bool {
        &&& self.wf()
        &&& self.ledger()@ == ledger_with(before.ledger()@, envelope)
        &&& forall|j: usize|
            before.is_alive(j) ==> {
                &&& same_but_inbox(#[trigger] self.actor(j), before.actor(j))
                &&& self.actor(j).inbox() == if j == envelope.target.id && accepted(
                    before.ledger()@,
                    envelope,
                ) {
                    before.actor(j).inbox().push(envelope.message)
                } else {
                    before.actor(j).inbox()
                }
            }
    }

    /// Whether this stage is `before` after the messages of `envelopes` have
    /// been delivered one after the other.
    pub open spec fn delivered_all(&self, before: &Stage<A>, envelopes: Seq<Envelope>) -> bool {
        &&& self.wf()
        &&& self.ledger()@ == ledger_after(before.ledger()@, envelopes)
        &&& forall|j: usize|
            before.is_alive(j) ==> {
                &&& same_but_inbox(#[trigger] self.actor(j), before.actor(j))
                &&& self.actor(j).inbox() == inbox_after(
                    before.ledger()@,
                    before.actor(j).inbox(),
                    j,
                    envelopes,
                )
            }
    }

    /// Whether this stage is `before` after the actor `id` has handled the
    /// oldest message of its mailbox and what it sent in reaction has been
    /// delivered. The handle that the handled message held to its sender
    /// has not been given back yet.
    pub open spec fn answered(&self, before: &Stage<A>, id: usize) -> bool {
        let message = before.actor(id).inbox()[0];
        let sent = before.actor(id).outgoing_for(ActorRef { id }, message);
        &&& self.wf()
        &&& self.ledger()@ == ledger_after(before.ledger()@, sent)
        &&& forall|j: usize|
            before.is_alive(j) ==> {
                &&& same_but_inbox(#[trigger] self.actor(j), before.actor(j))
                &&& self.actor(j).inbox() == inbox_after(
                    before.ledger()@,
                    inbox_at_dispatch(*before, id, j),
                    j,
                    sent,
                )
            }
    }

    /// Whether this stage is `before` after one handle to the actor `id`
    /// has been given back, and `retired` is the actor that left the stage
    /// thereby. Nothing changes where the handle cannot be given back.
    pub open spec fn released_one(&self, before: &Stage<A>, id: usize, retired: Option<A>) -> bool {
        &&& self.wf()
        &&& self.ledger()@ == if before.can_release(id) {
            released(before.ledger()@, id)
        } else {
            before.ledger()@
        }
        &&& retired == if before.can_release(id) && before.ledger().strong_of(id) == 1 {
            Some(before.actor(id))
        } else {
            None
        }
        &&& forall|j: usize| self.is_alive(j) ==> #[trigger] self.actor(j) == before.actor(j)
    }

    /// Whether this stage is `before` after the handle that a handled
    /// message held to its sender has been given back.
    pub open spec fn let_go(&self, before: &Stage<A>, spent: Option<ActorRef>, retired: Option<A>) -> bool {
        match spent {
            Some(handle) => self.released_one(before, handle.id, retired),
            None => {
                &&& self.wf()
                &&& self.ledger()@ == before.ledger()@
                &&& retired is None
                &&& forall|j: usize| self.is_alive(j) ==> #[trigger] self.actor(j) == before.actor(j)
            },
        }
    }

    /// Whether this stage is `before` after one dispatch step of the actor
    /// `id`: the actor has handled its oldest message, what it sent has
    /// been delivered, and then the handle that the message held to its
    /// sender has been given back.
    pub open spec fn dispatched(&self, before: &Stage<A>, id: usize, retired: Option<A>) -> bool {
        exists|mid: Stage<A>| #[trigger]
            mid.answered(before, id) && self.let_go(
                &mid,
                before.actor(id).inbox()[0].sender,
                retired,
            )
    }

    /// An empty stage.
    pub fn new() -> (stage: Stage<A>)
        ensures
            stage.wf(),
            stage.ledger()@ == Seq::<usize>::empty(),
    {
        Stage { system: ActorSystem::new(), cast: Vec::new() }
    }

    /// The system context of the actors on this stage.
    pub fn actor_system(&self) -> (system: &ActorSystem)
        ensures
            *system == self.ledger(),
    {
        &self.system
    }

    /// Allocates `actor`, binds its self-reference to the identity it is
    /// given, and returns the first strong handle to it. The new actor
    /// takes one handle to each actor it knows. The actor is never on the
    /// stage without its self-reference. The actor is fresh, every actor it
    /// knows exists, and their counts can grow by the handles taken.
    pub fn construct(&mut self, actor: A) -> (handle: ActorRef)
        requires
            old(self).wf(),
            actor.inbox().len() == 0,
            forall|k: int|
                0 <= k < actor.known().len() ==> old(self).is_alive(
                    (#[trigger] actor.known()[k]).id,
                ) && old(self).ledger().strong_of(actor.known()[k].id) + actor.known().len()
                    <= usize::MAX,
        ensures
            final(self).wf(),
            handle.id == old(self).ledger()@.len(),
            final(self).ledger()@ == retained_all(old(self).ledger()@, actor.known()).push(1usize),
            final(self).actor(handle.id).name() == actor.name(),
            final(self).actor(handle.id).inbox() == actor.inbox(),
            final(self).actor(handle.id).known() == actor.known(),
            final(self).actor(handle.id).self_ref() == Some(WeakRef { id: handle.id }),
            same_behavior(&final(self).actor(handle.id), &actor),
            final(self).same_actors(old(self)),
    {
        let count = actor.known_actors().len();
        let mut i: usize = 0;
        while i < count
            invariant
                i <= count,
                count == actor.known().len(),
                self.cast == old(self).cast,
                self.system@.len() == old(self).system@.len(),
                self.system@ == retained_all(old(self).system@, actor.known().take(i as int)),
                forall|id: int|
                    0 <= id < self.system@.len() ==> old(self).system@[id] <= #[trigger] self.system@[id]
                        <= old(self).system@[id] + i,
                forall|id: int|
                    0 <= id < self.system@.len() ==> (old(self).system@[id] > 0
                        <==> #[trigger] self.system@[id] > 0),
                old(self).wf(),
                forall|k: int|
                    0 <= k < actor.known().len() ==> old(self).is_alive(
                        (#[trigger] actor.known()[k]).id,
                    ) && old(self).ledger().strong_of(actor.known()[k].id) + actor.known().len()
                        <= usize::MAX,
            decreases count - i,
        {
            let known = actor.known_actors()[i];
            assert(old(self).is_alive(actor.known()[i as int].id));
            let taken = self.system.retain(&known);
            proof {
                assert(actor.known().take(i + 1).drop_last() == actor.known().take(i as int));
                assert(actor.known().take(i + 1).last() == known);
            }
            i += 1;
        }
        proof {
            assert(actor.known().take(count as int) == actor.known());
        }
        let handle = self.system.enroll();
        let mut bound = actor;
        bound.init(&handle);
        self.cast.push(Some(bound));
        proof {
            assert forall|i: int, named: ActorRef|
                0 <= i < self.cast@.len() && self.cast@[i] is Some && #[trigger] names(
                    self.cast@[i]->0,
                    named,
                ) implies self.system.alive(named.id) by {
                if i < old(self).cast@.len() {
                    assert(names(old(self).cast@[i]->0, named));
                    assert(old(self).system.alive(named.id));
                } else {
                    assert(!sent_by(actor.inbox(), named));
                    let k = choose|k: int| 0 <= k < actor.known().len() && actor.known()[k] == named;
                    assert(old(self).is_alive(actor.known()[k].id));
                }
            }
        }
        handle
    }

    /// The number of messages waiting in the mailbox of the actor; zero for
    /// an actor that does not exist.
    pub fn pending(&self, actor: &ActorRef) -> (count: usize)
        requires
            self.wf(),
        ensures
            count == if self.is_alive(actor.id) {
                self.actor(actor.id).inbox().len()
            } else {
                0
            },
    {
        if actor.id < self.cast.len() {
            match &self.cast[actor.id] {
                Some(resident) => resident.pending(),
                None => 0,
            }
        } else {
            0
        }
    }

    /// Looks the actor up: read access to it while it exists. An actor on
    /// the stage is bound to the identity under which it is found.
    pub fn lookup(&self, actor: &ActorRef) -> (resident: Option<&A>)
        requires
            self.wf(),
        ensures
            resident is Some == self.is_alive(actor.id),
            resident is Some ==> *resident->0 == self.actor(actor.id),
            resident is Some ==> resident->0.self_ref() == Some(WeakRef { id: actor.id }),
    {
        if actor.id < self.cast.len() {
            self.cast[actor.id].as_ref()
        } else {
            None
        }
    }

    /// Whether an actor on the stage holds a handle to the actor.
    pub fn is_referenced(&self, actor: &ActorRef) -> (found: bool)
        requires
            self.wf(),
        ensures
            found == self.referenced(actor.id),
    {
        let mut j: usize = 0;
        while j < self.cast.len()
            invariant
                self.wf(),
                j <= self.cast@.len(),
                forall|k: usize| k < j && self.is_alive(k) ==> !names(#[trigger] self.actor(k), *actor),
            decreases self.cast@.len() - j,
        {
            let held = match &self.cast[j] {
                Some(resident) => resident.holds(actor),
                None => false,
            };
            if held {
                assert(self.is_alive(j) && names(self.actor(j), ActorRef { id: actor.id }));
                return true;
            }
            j += 1;
        }
        false
    }

    /// Resolves the self-reference of the actor. While the actor exists
    /// this takes one more strong handle to it, which the caller gives
    /// back with `release`; once it has ceased to exist it yields `None`.
    /// Nothing but the count of the actor changes.
    pub fn resolve(&mut self, actor: &ActorRef) -> (handle: Option<ActorRef>)
        requires
            old(self).wf(),
        ensures
            final(self).wf(),
            final(self).ledger()@ == retained(old(self).ledger()@, actor.id),
            handle == old(self).ledger().resolved(WeakRef { id: actor.id }),
            final(self).same_actors(old(self)),
    {
        let handle = if actor.id < self.cast.len() {
            match &self.cast[actor.id] {
                Some(resident) => resident.resolve(&mut self.system),
                None => None,
            }
        } else {
            None
        };
        proof {
            self.lemma_growth_keeps_wf(*old(self));
        }
        handle
    }

    /// The strong handle of the actor to itself: one more handle is taken,
    /// which the caller gives back with `release`. The actor must exist,
    /// and its count must be able to grow.
    pub fn actor_ref(&mut self, actor: &ActorRef) -> (handle: ActorRef)
        requires
            old(self).wf(),
            0 < old(self).ledger().strong_of(actor.id) < usize::MAX,
        ensures
            final(self).wf(),
            final(self).ledger()@ == retained(old(self).ledger()@, actor.id),
            handle == *actor,
            final(self).same_actors(old(self)),
    {
        match self.resolve(actor) {
            Some(handle) => handle,
            None => vstd::pervasive::unreached(),
        }
    }

    /// Takes one more strong handle to the actor. Returns the new handle,
    /// or `None`, with nothing changed, when the actor does not exist or
    /// its count cannot grow.
    pub fn retain(&mut self, actor: &ActorRef) -> (taken: Option<ActorRef>)
        requires
            old(self).wf(),
        ensures
            final(self).wf(),
            final(self).ledger()@ == retained(old(self).ledger()@, actor.id),
            taken == if 0 < old(self).ledger().strong_of(actor.id) < usize::MAX {
                Some(*actor)
            } else {
                None
            },
            final(self).same_actors(old(self)),
    {
        let taken = self.system.retain(actor);
        proof {
            self.lemma_growth_keeps_wf(*old(self));
        }
        taken
    }

    /// A stage stays well formed when its actors are as they were and no
    /// count has dropped to zero.
    proof fn lemma_growth_keeps_wf(self, before: Stage<A>)
        requires
            before.wf(),
            self.cast == before.cast,
            self.system@.len() == before.system@.len(),
            forall|id: int|
                0 <= id < before.system@.len() ==> (before.system@[id] > 0
                    <==> #[trigger] self.system@[id] > 0),
        ensures
            self.wf(),
    {
        assert forall|i: int, named: ActorRef|
            0 <= i < self.cast@.len() && self.cast@[i] is Some && #[trigger] names(
                self.cast@[i]->0,
                named,
            ) implies self.system.alive(named.id) by {
            assert(before.system.alive(named.id));
        }
    }

    /// Enqueues the message of `envelope` into the mailbox of its target;
    /// the message takes a handle to its sender. Returns whether the stage
    /// accepted the message: the target exists, and the handle to the
    /// sender could be taken. A message that is not accepted is discarded.
    pub fn deliver(&mut self, envelope: Envelope) -> (enqueued: bool)
        requires
            old(self).wf(),
        ensures
            final(self).delivered(old(self), envelope),
            enqueued == accepted(old(self).ledger()@, envelope),
    {
        let Envelope { target, message } = envelope;
        if target.id >= self.cast.len() {
            return false;
        }
        if self.cast[target.id].is_none() {
            return false;
        }
        match message.sender {
            Some(sender) => {
                if self.system.retain(&sender).is_none() {
                    return false;
                }
            },
            None => {},
        }
        proof {
            self.lemma_growth_keeps_wf(*old(self));
        }
        let ghost mid = *self;
        match &mut self.cast[target.id] {
            Some(resident) => {
                resident.receive(message);
            },
            None => {},
        }
        proof {
            assert forall|i: int, named: ActorRef|
                0 <= i < self.cast@.len() && self.cast@[i] is Some && #[trigger] names(
                    self.cast@[i]->0,
                    named,
                ) implies self.system.alive(named.id) by {
                if i == target.id {
                    lemma_sent_by_push(mid.cast@[i]->0.inbox(), message, named);
                    if message.sender != Some(named) {
                        assert(names(mid.cast@[i]->0, named));
                    }
                } else {
                    assert(names(mid.cast@[i]->0, named));
                }
            }
        }
        true
    }

    /// Enqueues `message` into the mailbox of `target`; the message takes a
    /// handle to its sender.
    pub fn receive(&mut self, target: &ActorRef, message: Message) -> (enqueued: bool)
        requires
            old(self).wf(),
        ensures
            final(self).delivered(old(self), Envelope { target: *target, message }),
            enqueued == accepted(old(self).ledger()@, Envelope { target: *target, message }),
    {
        self.deliver(Envelope { target: *target, message })
    }

    /// Delivers the messages of `envelopes` one after the other.
    pub fn deliver_all(&mut self, envelopes: Vec<Envelope>)
        requires
            old(self).wf(),
        ensures
            final(self).delivered_all(old(self), envelopes@),
    {
        let ghost all = envelopes@;
        for envelope in iter: envelopes
            invariant
                iter.seq() == all,
                self.delivered_all(old(self), all.take(iter.index() as int)),
                forall|j: usize| old(self).is_alive(j) <==> self.is_alive(j),
        {
            let ghost sent = all.take(iter.index() as int);
            self.deliver(envelope);
            proof {
                assert(all.take(iter.index() + 1).drop_last() == sent);
                assert(all.take(iter.index() + 1).last() == envelope);
                assert forall|j: usize| old(self).is_alive(j) implies self.is_alive(j) by {}
            }
        }
        proof {
            assert(all.take(all.len() as int) == all);
        }
    }

    /// Sends `payload` from the actor `from` to `target`: the message
    /// carries `from` as its sender and holds a handle to it. The sending
    /// actor must exist and its count must be able to grow. Returns
    /// whether the target exists.
    pub fn send(&mut self, from: &ActorRef, target: ActorRef, payload: Payload) -> (enqueued: bool)
        requires
            old(self).wf(),
            0 < old(self).ledger().strong_of(from.id) < usize::MAX,
        ensures
            final(self).delivered(old(self), envelope_from(*from, target, payload)),
            enqueued == old(self).is_alive(target.id),
    {
        let envelope = match &self.cast[from.id] {
            Some(resident) => resident.send_message(&self.system, target, payload),
            None => vstd::pervasive::unreached(),
        };
        self.deliver(envelope)
    }

    /// Sends `payload` from the actor `from` to the actor number `index` of
    /// those it knows. An actor that is known exists, so the message is
    /// always enqueued.
    pub fn send_to_known(&mut self, from: &ActorRef, index: usize, payload: Payload)
        requires
            old(self).wf(),
            0 < old(self).ledger().strong_of(from.id) < usize::MAX,
            index < old(self).actor(from.id).known().len(),
        ensures
            final(self).delivered(
                old(self),
                envelope_from(*from, old(self).actor(from.id).known()[index as int], payload),
            ),
            accepted(
                old(self).ledger()@,
                envelope_from(*from, old(self).actor(from.id).known()[index as int], payload),
            ),
    {
        let envelope = match &self.cast[from.id] {
            Some(resident) => resident.send_to_known(&self.system, index, payload),
            None => vstd::pervasive::unreached(),
        };
        proof {
            let target = self.actor(from.id).known()[index as int];
            assert(names(self.cast@[from.id as int]->0, target));
        }
        self.deliver(envelope);
    }

    /// Sends `payload` from the actor `from` to the first actor it knows.
    pub fn send_to_first(&mut self, from: &ActorRef, payload: Payload)
        requires
            old(self).wf(),
            0 < old(self).ledger().strong_of(from.id) < usize::MAX,
            old(self).actor(from.id).known().len() > 0,
        ensures
            final(self).delivered(
                old(self),
                envelope_from(*from, old(self).actor(from.id).known()[0], payload),
            ),
            accepted(
                old(self).ledger()@,
                envelope_from(*from, old(self).actor(from.id).known()[0], payload),
            ),
    {
        self.send_to_known(from, 0, payload)
    }

    /// Gives back one strong handle to the actor. When it was the last one,
    /// the actor leaves the stage and is handed back, with the messages and
    /// the handles it still holds. Nothing changes when the actor does not
    /// exist, or when the last handle is asked for while an actor on the
    /// stage still holds a handle to this one.
    pub fn release(&mut self, actor: &ActorRef) -> (retired: Option<A>)
        requires
            old(self).wf(),
        ensures
            final(self).released_one(old(self), actor.id, retired),
    {
        let count = self.system.strong_count(actor);
        if count == 0 {
            return None;
        }
        if count == 1 {
            if self.is_referenced(actor) {
                return None;
            }
        }
        let last = self.system.release(actor);
        if last {
            let mut retired: Option<A> = None;
            std::mem::swap(&mut retired, &mut self.cast[actor.id]);
            proof {
                assert forall|i: int, named: ActorRef|
                    0 <= i < self.cast@.len() && self.cast@[i] is Some && #[trigger] names(
                        self.cast@[i]->0,
                        named,
                    ) implies self.system.alive(named.id) by {
                    assert(self.cast@.len() == self.cast.len());
                    let holder = i as usize;
                    assert(self.cast@[i] == old(self).cast@[i]);
                    assert(names(old(self).cast@[i]->0, named));
                    assert(old(self).system.alive(named.id));
                    if named.id == actor.id {
                        assert(old(self).is_alive(holder));
                        assert(names(old(self).actor(holder), ActorRef { id: actor.id }));
                    }
                }
            }
            retired
        } else {
            proof {
                self.lemma_growth_keeps_wf(*old(self));
            }
            None
        }
    }

    /// One dispatch step of the actor: it takes the oldest message from its
    /// mailbox and handles it, what it sends is delivered, and then the
    /// handle that the message held to its sender is given back. The actor
    /// must exist and its mailbox must hold a message. Returns what the
    /// actor did, and the sender if it left the stage with that handle.
    pub fn dispatch_one(&mut self, actor: &ActorRef) -> (outcome: Dispatched<A>)
        requires
            old(self).wf(),
            old(self).is_alive(actor.id),
            old(self).actor(actor.id).inbox().len() > 0,
        ensures
            final(self).dispatched(old(self), actor.id, outcome.retired),
            outcome.events@ == old(self).actor(actor.id).events_for(
                old(self).actor(actor.id).inbox()[0],
            ),
    {
        let dispatch = match &mut self.cast[actor.id] {
            Some(resident) => resident.handle_message(&self.system),
            None => vstd::pervasive::unreached(),
        };
        proof {
            assert forall|i: int, named: ActorRef|
                0 <= i < self.cast@.len() && self.cast@[i] is Some && #[trigger] names(
                    self.cast@[i]->0,
                    named,
                ) implies self.system.alive(named.id) by {
                if i == actor.id {
                    lemma_sent_by_drop_first(old(self).cast@[i]->0.inbox(), named);
                }
                assert(names(old(self).cast@[i]->0, named));
            }
        }
        let Dispatch { events, outgoing, spent } = dispatch;
        self.deliver_all(outgoing);
        let ghost mid = *self;
        let retired = match spent {
            Some(handle) => self.release(&handle),
            None => None,
        };
        proof {
            assert(mid.answered(old(self), actor.id));
            assert(self.let_go(&mid, spent, retired));
        }
        Dispatched { events, retired }
    }
}

/// A message that is appended to a mailbox adds no sender but its own.
pub proof fn lemma_sent_by_push(inbox: Seq<Message>, message: Message, handle: ActorRef)
    ensures
        sent_by(inbox.push(message), handle) ==> sent_by(inbox, handle) || message.sender == Some(
            handle,
        ),
{
    if sent_by(inbox.push(message), handle) {
        let k = choose|k: int|
            0 <= k < inbox.push(message).len() && (#[trigger] inbox.push(message)[k]).sender
                == Some(handle);
        if k < inbox.len() {
            assert(inbox[k].sender == Some(handle));
        }
    }
}

/// A message that is taken from a mailbox adds no sender.
pub proof fn lemma_sent_by_drop_first(inbox: Seq<Message>, handle: ActorRef)
    requires
        inbox.len() > 0,
    ensures
        sent_by(inbox.drop_first(), handle) ==> sent_by(inbox, handle),
{
    if sent_by(inbox.drop_first(), handle) {
        let k = choose|k: int|
            0 <= k < inbox.drop_first().len() && (#[trigger] inbox.drop_first()[k]).sender == Some(
                handle,
            );
        assert(inbox[k + 1].sender == Some(handle));
    }
}

/// Every handle at rest names an actor that exists: the actors that an
/// actor on the stage knows, and the senders of the messages that wait in
/// its mailbox.
pub proof fn lemma_held_handles_exist<A: Actor>(stage: Stage<A>, holder: usize, handle: ActorRef)
    requires
        stage.wf(),
        stage.is_alive(holder),
        names(stage.actor(holder), handle),
    ensures
        stage.is_alive(handle.id),
{
    assert(names(stage.cast@[holder as int]->0, handle));
}

/// An actor on the stage is bound to its own identity.
pub proof fn lemma_actors_are_bound<A: Actor>(stage: Stage<A>, id: usize)
    requires
        stage.wf(),
        stage.is_alive(id),
    ensures
        stage.actor(id).self_ref() == Some(WeakRef { id }),
{
}

/// Delivering nothing leaves ledger and mailbox as they are.
pub proof fn lemma_no_delivery(counts: Seq<usize>, inbox: Seq<Message>, id: usize)
    ensures
        inbox_after(counts, inbox, id, Seq::<Envelope>::empty()) == inbox,
        ledger_after(counts, Seq::<Envelope>::empty()) == counts,
{
}

/// Delivering one envelope that the stage accepts appends its message to
/// the mailbox of its target and to no other mailbox; an envelope that is
/// not accepted changes no mailbox.
pub proof fn lemma_single_delivery(
    counts: Seq<usize>,
    inbox: Seq<Message>,
    id: usize,
    envelope: Envelope,
)
    ensures
        inbox_after(counts, inbox, id, seq![envelope]) == if envelope.target.id == id && accepted(
            counts,
            envelope,
        ) {
            inbox.push(envelope.message)
        } else {
            inbox
        },
        ledger_after(counts, seq![envelope]) == ledger_with(counts, envelope),
{
    assert(seq![envelope].drop_last() == Seq::<Envelope>::empty());
    assert(inbox_after(counts, inbox, id, Seq::<Envelope>::empty()) == inbox);
    assert(ledger_after(counts, Seq::<Envelope>::empty()) == counts);
}

/// An actor that follows the reply rule and understands the value it
/// handles acknowledges it exactly once, whoever the sender is: when the
/// reply has been sent, one `Ack` that names the actor as its sender is at
/// the tail of the sender's mailbox, and of no other mailbox, and the count
/// of the actor has grown by the handle that the `Ack` holds. Without a
/// sender nothing is enqueued anywhere and no count changes. That the
/// count of the dispatching actor can grow is a limit of the machine.
pub proof fn lemma_understood_value_is_acknowledged<A: Actor>(
    before: Stage<A>,
    after: Stage<A>,
    id: usize,
)
    requires
        before.wf(),
        before.is_alive(id),
        before.ledger().strong_of(id) < usize::MAX,
        before.actor(id).inbox().len() > 0,
        after.answered(&before, id),
        before.actor(id).outgoing_for(ActorRef { id }, before.actor(id).inbox()[0])
            == acknowledgement(ActorRef { id }, before.actor(id).inbox()[0], true),
    ensures
        before.actor(id).inbox()[0].sender matches Some(sender) ==> before.is_alive(sender.id),
        forall|j: usize|
            before.is_alive(j) ==> (#[trigger] after.actor(j)).inbox() == if before.actor(
                id,
            ).inbox()[0].sender == Some(ActorRef { id: j }) {
                inbox_at_dispatch(before, id, j).push(
                    Message { payload: Payload::Ack, sender: Some(ActorRef { id }) },
                )
            } else {
                inbox_at_dispatch(before, id, j)
            },
        after.ledger()@ == if before.actor(id).inbox()[0].sender is Some {
            retained(before.ledger()@, id)
        } else {
            before.ledger()@
        },
{
    let message = before.actor(id).inbox()[0];
    let me = ActorRef { id };
    if message.sender is Some {
        let sender = message.sender->0;
        assert(names(before.actor(id), sender));
        lemma_held_handles_exist(before, id, sender);
        let reply = envelope_from(me, sender, Payload::Ack);
        assert(accepted(before.ledger()@, reply));
        lemma_single_delivery(before.ledger()@, Seq::empty(), 0, reply);
    } else {
        lemma_no_delivery(before.ledger()@, Seq::empty(), 0);
    }
    assert forall|j: usize| before.is_alive(j) implies (#[trigger] after.actor(j)).inbox()
        == if message.sender == Some(ActorRef { id: j }) {
        inbox_at_dispatch(before, id, j).push(Message { payload: Payload::Ack, sender: Some(me) })
    } else {
        inbox_at_dispatch(before, id, j)
    } by {
        if message.sender is Some {
            lemma_single_delivery(
                before.ledger()@,
                inbox_at_dispatch(before, id, j),
                j,
                envelope_from(me, message.sender->0, Payload::Ack),
            );
        } else {
            lemma_no_delivery(before.ledger()@, inbox_at_dispatch(before, id, j), j);
        }
    }
}

/// The same at the end of the dispatch step, when the handle that the
/// handled message held to its sender has been given back: the `Ack` is at
/// the tail of the sender's mailbox. Where that handle was the last one to
/// the sender, the sender has left the stage with the `Ack` in its mailbox.
pub proof fn lemma_acknowledged_after_dispatch<A: Actor>(
    before: Stage<A>,
    after: Stage<A>,
    id: usize,
    retired: Option<A>,
)
    requires
        before.wf(),
        before.is_alive(id),
        before.ledger().strong_of(id) < usize::MAX,
        before.actor(id).inbox().len() > 0,
        before.actor(id).inbox()[0].sender is Some,
        after.dispatched(&before, id, retired),
        before.actor(id).outgoing_for(ActorRef { id }, before.actor(id).inbox()[0])
            == acknowledgement(ActorRef { id }, before.actor(id).inbox()[0], true),
    ensures
        ({
            let sender = before.actor(id).inbox()[0].sender->0;
            let acknowledged = inbox_at_dispatch(before, id, sender.id).push(
                Message { payload: Payload::Ack, sender: Some(ActorRef { id }) },
            );
            match retired {
                Some(gone) => !after.is_alive(sender.id) && gone.inbox() == acknowledged,
                None => after.is_alive(sender.id) && after.actor(sender.id).inbox() == acknowledged,
            }
        }),
{
    let sender = before.actor(id).inbox()[0].sender->0;
    let mid = choose|mid: Stage<A>| #[trigger]
        mid.answered(&before, id) && after.let_go(&mid, before.actor(id).inbox()[0].sender, retired);
    lemma_understood_value_is_acknowledged(before, mid, id);
    assert(before.is_alive(sender.id));
    assert(mid.is_alive(sender.id)) by {
        crate::system::lemma_retained(before.ledger()@, id);
    }
    assert(after.released_one(&mid, sender.id, retired));
}

/// An actor that follows the reply rule and does not understand the value
/// it handles sends nothing, whether or not the message names a sender:
/// but for the message that was taken, every mailbox is as it was, and so
/// are the ledger and everything else about every actor.
pub proof fn lemma_unexpected_value_is_dropped<A: Actor>(before: Stage<A>, after: Stage<A>, id: usize)
    requires
        after.answered(&before, id),
        before.actor(id).outgoing_for(ActorRef { id }, before.actor(id).inbox()[0])
            == acknowledgement(ActorRef { id }, before.actor(id).inbox()[0], false),
    ensures
        after.ledger()@ == before.ledger()@,
        forall|j: usize|
            before.is_alive(j) ==> {
                &&& (#[trigger] after.actor(j)).inbox() == inbox_at_dispatch(before, id, j)
                &&& same_but_inbox(after.actor(j), before.actor(j))
            },
{
    lemma_no_delivery(before.ledger()@, Seq::empty(), 0);
    assert forall|j: usize| before.is_alive(j) implies (#[trigger] after.actor(j)).inbox()
        == inbox_at_dispatch(before, id, j) by {
        lemma_no_delivery(before.ledger()@, inbox_at_dispatch(before, id, j), j);
    }
}

} // verus!
