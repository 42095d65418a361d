//! The system context: the ledger of strong handles that decides which
//! actors exist.

use vstd::prelude::*;

use crate::message::{ActorRef, WeakRef};

verus! {

/// For every actor ever enrolled, the number of strong handles that are
/// still held. An actor exists as long as that number is positive; once it
/// has dropped to zero it stays zero, because identities are never reused.
pub struct ActorSystem {
    strong: Vec<usize>,
}

impl View for ActorSystem {
    type V = Seq<usize>;

    /// The strong-handle count of each actor, by identity.
    closed spec fn view(&self) -> Seq<usize> {
        self.strong@
    }
}

/// What the ledger `counts` holds after one more strong handle to `id` has
/// been taken.
pub open spec fn retained(counts: Seq<usize>, id: usize) -> Seq<usize> {
    if id < counts.len() && 0 < counts[id as int] < usize::MAX {
        counts.update(id as int, (counts[id as int] + 1) as usize)
    } else {
        counts
    }
}

/// What the ledger `counts` holds after one strong handle to `id` has been
/// dropped.
pub open spec fn released(counts: Seq<usize>, id: usize) -> Seq<usize> {
    if id < counts.len() && counts[id as int] > 0 {
        counts.update(id as int, (counts[id as int] - 1) as usize)
    } else {
        counts
    }
}

/// What the ledger `counts` holds after one strong handle has been taken
/// to each actor that `handles` names, in that order.
pub open spec fn retained_all(counts: Seq<usize>, handles: Seq<ActorRef>) -> Seq<usize>
    decreases handles.len(),
{
    if handles.len() == 0 {
        counts
    } else {
        retained(retained_all(counts, handles.drop_last()), handles.last().id)
    }
}

/// What the ledger `counts` holds after `drops` strong handles to `id` have
/// been dropped one after the other.
pub open spec fn released_times(counts: Seq<usize>, id: usize, drops: nat) -> Seq<usize>
    decreases drops,
{
    if drops == 0 {
        counts
    } else {
        released(released_times(counts, id, (drops - 1) as nat), id)
    }
}

impl ActorSystem {
    /// The number of strong handles to `id` that are held; zero for an
    /// identity that was never enrolled.
    pub open spec fn strong_of(&self, id: usize) -> nat {
        if id < self@.len() {
            self@[id as int] as nat
        } else {
            0
        }
    }

    /// Whether the actor `id` exists: at least one strong handle is held.
    pub open spec fn alive(&self, id: usize) -> bool {
        self.strong_of(id) > 0
    }

    /// What resolving `weak` yields: a strong handle to the same actor while
    /// it exists and its count can grow, nothing otherwise.
    pub open spec fn resolved(&self, weak: WeakRef) -> Option<ActorRef> {
        if 0 < self.strong_of(weak.id) < usize::MAX {
            Some(ActorRef { id: weak.id })
        } else {
            None
        }
    }

    /// A system in which no actor has been enrolled.
    pub fn new() -> (system: ActorSystem)
        ensures
            system@ == Seq::<usize>::empty(),
    {
        ActorSystem { strong: Vec::new() }
    }

    /// The number of identities handed out so far.
    pub fn enrolled(&self) -> (count: usize)
        ensures
            count == self@.len(),
    {
        self.strong.len()
    }

    /// Enrolls a new actor and returns the first strong handle to it. The
    /// identity is the next unused one.
    pub fn enroll(&mut self) -> (handle: ActorRef)
        ensures
            handle.id == old(self)@.len(),
            final(self)@ == old(self)@.push(1usize),
    {
        let id = self.strong.len();
        self.strong.push(1);
        ActorRef { id }
    }

    /// The number of strong handles to the actor that are held.
    pub fn strong_count(&self, handle: &ActorRef) -> (count: usize)
        ensures
            count == self.strong_of(handle.id),
    {
        if handle.id < self.strong.len() {
            self.strong[handle.id]
        } else {
            0
        }
    }

    /// Whether the actor exists.
    pub fn is_alive(&self, handle: &ActorRef) -> (alive: bool)
        ensures
            alive == self.alive(handle.id),
    {
        self.strong_count(handle) > 0
    }

    /// Takes one more strong handle to an actor that exists. Returns the
    /// new handle, or `None`, with the ledger unchanged, when the actor
    /// does not exist or its count cannot grow.
    pub fn retain(&mut self, handle: &ActorRef) -> (taken: Option<ActorRef>)
        ensures
            final(self)@ == retained(old(self)@, handle.id),
            taken == if 0 < old(self).strong_of(handle.id) < usize::MAX {
                Some(*handle)
            } else {
                None
            },
    {
        let id = handle.id;
        if id < self.strong.len() {
            let count = self.strong[id];
            if 0 < count && count < usize::MAX {
                self.strong.set(id, count + 1);
                return Some(*handle);
            }
        }
        None
    }

    /// Drops one strong handle. Returns `true` exactly when it was the last
    /// one, so that the actor has ceased to exist by this call. Dropping a
    /// handle to an actor that does not exist changes nothing.
    pub fn release(&mut self, handle: &ActorRef) -> (last: bool)
        ensures
            final(self)@ == released(old(self)@, handle.id),
            last == (old(self).strong_of(handle.id) == 1),
    {
        let id = handle.id;
        if id < self.strong.len() {
            let count = self.strong[id];
            if count > 0 {
                self.strong.set(id, count - 1);
                return count == 1;
            }
        }
        false
    }

    /// Resolves a non-owning reference. While the actor exists this takes
    /// one more strong handle to it, which the caller gives back with
    /// `release`. Once every strong handle has been dropped it yields
    /// `None` and changes nothing.
    pub fn upgrade(&mut self, weak: &WeakRef) -> (handle: Option<ActorRef>)
        ensures
            final(self)@ == retained(old(self)@, weak.id),
            handle == old(self).resolved(*weak),
    {
        self.retain(&ActorRef { id: weak.id })
    }
}

/// Taking a handle raises the count of that actor by exactly one and
/// changes nothing else.
pub proof fn lemma_retained(counts: Seq<usize>, id: usize)
    requires
        id < counts.len(),
        0 < counts[id as int] < usize::MAX,
    ensures
        retained(counts, id).len() == counts.len(),
        retained(counts, id)[id as int] == counts[id as int] + 1,
        forall|other: int|
            0 <= other < counts.len() && other != id ==> retained(counts, id)[other]
                == counts[other],
{
}

/// While at least one strong handle is held, a non-owning reference
/// resolves, and what it resolves to names the very actor it was taken
/// from. Resolving changes nothing but the count of that actor, which
/// grows by exactly one, so the next attempt resolves to the same actor
/// again.
pub proof fn lemma_resolves_to_same_actor(before: ActorSystem, after: ActorSystem, handle: ActorRef)
    requires
        1 <= before.strong_of(handle.id) < usize::MAX,
        after@ == retained(before@, handle.id),
    ensures
        before.resolved(WeakRef { id: handle.id }) == Some(handle),
        after.strong_of(handle.id) == before.strong_of(handle.id) + 1,
        after@.len() == before@.len(),
        forall|other: usize| other != handle.id ==> after.strong_of(other) == before.strong_of(other),
        after.strong_of(handle.id) < usize::MAX ==> after.resolved(WeakRef { id: handle.id })
            == Some(handle),
{
}

/// A resolved handle keeps its actor: as long as no more handles are
/// dropped than were held before the resolution, the actor exists.
pub proof fn lemma_resolved_handle_keeps_alive(before: ActorSystem, after: ActorSystem, id: usize, drops: nat)
    requires
        0 < before.strong_of(id) < usize::MAX,
        drops <= before.strong_of(id),
        after@ == released_times(retained(before@, id), id, drops),
    ensures
        after.alive(id),
{
    lemma_released_times(retained(before@, id), id, drops);
}

/// Dropping handles one by one lowers the count by one each time until it
/// is zero, and touches no other actor.
pub proof fn lemma_released_times(counts: Seq<usize>, id: usize, drops: nat)
    ensures
        released_times(counts, id, drops).len() == counts.len(),
        forall|other: int|
            0 <= other < counts.len() && other != id ==> released_times(counts, id, drops)[other]
                == counts[other],
        id < counts.len() ==> released_times(counts, id, drops)[id as int] == if drops
            <= counts[id as int] {
            counts[id as int] - drops
        } else {
            0
        },
    decreases drops,
{
    if drops > 0 {
        lemma_released_times(counts, id, (drops - 1) as nat);
    }
}

/// Once every strong handle to an actor has been dropped, its non-owning
/// reference no longer resolves, and an attempt changes nothing.
pub proof fn lemma_unresolvable_after_last_drop(before: ActorSystem, after: ActorSystem, id: usize)
    requires
        after@ == released_times(before@, id, before.strong_of(id)),
    ensures
        !after.alive(id),
        after.resolved(WeakRef { id }) == None::<ActorRef>,
        retained(after@, id) == after@,
{
    lemma_released_times(before@, id, before.strong_of(id));
}

/// An actor that has ceased to exist does not come back: neither enrolling
/// another actor nor taking or dropping a handle makes its reference
/// resolve again.
pub proof fn lemma_stays_unresolvable(before: ActorSystem, after: ActorSystem, id: usize, other: usize)
    requires
        !before.alive(id),
        id < before@.len(),
        after@ == before@.push(1usize) || after@ == retained(before@, other) || after@ == released(
            before@,
            other,
        ),
    ensures
        !after.alive(id),
        after.resolved(WeakRef { id }) == None::<ActorRef>,
{
}

} // verus!
