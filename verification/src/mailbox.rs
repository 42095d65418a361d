//! The FIFO queue of messages that every actor owns.

use std::collections::VecDeque;
use vstd::prelude::*;

use crate::message::{ActorRef, Message};

verus! {

/// An unbounded first-in first-out queue of messages.
pub struct Mailbox {
    queue: VecDeque<Message>,
}

impl View for Mailbox {
    type V = Seq<Message>;

    /// The queued messages, oldest first.
    closed spec fn view(&self) -> Seq<Message> {
        self.queue@
    }
}

/// The message that a `pop` on a mailbox holding `queue` returns.
pub open spec fn head(queue: Seq<Message>) -> Option<Message> {
    if queue.len() > 0 {
        Some(queue[0])
    } else {
        None
    }
}

/// What a mailbox holding `queue` holds after one `pop`.
pub open spec fn tail(queue: Seq<Message>) -> Seq<Message> {
    if queue.len() > 0 {
        queue.drop_first()
    } else {
        queue
    }
}

/// What a mailbox holding `queue` holds after `count` pops.
pub open spec fn after_pops(queue: Seq<Message>, count: nat) -> Seq<Message>
    decreases count,
{
    if count == 0 {
        queue
    } else {
        after_pops(tail(queue), (count - 1) as nat)
    }
}

/// What a mailbox holding `queue` holds after the messages of `pushed` have
/// been pushed one by one, first to last.
pub open spec fn after_pushes(queue: Seq<Message>, pushed: Seq<Message>) -> Seq<Message>
    decreases pushed.len(),
{
    if pushed.len() == 0 {
        queue
    } else {
        after_pushes(queue, pushed.drop_last()).push(pushed.last())
    }
}

/// Whether one of the messages of `queue` names `handle` as its sender.
pub open spec fn sent_by(queue: Seq<Message>, handle: ActorRef) -> bool {
    exists|k: int| 0 <= k < queue.len() && (#[trigger] queue[k]).sender == Some(handle)
}

/// The handles that the messages of `queue` hold to their senders, oldest
/// message first.
pub open spec fn senders(queue: Seq<Message>) -> Seq<ActorRef>
    decreases queue.len(),
{
    if queue.len() == 0 {
        Seq::empty()
    } else {
        match queue.last().sender {
            Some(sender) => senders(queue.drop_last()).push(sender),
            None => senders(queue.drop_last()),
        }
    }
}

impl Mailbox {
    /// An empty mailbox.
    pub fn new() -> (mailbox: Mailbox)
        ensures
            mailbox@ == Seq::<Message>::empty(),
    {
        Mailbox { queue: VecDeque::new() }
    }

    /// Appends `message` at the tail.
    pub fn push(&mut self, message: Message)
        ensures
            final(self)@ == old(self)@.push(message),
    {
        self.queue.push_back(message);
    }

    /// Removes and returns the message at the head, or `None` when the
    /// mailbox is empty.
    pub fn pop(&mut self) -> (message: Option<Message>)
        ensures
            message == head(old(self)@),
            final(self)@ == tail(old(self)@),
    {
        let message = self.queue.pop_front();
        proof {
            if old(self)@.len() > 0 {
                assert(old(self)@.subrange(1, old(self)@.len() as int) == old(self)@.drop_first());
            }
        }
        message
    }

    /// The number of queued messages.
    pub fn len(&self) -> (len: usize)
        ensures
            len == self@.len(),
    {
        self.queue.len()
    }

    /// Whether a queued message names `handle` as its sender.
    pub fn names_sender(&self, handle: &ActorRef) -> (found: bool)
        ensures
            found == sent_by(self@, *handle),
    {
        let mut i: usize = 0;
        while i < self.queue.len()
            invariant
                i <= self.queue@.len(),
                forall|k: int| 0 <= k < i ==> (#[trigger] self.queue@[k]).sender != Some(*handle),
            decreases self.queue@.len() - i,
        {
            let hit = match self.queue[i].sender {
                Some(sender) => sender.id == handle.id,
                None => false,
            };
            if hit {
                return true;
            }
            i += 1;
        }
        false
    }

    /// The handles that the queued messages hold to their senders, oldest
    /// message first.
    pub fn senders(&self) -> (handles: Vec<ActorRef>)
        ensures
            handles@ == senders(self@),
    {
        let mut handles: Vec<ActorRef> = Vec::new();
        let mut i: usize = 0;
        while i < self.queue.len()
            invariant
                i <= self.queue@.len(),
                handles@ == senders(self.queue@.take(i as int)),
            decreases self.queue@.len() - i,
        {
            proof {
                assert(self.queue@.take(i + 1).drop_last() == self.queue@.take(i as int));
                assert(self.queue@.take(i + 1).last() == self.queue@[i as int]);
            }
            match self.queue[i].sender {
                Some(sender) => handles.push(sender),
                None => {},
            }
            i += 1;
        }
        proof {
            assert(self.queue@.take(self.queue@.len() as int) == self.queue@);
        }
        handles
    }

    /// Whether no message is queued.
    pub fn is_empty(&self) -> (empty: bool)
        ensures
            empty == (self@.len() == 0),
    {
        self.queue.len() == 0
    }
}

/// Pushing one by one is appending.
pub proof fn lemma_pushes_append(queue: Seq<Message>, pushed: Seq<Message>)
    ensures
        after_pushes(queue, pushed) == queue + pushed,
    decreases pushed.len(),
{
    if pushed.len() > 0 {
        lemma_pushes_append(queue, pushed.drop_last());
        assert(queue + pushed == (queue + pushed.drop_last()).push(pushed.last()));
    } else {
        assert(queue + pushed == queue);
    }
}

/// Popping `count` times removes the `count` oldest messages, or all of
/// them when fewer are queued.
pub proof fn lemma_pops_skip(queue: Seq<Message>, count: nat)
    ensures
        after_pops(queue, count) == if count <= queue.len() {
            queue.skip(count as int)
        } else {
            Seq::<Message>::empty()
        },
    decreases count,
{
    if count == 0 {
        assert(queue.skip(0) == queue);
    } else {
        lemma_pops_skip(tail(queue), (count - 1) as nat);
        if queue.len() > 0 {
            if count <= queue.len() {
                assert(queue.drop_first().skip(count - 1) == queue.skip(count as int));
            }
        }
    }
}

/// First in, first out: after the messages of `pushed` have been pushed
/// into an empty mailbox, the pop number `k` (counted from 0) returns
/// `pushed[k]`, and the pop after the last of them finds the mailbox empty.
pub proof fn lemma_fifo(pushed: Seq<Message>)
    ensures
        forall|k: nat|
            k < pushed.len() ==> head(
                #[trigger] after_pops(after_pushes(Seq::<Message>::empty(), pushed), k),
            ) == Some(pushed[k as int]),
        after_pops(after_pushes(Seq::<Message>::empty(), pushed), pushed.len()).len() == 0,
        head(after_pops(after_pushes(Seq::<Message>::empty(), pushed), pushed.len())) == None::<
            Message,
        >,
{
    let filled = after_pushes(Seq::<Message>::empty(), pushed);
    lemma_pushes_append(Seq::<Message>::empty(), pushed);
    assert(filled == pushed);
    assert forall|k: nat| k < pushed.len() implies head(#[trigger] after_pops(filled, k)) == Some(
        pushed[k as int],
    ) by {
        lemma_pops_skip(filled, k);
    }
    lemma_pops_skip(filled, pushed.len());
}

/// Receiving loses and duplicates nothing. Each `receive` of an actor is one
/// push, and callers that receive at the same time are served one after the
/// other, so that their messages arrive in some order `arrivals`. After all
/// of them the mailbox holds what it held before, still at its head and in
/// its order, followed by every arrival exactly once and whole.
pub proof fn lemma_every_arrival_once(queue: Seq<Message>, arrivals: Seq<Message>)
    ensures
        after_pushes(queue, arrivals).len() == queue.len() + arrivals.len(),
        after_pushes(queue, arrivals).take(queue.len() as int) == queue,
        after_pushes(queue, arrivals).skip(queue.len() as int) == arrivals,
        after_pushes(queue, arrivals).to_multiset() == queue.to_multiset().add(
            arrivals.to_multiset(),
        ),
{
    lemma_pushes_append(queue, arrivals);
    assert((queue + arrivals).take(queue.len() as int) == queue);
    assert((queue + arrivals).skip(queue.len() as int) == arrivals);
    vstd::seq_lib::lemma_multiset_commutative(queue, arrivals);
}

/// The order in which messages arrive does not decide which messages the
/// mailbox holds: two orders of the same arrivals leave the same messages,
/// each as often as it arrived.
pub proof fn lemma_arrival_order_is_irrelevant(
    queue: Seq<Message>,
    arrivals: Seq<Message>,
    reordered: Seq<Message>,
)
    requires
        reordered.to_multiset() == arrivals.to_multiset(),
    ensures
        after_pushes(queue, reordered).to_multiset() == after_pushes(queue, arrivals).to_multiset(),
        after_pushes(queue, reordered).len() == after_pushes(queue, arrivals).len(),
{
    lemma_every_arrival_once(queue, arrivals);
    lemma_every_arrival_once(queue, reordered);
    arrivals.to_multiset_ensures();
    reordered.to_multiset_ensures();
}

/// As many dispatch steps as messages arrived take every message exactly
/// once. Each dispatch step of an actor is one pop: step `i` takes the
/// entry at position `i` of the mailbox, a later step continues where an
/// earlier one stopped, so that two different steps take two different
/// entries and none is skipped, and the mailbox is empty after the last
/// step.
pub proof fn lemma_every_message_dispatched_once(arrived: Seq<Message>)
    ensures
        forall|i: nat|
            i < arrived.len() ==> {
                &&& (#[trigger] after_pops(arrived, i)).len() == arrived.len() - i
                &&& head(after_pops(arrived, i)) == Some(arrived[i as int])
            },
        forall|i: nat, j: nat|
            i < j < arrived.len() ==> (#[trigger] after_pops(arrived, j)) == after_pops(
                #[trigger] after_pops(arrived, i),
                (j - i) as nat,
            ),
        after_pops(arrived, arrived.len()) == Seq::<Message>::empty(),
        Seq::new(arrived.len(), |i: int| head(after_pops(arrived, i as nat))->0) == arrived,
{
    assert forall|i: nat| i < arrived.len() implies {
        &&& (#[trigger] after_pops(arrived, i)).len() == arrived.len() - i
        &&& head(after_pops(arrived, i)) == Some(arrived[i as int])
    } by {
        lemma_pops_skip(arrived, i);
    }
    assert forall|i: nat, j: nat| i < j < arrived.len() implies (#[trigger] after_pops(arrived, j))
        == after_pops(#[trigger] after_pops(arrived, i), (j - i) as nat) by {
        lemma_pops_skip(arrived, i);
        lemma_pops_skip(arrived, j);
        lemma_pops_skip(arrived.skip(i as int), (j - i) as nat);
        assert(arrived.skip(i as int).skip(j - i) == arrived.skip(j as int));
    }
    lemma_pops_skip(arrived, arrived.len());
    assert(arrived.skip(arrived.len() as int) == Seq::<Message>::empty());
    assert(Seq::new(arrived.len(), |i: int| head(after_pops(arrived, i as nat))->0) == arrived);
}

} // verus!
