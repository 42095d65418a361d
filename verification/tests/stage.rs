use actors::actor::{Actor, Event};
use actors::message::{ActorRef, Datum, Envelope, Message, Payload};
use actors::sample_actors::{Counter, Printer, SampleActor};
use actors::stage::Stage;
use actors::system::ActorSystem;

fn text(value: &str, sender: Option<ActorRef>) -> Message {
    Message { payload: Payload::Data(Datum::Text(String::from(value))), sender }
}

fn number(value: u32, sender: Option<ActorRef>) -> Message {
    Message { payload: Payload::Data(Datum::Number(value)), sender }
}

fn name_of(stage: &Stage<SampleActor>, actor: &ActorRef) -> Option<String> {
    stage.lookup(actor).map(|resident| String::from(resident.label()))
}

fn count_of(stage: &Stage<SampleActor>, actor: &ActorRef) -> usize {
    stage.actor_system().strong_count(actor)
}

/// Dispatches `actor` until its mailbox is empty and returns, for each
/// message, what the actor said after it took the message.
fn waiting(stage: &mut Stage<SampleActor>, actor: &ActorRef) -> Vec<Event> {
    let mut seen = Vec::new();
    while stage.pending(actor) > 0 {
        let mut outcome = stage.dispatch_one(actor);
        seen.push(outcome.events.remove(1));
    }
    seen
}

#[test]
fn construct_returns_a_bound_handle() {
    let mut stage: Stage<SampleActor> = Stage::new();
    let printer = Printer::new(String::from("printer"), &mut stage, Vec::new());
    let counter = Counter::new(String::from("counter"), &mut stage, vec![printer]);
    assert_eq!(printer, ActorRef { id: 0 });
    assert_eq!(counter, ActorRef { id: 1 });
    assert_eq!(name_of(&stage, &printer), Some(String::from("printer")));
    assert_eq!(name_of(&stage, &counter), Some(String::from("counter")));
    assert_eq!(stage.lookup(&printer).unwrap().known_actors(), &Vec::<ActorRef>::new());
    assert_eq!(stage.lookup(&counter).unwrap().known_actors(), &vec![printer]);
    assert_eq!(stage.lookup(&printer).unwrap().myself(), Some(printer.downgrade()));
    assert_eq!(stage.lookup(&counter).unwrap().myself(), Some(counter.downgrade()));
    assert_eq!(stage.pending(&printer), 0);
    assert_eq!(stage.pending(&counter), 0);
    assert_eq!(stage.actor_system().enrolled(), 2);
}

#[test]
fn construct_takes_a_handle_to_each_known_actor() {
    let mut stage: Stage<SampleActor> = Stage::new();
    let first = Printer::new(String::from("first"), &mut stage, Vec::new());
    let second = Printer::new(String::from("second"), &mut stage, Vec::new());
    assert_eq!(count_of(&stage, &first), 1);
    let third = Counter::new(String::from("third"), &mut stage, vec![first, second, first]);
    assert_eq!(count_of(&stage, &first), 3);
    assert_eq!(count_of(&stage, &second), 2);
    assert_eq!(count_of(&stage, &third), 1);
    assert!(stage.is_referenced(&first));
    assert!(stage.is_referenced(&second));
    assert!(!stage.is_referenced(&third));
}

#[test]
fn self_reference_resolves_to_the_same_actor_every_time() {
    let mut stage: Stage<SampleActor> = Stage::new();
    let _first = Printer::new(String::from("first"), &mut stage, Vec::new());
    let second = Counter::new(String::from("second"), &mut stage, Vec::new());
    for round in 0..5 {
        assert_eq!(count_of(&stage, &second), 1 + 2 * round);
        assert_eq!(stage.actor_ref(&second), second);
        assert_eq!(stage.resolve(&second), Some(second));
    }
    assert_eq!(count_of(&stage, &second), 11);
    for _ in 0..10 {
        assert!(stage.release(&second).is_none());
    }
    assert_eq!(count_of(&stage, &second), 1);
}

#[test]
fn resolution_changes_nothing_but_the_count() {
    let mut stage: Stage<SampleActor> = Stage::new();
    let other = Printer::new(String::from("other"), &mut stage, Vec::new());
    let actor = Counter::new(String::from("actor"), &mut stage, vec![other]);
    assert!(stage.receive(&actor, number(1, Some(other))));
    assert_eq!(count_of(&stage, &other), 3);
    assert_eq!(stage.actor_ref(&actor), actor);
    assert_eq!(count_of(&stage, &actor), 2);
    assert_eq!(count_of(&stage, &other), 3);
    assert_eq!(stage.pending(&actor), 1);
    assert_eq!(name_of(&stage, &actor), Some(String::from("actor")));
    assert_eq!(stage.lookup(&actor).unwrap().known_actors(), &vec![other]);
    assert_eq!(stage.lookup(&actor).unwrap().myself(), Some(actor.downgrade()));
    assert_eq!(stage.lookup(&actor).unwrap().handles(), vec![other, other]);
}

#[test]
fn a_resolved_handle_keeps_the_actor_on_the_stage() {
    let mut stage: Stage<SampleActor> = Stage::new();
    let actor = Printer::new(String::from("actor"), &mut stage, Vec::new());
    let resolved = stage.actor_ref(&actor);
    assert!(stage.release(&actor).is_none());
    assert!(stage.lookup(&resolved).is_some());
    assert!(stage.receive(&resolved, text("still here", None)));
    assert_eq!(stage.pending(&actor), 1);
    let retired = stage.release(&resolved).unwrap();
    assert_eq!(retired.pending(), 1);
    assert!(stage.lookup(&actor).is_none());
}

#[test]
fn self_reference_fails_after_all_handles_are_dropped() {
    let mut stage: Stage<SampleActor> = Stage::new();
    let actor = Printer::new(String::from("short-lived"), &mut stage, Vec::new());
    assert_eq!(stage.retain(&actor), Some(actor));
    assert!(stage.release(&actor).is_none());
    let retired = stage.release(&actor);
    assert!(retired.is_some());
    assert_eq!(stage.resolve(&actor), None);
    assert_eq!(stage.resolve(&actor), None);
    assert_eq!(count_of(&stage, &actor), 0);
    assert!(stage.lookup(&actor).is_none());
    assert_eq!(stage.pending(&actor), 0);
    assert_eq!(stage.retain(&actor), None);
    assert!(stage.release(&actor).is_none());
    let mut system = ActorSystem::new();
    assert_eq!(retired.unwrap().resolve(&mut system), None);
}

#[test]
fn released_actor_is_handed_back_with_what_it_holds() {
    let mut stage: Stage<SampleActor> = Stage::new();
    let friend = Printer::new(String::from("friend"), &mut stage, Vec::new());
    let actor = Counter::new(String::from("counter"), &mut stage, vec![friend]);
    assert!(stage.receive(&actor, number(2, Some(friend))));
    assert!(stage.receive(&actor, Message::anonymous(Payload::Command)));
    assert_eq!(count_of(&stage, &friend), 3);
    let retired = stage.release(&actor).unwrap();
    assert_eq!(retired.label(), "counter");
    assert_eq!(retired.pending(), 2);
    assert_eq!(retired.handles(), vec![friend, friend]);
    assert!(!stage.is_referenced(&friend));
    for handle in retired.handles() {
        assert!(stage.release(&handle).is_none());
    }
    assert_eq!(count_of(&stage, &friend), 1);
}

#[test]
fn the_last_handle_is_not_given_back_while_the_actor_is_known() {
    let mut stage: Stage<SampleActor> = Stage::new();
    let known = Printer::new(String::from("known"), &mut stage, Vec::new());
    let holder = Counter::new(String::from("holder"), &mut stage, vec![known]);
    assert_eq!(count_of(&stage, &known), 2);
    assert!(stage.release(&known).is_none());
    assert_eq!(count_of(&stage, &known), 1);
    assert!(stage.release(&known).is_none());
    assert_eq!(count_of(&stage, &known), 1);
    assert!(stage.lookup(&known).is_some());
    stage.send_to_first(&holder, Payload::Command);
    assert_eq!(stage.pending(&known), 1);
    assert_eq!(count_of(&stage, &holder), 2);
    assert!(stage.release(&holder).is_none());
    assert!(stage.release(&holder).is_none());
    assert_eq!(count_of(&stage, &holder), 1);
    let outcome = stage.dispatch_one(&known);
    assert_eq!(outcome.events, vec![Event::Treating, Event::ReceivedCommand]);
    let retired = outcome.retired.unwrap();
    assert_eq!(retired.label(), "holder");
    assert_eq!(retired.handles(), vec![known]);
    assert!(stage.lookup(&holder).is_none());
    assert!(!stage.is_referenced(&known));
    assert_eq!(count_of(&stage, &known), 1);
    let last = stage.release(&known).unwrap();
    assert_eq!(last.label(), "known");
    assert_eq!(count_of(&stage, &known), 0);
}

#[test]
fn message_to_a_missing_actor_is_discarded() {
    let mut stage: Stage<SampleActor> = Stage::new();
    let alive = Printer::new(String::from("alive"), &mut stage, Vec::new());
    let gone = Printer::new(String::from("gone"), &mut stage, Vec::new());
    assert!(stage.release(&gone).is_some());
    assert!(!stage.receive(&gone, number(1, None)));
    assert!(!stage.receive(&gone, number(1, Some(alive))));
    assert!(!stage.send(&alive, gone, Payload::Command));
    assert!(!stage.receive(&ActorRef { id: 17 }, number(1, None)));
    assert_eq!(stage.pending(&gone), 0);
    assert_eq!(stage.pending(&alive), 0);
    assert_eq!(count_of(&stage, &alive), 1);
}

#[test]
fn message_from_a_missing_sender_is_not_accepted() {
    let mut stage: Stage<SampleActor> = Stage::new();
    let alive = Printer::new(String::from("alive"), &mut stage, Vec::new());
    let gone = Printer::new(String::from("gone"), &mut stage, Vec::new());
    assert!(stage.release(&gone).is_some());
    assert!(!stage.receive(&alive, text("from nobody", Some(gone))));
    assert!(!stage.receive(&alive, text("from nobody", Some(ActorRef { id: 17 }))));
    assert_eq!(stage.pending(&alive), 0);
    assert!(stage.receive(&alive, text("from somebody", Some(alive))));
    assert_eq!(stage.pending(&alive), 1);
}

#[test]
fn send_enqueues_with_the_sender_set() {
    let mut stage: Stage<SampleActor> = Stage::new();
    let printer = Printer::new(String::from("printer"), &mut stage, Vec::new());
    let counter = Counter::new(String::from("counter"), &mut stage, Vec::new());
    assert!(stage.send(&counter, printer, Payload::Data(Datum::Text(String::from("hi")))));
    assert_eq!(stage.pending(&printer), 1);
    assert_eq!(stage.pending(&counter), 0);
    assert_eq!(count_of(&stage, &counter), 2);
    assert_eq!(count_of(&stage, &printer), 1);
    assert!(stage.is_referenced(&counter));
    let outcome = stage.dispatch_one(&printer);
    assert_eq!(outcome.events, vec![Event::Treating, Event::ReceivedText(String::from("hi"))]);
    assert!(outcome.retired.is_none());
    assert_eq!(stage.pending(&printer), 0);
    assert_eq!(stage.pending(&counter), 1);
    assert_eq!(count_of(&stage, &counter), 1);
    assert_eq!(count_of(&stage, &printer), 2);
    let outcome = stage.dispatch_one(&counter);
    assert_eq!(outcome.events, vec![Event::Treating, Event::ReceivedAck]);
    assert!(outcome.retired.is_none());
    assert_eq!(stage.pending(&counter), 0);
    assert_eq!(count_of(&stage, &printer), 1);
    assert_eq!(count_of(&stage, &counter), 1);
}

#[test]
fn a_waiting_message_keeps_its_sender_on_the_stage() {
    let mut stage: Stage<SampleActor> = Stage::new();
    let printer = Printer::new(String::from("printer"), &mut stage, Vec::new());
    let sender = Counter::new(String::from("sender"), &mut stage, Vec::new());
    assert!(stage.send(&sender, printer, Payload::Data(Datum::Text(String::from("bye")))));
    assert!(stage.release(&sender).is_none());
    assert!(stage.lookup(&sender).is_some());
    assert_eq!(count_of(&stage, &sender), 1);
    assert!(stage.release(&sender).is_none());
    assert_eq!(count_of(&stage, &sender), 1);
    let outcome = stage.dispatch_one(&printer);
    assert_eq!(outcome.events, vec![Event::Treating, Event::ReceivedText(String::from("bye"))]);
    let retired = outcome.retired.unwrap();
    assert_eq!(retired.label(), "sender");
    assert_eq!(retired.pending(), 1);
    assert_eq!(retired.handles(), vec![printer]);
    assert!(stage.lookup(&sender).is_none());
    assert_eq!(count_of(&stage, &printer), 2);
    assert!(stage.release(&printer).is_none());
    assert_eq!(count_of(&stage, &printer), 1);
    match retired {
        SampleActor::Counter(mut counter) => {
            let mut system = ActorSystem::new();
            system.enroll();
            system.enroll();
            let dispatch = counter.handle_message(&system);
            assert_eq!(dispatch.events, vec![Event::Treating, Event::ReceivedAck]);
            assert_eq!(dispatch.spent, Some(printer));
        },
        SampleActor::Printer(_) => panic!("a counter was constructed"),
    }
}

#[test]
fn command_to_known_printer_is_not_answered() {
    let mut stage: Stage<SampleActor> = Stage::new();
    let a = Printer::new(String::from("a"), &mut stage, Vec::new());
    let b = Counter::new(String::from("b"), &mut stage, vec![a]);
    stage.send_to_known(&b, 0, Payload::Command);
    assert_eq!(stage.pending(&a), 1);
    assert_eq!(stage.pending(&b), 0);
    assert_eq!(stage.lookup(&a).unwrap().handles(), vec![b]);
    assert_eq!(count_of(&stage, &b), 2);
    let outcome = stage.dispatch_one(&a);
    assert_eq!(outcome.events, vec![Event::Treating, Event::ReceivedCommand]);
    assert!(outcome.retired.is_none());
    assert_eq!(stage.pending(&a), 0);
    assert_eq!(stage.pending(&b), 0);
    assert_eq!(count_of(&stage, &a), 2);
    assert_eq!(count_of(&stage, &b), 1);
}

#[test]
fn command_in_the_mailbox_carries_the_sending_actor() {
    let mut system = ActorSystem::new();
    let a = system.enroll();
    let b = system.enroll();
    let mut printer = Printer::detached(String::from("a"), Vec::new());
    printer.init(&a);
    let mut other = Counter::detached(String::from("b"), vec![a]);
    other.init(&b);
    let envelope = other.send_to_known(&system, 0, Payload::Command);
    assert_eq!(
        envelope,
        Envelope { target: a, message: Message { payload: Payload::Command, sender: Some(b) } }
    );
    printer.receive(envelope.message);
    assert_eq!(printer.pending(), 1);
    assert!(printer.holds(&b));
    let dispatch = printer.handle_message(&system);
    assert_eq!(dispatch.events, vec![Event::Treating, Event::ReceivedCommand]);
    assert_eq!(dispatch.outgoing, Vec::<Envelope>::new());
    assert_eq!(dispatch.spent, Some(b));
    assert_eq!(printer.pending(), 0);
    assert_eq!(other.pending(), 0);
}

#[test]
fn counter_counts_and_acknowledges_once() {
    let mut stage: Stage<SampleActor> = Stage::new();
    let c = Counter::new(String::from("c"), &mut stage, Vec::new());
    let d = Printer::new(String::from("d"), &mut stage, Vec::new());
    assert!(stage.receive(&c, number(3, Some(d))));
    assert_eq!(count_of(&stage, &d), 2);
    let outcome = stage.dispatch_one(&c);
    assert_eq!(
        outcome.events,
        vec![
            Event::Treating,
            Event::ReceivedNumber(3),
            Event::Counted(0),
            Event::Counted(1),
            Event::Counted(2),
        ]
    );
    assert!(outcome.retired.is_none());
    assert_eq!(stage.pending(&c), 0);
    assert_eq!(stage.pending(&d), 1);
    assert_eq!(stage.lookup(&d).unwrap().handles(), vec![c]);
    assert_eq!(count_of(&stage, &d), 1);
    assert_eq!(count_of(&stage, &c), 2);
    assert_eq!(waiting(&mut stage, &d), vec![Event::ReceivedAck]);
    assert_eq!(count_of(&stage, &c), 1);
}

#[test]
fn understood_value_without_sender_gets_no_reply() {
    let mut stage: Stage<SampleActor> = Stage::new();
    let printer = Printer::new(String::from("printer"), &mut stage, Vec::new());
    let other = Counter::new(String::from("other"), &mut stage, Vec::new());
    assert!(stage.receive(&printer, text("quiet", None)));
    let outcome = stage.dispatch_one(&printer);
    assert_eq!(
        outcome.events,
        vec![Event::Treating, Event::ReceivedText(String::from("quiet"))]
    );
    assert_eq!(stage.pending(&printer), 0);
    assert_eq!(stage.pending(&other), 0);
    assert_eq!(count_of(&stage, &printer), 1);
    assert_eq!(count_of(&stage, &other), 1);
}

#[test]
fn unexpected_value_changes_nothing_and_gets_no_reply() {
    let mut stage: Stage<SampleActor> = Stage::new();
    let printer = Printer::new(String::from("printer"), &mut stage, Vec::new());
    let counter = Counter::new(String::from("counter"), &mut stage, vec![printer]);
    assert!(stage.receive(&printer, number(5, Some(counter))));
    assert!(stage.receive(&printer, number(6, None)));
    assert!(stage.receive(&counter, text("five", Some(printer))));
    assert_eq!(count_of(&stage, &printer), 3);
    assert_eq!(count_of(&stage, &counter), 2);
    assert_eq!(stage.dispatch_one(&printer).events, vec![Event::Treating, Event::Dropped]);
    assert_eq!(stage.dispatch_one(&printer).events, vec![Event::Treating, Event::Dropped]);
    assert_eq!(stage.dispatch_one(&counter).events, vec![Event::Treating, Event::Dropped]);
    assert_eq!(stage.pending(&printer), 0);
    assert_eq!(stage.pending(&counter), 0);
    assert_eq!(name_of(&stage, &printer), Some(String::from("printer")));
    assert_eq!(name_of(&stage, &counter), Some(String::from("counter")));
    assert_eq!(stage.lookup(&counter).unwrap().known_actors(), &vec![printer]);
    assert_eq!(count_of(&stage, &printer), 2);
    assert_eq!(count_of(&stage, &counter), 1);
    stage.send_to_first(&counter, Payload::Ack);
    assert_eq!(stage.pending(&printer), 1);
}

#[test]
fn acknowledgement_to_oneself_lands_in_the_own_mailbox() {
    let mut stage: Stage<SampleActor> = Stage::new();
    let printer = Printer::new(String::from("printer"), &mut stage, Vec::new());
    assert!(stage.receive(&printer, text("first", Some(printer))));
    assert!(stage.receive(&printer, Message::anonymous(Payload::Command)));
    let outcome = stage.dispatch_one(&printer);
    assert_eq!(
        outcome.events,
        vec![Event::Treating, Event::ReceivedText(String::from("first"))]
    );
    assert!(outcome.retired.is_none());
    assert_eq!(stage.pending(&printer), 2);
    assert_eq!(count_of(&stage, &printer), 2);
    assert_eq!(
        waiting(&mut stage, &printer),
        vec![Event::ReceivedCommand, Event::ReceivedAck]
    );
    assert_eq!(count_of(&stage, &printer), 1);
}

#[test]
fn deliver_all_keeps_the_order_per_mailbox() {
    let mut stage: Stage<SampleActor> = Stage::new();
    let first = Printer::new(String::from("first"), &mut stage, Vec::new());
    let second = Printer::new(String::from("second"), &mut stage, Vec::new());
    stage.deliver_all(vec![
        Envelope { target: first, message: Message::anonymous(Payload::Command) },
        Envelope { target: second, message: Message::from_actor(Payload::Ack, first) },
        Envelope { target: ActorRef { id: 9 }, message: Message::from_actor(Payload::Ack, first) },
        Envelope { target: first, message: Message::anonymous(Payload::Ack) },
        Envelope { target: second, message: Message::anonymous(Payload::Command) },
    ]);
    assert_eq!(stage.pending(&first), 2);
    assert_eq!(stage.pending(&second), 2);
    assert_eq!(count_of(&stage, &first), 2);
    assert_eq!(waiting(&mut stage, &first), vec![Event::ReceivedCommand, Event::ReceivedAck]);
    assert_eq!(waiting(&mut stage, &second), vec![Event::ReceivedAck, Event::ReceivedCommand]);
    assert_eq!(count_of(&stage, &first), 1);
    assert!(stage.deliver(Envelope { target: first, message: Message::anonymous(Payload::Ack) }));
    assert_eq!(stage.pending(&first), 1);
}

#[test]
fn every_received_message_is_dispatched_exactly_once() {
    let mut stage: Stage<SampleActor> = Stage::new();
    let counter = Counter::new(String::from("counter"), &mut stage, Vec::new());
    let count = 40u32;
    let order: Vec<u32> = (0..count).map(|n| (n * 7) % count).collect();
    for &n in &order {
        assert!(stage.receive(&counter, number(n, None)));
    }
    assert_eq!(stage.pending(&counter), count as usize);
    let mut seen = vec![0u32; count as usize];
    for &n in &order {
        let outcome = stage.dispatch_one(&counter);
        assert_eq!(outcome.events[1], Event::ReceivedNumber(n));
        assert_eq!(outcome.events.len(), 2 + n as usize);
        seen[n as usize] += 1;
    }
    assert_eq!(seen, vec![1u32; count as usize]);
    assert_eq!(stage.pending(&counter), 0);
}

#[test]
fn a_stage_of_one_behavior_works_alike() {
    let mut stage: Stage<Counter> = Stage::new();
    let first = stage.construct(Counter::detached(String::from("first"), Vec::new()));
    let second = stage.construct(Counter::detached(String::from("second"), vec![first]));
    stage.send_to_first(&second, Payload::Data(Datum::Number(2)));
    assert_eq!(
        stage.dispatch_one(&first).events,
        vec![Event::Treating, Event::ReceivedNumber(2), Event::Counted(0), Event::Counted(1)]
    );
    assert_eq!(stage.dispatch_one(&second).events, vec![Event::Treating, Event::ReceivedAck]);
    assert_eq!(stage.pending(&first), 0);
    assert_eq!(stage.pending(&second), 0);
    assert_eq!(stage.actor_system().strong_count(&first), 2);
    assert_eq!(stage.actor_system().strong_count(&second), 1);
}
