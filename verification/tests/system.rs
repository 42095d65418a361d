use actors::message::{ActorRef, WeakRef};
use actors::system::ActorSystem;

#[test]
fn enroll_hands_out_consecutive_identities() {
    let mut system = ActorSystem::new();
    assert_eq!(system.enrolled(), 0);
    let first = system.enroll();
    let second = system.enroll();
    assert_eq!(first, ActorRef { id: 0 });
    assert_eq!(second, ActorRef { id: 1 });
    assert_eq!(system.enrolled(), 2);
    assert_eq!(system.strong_count(&first), 1);
    assert_eq!(system.strong_count(&second), 1);
    assert!(system.is_alive(&first));
}

#[test]
fn unknown_identity_is_not_alive() {
    let mut system = ActorSystem::new();
    let stranger = ActorRef { id: 5 };
    assert!(!system.is_alive(&stranger));
    assert_eq!(system.strong_count(&stranger), 0);
    assert_eq!(system.upgrade(&WeakRef { id: 5 }), None);
    assert_eq!(system.strong_count(&stranger), 0);
    assert_eq!(system.enrolled(), 0);
}

#[test]
fn upgrade_returns_the_same_actor_every_time() {
    let mut system = ActorSystem::new();
    let other = system.enroll();
    let handle = system.enroll();
    let weak = handle.downgrade();
    for taken in 0..10 {
        assert_eq!(system.strong_count(&handle), 1 + taken);
        assert_eq!(system.upgrade(&weak), Some(handle));
    }
    assert_eq!(system.strong_count(&handle), 11);
    assert_eq!(system.strong_count(&other), 1);
    assert_eq!(system.enrolled(), 2);
}

#[test]
fn upgrade_takes_exactly_one_handle() {
    let mut system = ActorSystem::new();
    let handle = system.enroll();
    assert_eq!(system.upgrade(&handle.downgrade()), Some(handle));
    assert_eq!(system.strong_count(&handle), 2);
    assert!(!system.release(&handle));
    assert_eq!(system.strong_count(&handle), 1);
}

#[test]
fn a_resolved_handle_keeps_the_actor_alive() {
    let mut system = ActorSystem::new();
    let first = system.enroll();
    let resolved = system.upgrade(&first.downgrade()).unwrap();
    assert!(!system.release(&first));
    assert!(system.is_alive(&resolved));
    assert_eq!(system.strong_count(&resolved), 1);
    assert!(system.release(&resolved));
    assert!(!system.is_alive(&resolved));
}

#[test]
fn retain_and_release_count_handles() {
    let mut system = ActorSystem::new();
    let handle = system.enroll();
    assert_eq!(system.retain(&handle), Some(handle));
    assert_eq!(system.retain(&handle), Some(handle));
    assert_eq!(system.strong_count(&handle), 3);
    assert!(!system.release(&handle));
    assert!(!system.release(&handle));
    assert_eq!(system.strong_count(&handle), 1);
    assert!(system.release(&handle));
    assert_eq!(system.strong_count(&handle), 0);
    assert!(!system.is_alive(&handle));
}

#[test]
fn upgrade_fails_after_the_last_handle_is_dropped() {
    let mut system = ActorSystem::new();
    let handle = system.enroll();
    let weak = handle.downgrade();
    assert!(system.release(&handle));
    assert_eq!(system.upgrade(&weak), None);
    assert_eq!(system.upgrade(&weak), None);
    assert_eq!(system.strong_count(&handle), 0);
}

#[test]
fn a_dead_actor_stays_dead() {
    let mut system = ActorSystem::new();
    let handle = system.enroll();
    assert!(system.release(&handle));
    assert_eq!(system.retain(&handle), None);
    assert!(!system.release(&handle));
    let later = system.enroll();
    assert_eq!(later, ActorRef { id: 1 });
    assert_eq!(system.strong_count(&handle), 0);
    assert_eq!(system.upgrade(&handle.downgrade()), None);
    assert_eq!(system.upgrade(&later.downgrade()), Some(later));
    assert_eq!(system.strong_count(&later), 2);
}

#[test]
fn release_touches_no_other_actor() {
    let mut system = ActorSystem::new();
    let first = system.enroll();
    let second = system.enroll();
    assert_eq!(system.retain(&second), Some(second));
    assert!(system.release(&first));
    assert_eq!(system.strong_count(&second), 2);
    assert!(system.is_alive(&second));
}

#[test]
fn retain_of_an_unknown_identity_changes_nothing() {
    let mut system = ActorSystem::new();
    let handle = system.enroll();
    assert_eq!(system.retain(&ActorRef { id: 9 }), None);
    assert!(!system.release(&ActorRef { id: 9 }));
    assert_eq!(system.enrolled(), 1);
    assert_eq!(system.strong_count(&handle), 1);
}
