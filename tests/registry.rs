use weldr::registry::{PushOutcome, Registry, SubscriptionHandle, MAX_IN_FLIGHT};

#[test]
fn new_registry_is_empty() {
    let r: Registry<u32> = Registry::new();
    assert_eq!(r.len(), 0);
    assert!(r.can_subscribe());
    assert!(!r.is_registered(0));
}

#[test]
fn subscriber_ids_count_up_from_zero() {
    let mut r: Registry<&str> = Registry::new();
    let a = r.subscribe("a");
    let b = r.subscribe("b");
    let c = r.subscribe("c");
    assert_eq!(a.id, 0);
    assert_eq!(b.id, 1);
    assert_eq!(c.id, 2);
    assert_eq!(r.len(), 3);
    assert_eq!(r.in_flight(1), Some(0));
    assert_eq!(r.connection(2), Some(&"c"));
}

#[test]
fn subscriber_ids_not_reused_after_revoke() {
    let mut r: Registry<u32> = Registry::new();
    let a = r.subscribe(10);
    let b = r.subscribe(11);
    assert!(r.revoke(&b));
    assert!(r.revoke(&a));
    let c = r.subscribe(12);
    assert_eq!(c.id, 2);
    assert!(c.id > b.id);
    assert_eq!(r.len(), 1);
}

#[test]
fn revoke_removes_only_its_entry() {
    let mut r: Registry<u32> = Registry::new();
    let a = r.subscribe(10);
    let b = r.subscribe(11);
    let c = r.subscribe(12);
    assert!(r.revoke(&b));
    assert_eq!(r.len(), 2);
    assert!(r.is_registered(a.id));
    assert!(!r.is_registered(b.id));
    assert!(r.is_registered(c.id));
    assert_eq!(r.connection(c.id), Some(&12));
}

#[test]
fn revoke_twice_is_a_no_op() {
    let mut r: Registry<u32> = Registry::new();
    let _a = r.subscribe(1);
    let b = r.subscribe(2);
    let before = r.len();
    let first = r.revoke(&b);
    let second = r.revoke(&b);
    assert!(first);
    assert!(!second);
    assert_eq!(r.len(), before - 1);
}

#[test]
fn revoke_unknown_handle_changes_nothing() {
    let mut r: Registry<u32> = Registry::new();
    r.subscribe(1);
    assert!(!r.revoke(&SubscriptionHandle { id: 42 }));
    assert_eq!(r.len(), 1);
}

#[test]
fn broadcast_pushes_to_every_subscriber_below_cap() {
    let mut r: Registry<u32> = Registry::new();
    let a = r.subscribe(1);
    let b = r.subscribe(2);
    let due = r.begin_broadcast();
    assert_eq!(due, vec![a.id, b.id]);
    assert_eq!(r.in_flight(a.id), Some(1));
    assert_eq!(r.in_flight(b.id), Some(1));
}

#[test]
fn saturated_subscriber_is_skipped() {
    let mut r: Registry<u32> = Registry::new();
    let busy = r.subscribe(1);
    for _ in 0..MAX_IN_FLIGHT {
        r.begin_broadcast();
    }
    assert_eq!(r.in_flight(busy.id), Some(5));
    let idle = r.subscribe(2);
    let due = r.begin_broadcast();
    assert_eq!(due, vec![idle.id]);
    assert_eq!(r.in_flight(busy.id), Some(5));
    assert_eq!(r.in_flight(idle.id), Some(1));
}

#[test]
fn saturated_subscriber_resumes_after_a_completion() {
    let mut r: Registry<u32> = Registry::new();
    let s = r.subscribe(1);
    for _ in 0..MAX_IN_FLIGHT {
        r.begin_broadcast();
    }
    assert!(r.begin_broadcast().is_empty());
    assert_eq!(r.complete_push(s.id, true), PushOutcome::Acknowledged);
    assert_eq!(r.in_flight(s.id), Some(4));
    assert_eq!(r.begin_broadcast(), vec![s.id]);
    assert_eq!(r.in_flight(s.id), Some(5));
}

#[test]
fn failed_push_evicts_subscriber() {
    let mut r: Registry<u32> = Registry::new();
    let dead = r.subscribe(1);
    let alive = r.subscribe(2);
    let due = r.begin_broadcast();
    assert_eq!(due.len(), 2);
    assert_eq!(r.complete_push(dead.id, false), PushOutcome::Evicted);
    assert_eq!(r.complete_push(alive.id, true), PushOutcome::Acknowledged);
    assert!(!r.is_registered(dead.id));
    assert_eq!(r.in_flight(dead.id), None);
    assert_eq!(r.begin_broadcast(), vec![alive.id]);
}

#[test]
fn completion_after_revoke_is_a_no_op() {
    let mut r: Registry<u32> = Registry::new();
    let a = r.subscribe(1);
    let b = r.subscribe(2);
    r.begin_broadcast();
    assert!(r.revoke(&a));
    assert_eq!(r.complete_push(a.id, true), PushOutcome::Gone);
    assert_eq!(r.complete_push(a.id, false), PushOutcome::Gone);
    assert_eq!(r.len(), 1);
    assert_eq!(r.in_flight(b.id), Some(1));
}

#[test]
fn acknowledgement_at_zero_stays_at_zero() {
    let mut r: Registry<u32> = Registry::new();
    let a = r.subscribe(1);
    assert_eq!(r.complete_push(a.id, true), PushOutcome::Acknowledged);
    assert_eq!(r.in_flight(a.id), Some(0));
}
