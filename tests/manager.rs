use weldr::manager::{weldr_path, Manager, Worker, WorkerLaunch};
use weldr::pool::BackendPool;
use weldr::registry::PushOutcome;
use weldr::wire::{encode, BackendChangeEvent};

fn launch(count: u64) -> Manager<usize> {
    let mut l = WorkerLaunch::new(count);
    let mut pid: i32 = 100;
    while let Some(_id) = l.next_id() {
        l.started_as(pid);
        pid += 1;
    }
    l.finish()
}

#[test]
fn worker_path_default() {
    assert_eq!(weldr_path(), "weldr");
}

#[test]
fn launch_gives_sequential_ids() {
    let mut l = WorkerLaunch::new(3);
    assert_eq!(l.next_id(), Some(0));
    assert_eq!(l.started_as(40), Worker { id: 0, pid: 40 });
    assert_eq!(l.next_id(), Some(1));
    assert_eq!(l.started_as(41), Worker { id: 1, pid: 41 });
    assert_eq!(l.started_as(42), Worker { id: 2, pid: 42 });
    assert_eq!(l.next_id(), None);
    let m: Manager<u8> = l.finish();
    assert_eq!(
        m.workers_started(),
        &vec![Worker { id: 0, pid: 40 }, Worker { id: 1, pid: 41 }, Worker { id: 2, pid: 42 }]
    );
    assert_eq!(m.subscriptions().len(), 0);
}

#[test]
fn launch_of_zero_workers() {
    let l = WorkerLaunch::new(0);
    assert_eq!(l.next_id(), None);
    let m: Manager<u8> = l.finish();
    assert!(m.workers_started().is_empty());
}

#[test]
fn three_workers_receive_new_backend() {
    let mut m = launch(3);
    let mut pools = vec![BackendPool::new(), BackendPool::new(), BackendPool::new()];
    for w in 0..3 {
        m.subscribe(w);
    }
    let url = "http://10.0.0.1:9000".to_string();
    let b = m.publish_new_server(url.clone());
    assert_eq!(b.payload, encode(&BackendChangeEvent::add(url.clone())));
    assert_eq!(b.targets.len(), 3);
    for &id in &b.targets {
        let w = *m.subscriptions().connection(id).unwrap();
        assert_eq!(pools[w].push_message(&b.payload), Ok(()));
        assert_eq!(m.push_finished(id, true), PushOutcome::Acknowledged);
    }
    let again = m.publish_new_server(url.clone());
    for &id in &again.targets {
        let w = *m.subscriptions().connection(id).unwrap();
        pools[w].push_message(&again.payload).unwrap();
        m.push_finished(id, true);
    }
    for p in &pools {
        assert_eq!(p.count(&url), 1);
        assert_eq!(p.len(), 1);
    }
}

#[test]
fn dead_subscriber_is_dropped_after_one_round() {
    let mut m = launch(2);
    let dead = m.subscribe(0);
    let alive = m.subscribe(1);
    let b = m.publish_new_server("http://a".to_string());
    for &id in &b.targets {
        let delivered = id != dead.id;
        m.push_finished(id, delivered);
    }
    assert!(!m.subscriptions().is_registered(dead.id));
    assert_eq!(m.subscriptions().len(), 1);
    let next = m.publish_new_server("http://b".to_string());
    assert_eq!(next.targets, vec![alive.id]);
}

#[test]
fn saturated_subscriber_gets_no_push() {
    let mut m = launch(2);
    let busy = m.subscribe(0);
    for _ in 0..5 {
        m.publish_new_server("http://x".to_string());
    }
    assert_eq!(m.subscriptions().in_flight(busy.id), Some(5));
    let idle = m.subscribe(1);
    let b = m.publish_new_server("http://y".to_string());
    assert_eq!(b.targets, vec![idle.id]);
}

#[test]
fn revoke_twice_through_manager() {
    let mut m = launch(1);
    let a = m.subscribe(0);
    let _b = m.subscribe(0);
    assert_eq!(m.subscriptions().len(), 2);
    assert!(m.revoke(&a));
    assert!(!m.revoke(&a));
    assert_eq!(m.subscriptions().len(), 1);
}
