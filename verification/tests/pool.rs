use spur::thread_pool::autoid::AutoId;
use spur::thread_pool::inner::Inner;
use spur::thread_pool::sender_id::SenderId;
use spur::asynchttp::manager::Manager;
use std::sync::atomic::{AtomicUsize, Ordering};
use std::sync::{Arc, Mutex};

#[test]
fn ids_start_at_one() {
    let mut a = AutoId::new();
    assert_eq!(a.get(), 1);
    assert_eq!(a.get(), 2);
    let s = SenderId::new(7, "chan");
    assert_eq!(s.id(), 7);
}

#[test]
fn tasks_go_to_idle_workers_in_order() {
    let mut pool: Inner<&str, char> = Inner::new();
    // no worker yet: tasks queue up
    assert_eq!(pool.run("t1"), None);
    assert_eq!(pool.run("t2"), None);
    let w1 = pool.create_worker('a');
    let w2 = pool.create_worker('b');
    let w3 = pool.create_worker('c');
    assert_eq!((w1, w2, w3), (1, 2, 3));
    // queued tasks are paired with the first idle workers
    assert_eq!(pool.refresh_state(), vec![(1, "t1"), (2, "t2")]);
    assert_eq!(pool.sender(1), Some(&'a'));
    assert_eq!(pool.sender(3), Some(&'c'));
    assert_eq!(pool.sender(9), None);
    // a new task goes straight to the idle worker
    assert_eq!(pool.run("t3"), Some((3, "t3")));
    // all busy: the next waits
    assert_eq!(pool.run("t4"), None);
    assert_eq!(pool.run("t5"), None);
    // a worker that finishes takes the first waiting task
    assert_eq!(pool.set_as_idle(2), vec![(2, "t4")]);
    assert_eq!(pool.set_as_idle(1), vec![(1, "t5")]);
    // nothing waits: the worker stays idle
    assert_eq!(pool.set_as_idle(3), vec![]);
    assert_eq!(pool.run("t6"), Some((3, "t6")));
}

#[test]
fn manager_starts_all_workers() {
    let calls = Arc::new(AtomicUsize::new(0));
    let names = Arc::new(Mutex::new(Vec::new()));
    let c = calls.clone();
    let n = names.clone();
    let mut m = Manager::new("worker".to_string(), 3, move |name: String| {
        c.fetch_add(1, Ordering::SeqCst);
        n.lock().unwrap().push(name);
    });
    assert_eq!(calls.load(Ordering::SeqCst), 3);
    assert_eq!(*names.lock().unwrap(), vec!["worker".to_string(); 3]);
    m.shoutdown();
    assert_eq!(calls.load(Ordering::SeqCst), 3);
}

#[test]
fn manager_with_no_workers() {
    let calls = Arc::new(AtomicUsize::new(0));
    let c = calls.clone();
    let _m = Manager::new("none".to_string(), 0, move |_name: String| {
        c.fetch_add(1, Ordering::SeqCst);
    });
    assert_eq!(calls.load(Ordering::SeqCst), 0);
}

#[test]
fn sender_is_the_workers_own() {
    let mut pool: Inner<u8, char> = Inner::new();
    pool.create_worker('a');
    pool.create_worker('b');
    pool.create_worker('c');
    assert_eq!(pool.sender(2), Some(&'b'));
    assert_eq!(pool.sender(3), Some(&'c'));
    assert_eq!(pool.run(7), Some((1, 7)));
    assert_eq!(pool.sender(1), Some(&'a'));
    assert_eq!(pool.sender(3), Some(&'c'));
    assert_eq!(pool.sender(4), None);
}
