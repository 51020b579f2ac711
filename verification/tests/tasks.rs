use std::sync::atomic::{AtomicUsize, Ordering};

use concurrust::Task;

#[test]
fn task_new_has_no_result() {
    let t = Task::new(|| 5i64);
    assert_eq!(t.result, None);
}

#[test]
fn task_wait_returns_and_caches() {
    let mut t = Task::new(|| 5i64);
    assert_eq!(t.wait(), 5);
    assert_eq!(t.result, Some(5));
    assert_eq!(t.wait(), 5);
}

#[test]
fn task_evaluates_at_most_once() {
    let calls: &'static AtomicUsize = Box::leak(Box::new(AtomicUsize::new(0)));
    let mut t = Task::new(move || {
        calls.fetch_add(1, Ordering::SeqCst);
        7u32
    });
    assert_eq!(calls.load(Ordering::SeqCst), 0);
    assert_eq!(t.wait(), 7);
    assert_eq!(t.wait(), 7);
    assert_eq!(t.wait(), 7);
    assert_eq!(calls.load(Ordering::SeqCst), 1);
}
