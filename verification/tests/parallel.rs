use std::sync::atomic::{AtomicUsize, Ordering};

use concurrust::parmap;

#[test]
fn parmap_identity() {
    let ys = parmap(|x: i64| x, vec![1, 2, 3]);
    assert_eq!(ys, vec![1, 2, 3]);
}

#[test]
fn parmap_increment_nine() {
    let ys = parmap(|x: i64| x + 1, vec![1, 2, 3, 4, 5, 6, 7, 8, 9]);
    assert_eq!(ys, vec![2, 3, 4, 5, 6, 7, 8, 9, 10]);
}

#[test]
fn parmap_empty() {
    let ys = parmap(|x: i64| x + 1, Vec::new());
    assert_eq!(ys, Vec::<i64>::new());
}

#[test]
fn parmap_pair() {
    let ys = parmap(|x: i64| x * 10, vec![7, 8]);
    assert_eq!(ys, vec![70, 80]);
}

#[test]
fn parmap_odd_length() {
    let ys = parmap(|x: i64| x - 1, vec![1, 2, 3, 4, 5]);
    assert_eq!(ys, vec![0, 1, 2, 3, 4]);
}

#[test]
fn parmap_matches_map() {
    let xs: Vec<i64> = (0..100).collect();
    let f = |x: i64| x * x - 3;
    let expected = concurrust::map(f, xs.clone());
    let got = parmap(f, xs);
    assert_eq!(got, expected);
}

#[test]
fn parmap_preserves_order_under_uneven_work() {
    // The left half spins much longer than the right, so the right thread
    // finishes first; the output must still be in input order.
    let f = |x: u64| {
        let iters: u64 = if x < 4 { 2_000_000 } else { 1 };
        let mut s: u64 = 0;
        for i in 0..iters {
            s = s.wrapping_add(std::hint::black_box(i));
        }
        std::hint::black_box(s);
        x + 100
    };
    let ys = parmap(f, vec![0, 1, 2, 3, 4, 5, 6, 7]);
    assert_eq!(ys, vec![100, 101, 102, 103, 104, 105, 106, 107]);
}

#[test]
fn parmap_singleton_applies_f_exactly_once() {
    let calls: &'static AtomicUsize = Box::leak(Box::new(AtomicUsize::new(0)));
    let f = move |x: i64| {
        calls.fetch_add(1, Ordering::SeqCst);
        x + 1
    };
    let ys = parmap(f, vec![41]);
    assert_eq!(ys, vec![42]);
    assert_eq!(calls.load(Ordering::SeqCst), 1);
}

#[test]
fn parmap_applies_f_once_per_element() {
    let calls: &'static AtomicUsize = Box::leak(Box::new(AtomicUsize::new(0)));
    let f = move |x: i64| {
        calls.fetch_add(1, Ordering::SeqCst);
        2 * x
    };
    let ys = parmap(f, (0..33).collect());
    assert_eq!(ys, (0..33).map(|x| 2 * x).collect::<Vec<i64>>());
    assert_eq!(calls.load(Ordering::SeqCst), 33);
}

#[test]
fn parmap_changes_type() {
    let ys = parmap(|x: i64| x.to_string(), vec![1, 2, 3]);
    assert_eq!(
        ys,
        vec!["1".to_string(), "2".to_string(), "3".to_string()]
    );
}
