//! The parallel map engine: a recursive divide-and-conquer executor that
//! splits the input at the midpoint, maps each half on its own thread,
//! and concatenates the ordered results (fork-join).

use vstd::prelude::*;
use vstd::*;

verus! {

/// Copies `xs[from..to]` into a fresh vector.
fn copy_range<T: Copy>(xs: &Vec<T>, from: usize, to: usize) -> (ys: Vec<T>)
    requires
        from <= to,
        to <= xs@.len(),
    ensures
        ys@ == xs@.subrange(from as int, to as int),
{
    let mut ys: Vec<T> = Vec::new();
    let mut j: usize = from;
    while j < to
        invariant
            from <= j <= to,
            to <= xs@.len(),
            ys@ == xs@.subrange(from as int, j as int),
        decreases to - j,
    {
        ys.push(xs[j]);
        proof {
            assert(ys@ =~= xs@.subrange(from as int, j + 1 as int));
        }
        j += 1;
    }
    ys
}

/// Applies `f` to every element of `xs`, exploiting multiple cores.
///
/// Semantically equivalent to [`map`](crate::map): the result has the input's length
/// and `ys[i]` is an output that `f` admits for input `xs[i]`, in input
/// order, regardless of how the concurrent halves are scheduled.
///
/// An empty input returns immediately; a singleton applies `f` on the
/// calling thread; otherwise the input is split at `len / 2`, each half
/// is mapped on a freshly spawned thread, the caller blocks on the left
/// result and then on the right one, and the two are concatenated left
/// first. Every spawned thread is joined before the call returns. If a
/// child thread dies without a result (the mapping function aborted on
/// it), that half is recomputed sequentially on the calling thread.
pub fn parmap<T, U, F>(f: F, xs: Vec<T>) -> (ys: Vec<U>) where
    T: Copy + Send + 'static,
    U: Send + 'static,
    F: Fn(T) -> U + Copy + Send + 'static,

    requires
        forall|i: int| 0 <= i < xs@.len() ==> call_requires(f, (xs@[i],)),
    ensures
        ys@.len() == xs@.len(),
        forall|i: int| 0 <= i < xs@.len() ==> call_ensures(f, (xs@[i],), #[trigger] ys@[i]),
        xs@.len() == 0 ==> ys@ == Seq::<U>::empty(),
    decreases xs@.len(),
{
    let n = xs.len();
    if n == 0 {
        let ys: Vec<U> = Vec::new();
        proof {
            assert(ys@ =~= Seq::<U>::empty());
        }
        ys
    } else if n == 1 {
        let mut ys: Vec<U> = Vec::new();
        ys.push(f(xs[0]));
        ys
    } else {
        let mid = n / 2;
        let left = copy_range(&xs, 0, mid);
        let right = copy_range(&xs, mid, n);
        let left_handle = thread::spawn(move || -> (r: Vec<U>)
            ensures
                r@.len() == left@.len(),
                forall|i: int| 0 <= i < left@.len() ==> call_ensures(f, (left@[i],), #[trigger] r@[i]),
            { parmap(f, left) });
        let right_handle = thread::spawn(move || -> (r: Vec<U>)
            ensures
                r@.len() == right@.len(),
                forall|i: int| 0 <= i < right@.len() ==> call_ensures(f, (right@[i],), #[trigger] r@[i]),
            { parmap(f, right) });
        let mut ys = match left_handle.join() {
            Result::Ok(v) => v,
            Result::Err(_) => crate::map(f, copy_range(&xs, 0, mid)),
        };
        let mut ys_right = match right_handle.join() {
            Result::Ok(v) => v,
            Result::Err(_) => crate::map(f, copy_range(&xs, mid, n)),
        };
        ys.append(&mut ys_right);
        proof {
            assert(forall|i: int| 0 <= i < mid ==> xs@.subrange(0, mid as int)[i] == xs@[i]);
            assert(forall|i: int| mid <= i < n ==> xs@.subrange(mid as int, n as int)[i - mid] == xs@[i]);
        }
        ys
    }
}

/// The parallel map matches the sequential map.
///
/// For a pure mapping relation `r` — one that admits at most one output
/// per input, as the postcondition of a deterministic function does —
/// any output sequence admitted for `xs` by [`parmap`]'s contract equals
/// any output sequence admitted by [`map`](crate::map)'s contract,
/// whatever the scheduling of the concurrent halves was. Instantiating
/// `r` with `|x, y| call_ensures(f, (x,), y)` makes the third and fourth
/// preconditions exactly the postconditions of the two functions.
pub proof fn lemma_parmap_matches_map<T, U>(
    r: spec_fn(T, U) -> bool,
    xs: Seq<T>,
    ys: Seq<U>,
    zs: Seq<U>,
)
    requires
        forall|x: T, y1: U, y2: U| #![trigger r(x, y1), r(x, y2)]
            r(x, y1) && r(x, y2) ==> y1 == y2,
        ys.len() == xs.len(),
        zs.len() == xs.len(),
        forall|i: int| 0 <= i < xs.len() ==> r(xs[i], #[trigger] ys[i]),
        forall|i: int| 0 <= i < xs.len() ==> r(xs[i], #[trigger] zs[i]),
    ensures
        ys == zs,
{
    assert forall|i: int| 0 <= i < ys.len() implies ys[i] == zs[i] by {
        assert(r(xs[i], ys[i]));
        assert(r(xs[i], zs[i]));
    }
    assert(ys =~= zs);
}

} // verus!
