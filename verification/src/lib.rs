//! Minimal parallel-computation utilities: a fork-join parallel map
//! ([`parmap`]) together with the sequential baseline primitives
//! `map`, `reduce` and `scan`, and a memoizing single-shot [`Task`].
//!
//! The sequential primitives are single-threaded, deterministic linear
//! traversals. They are the baseline contract that the parallel engine
//! must match in output.

use vstd::prelude::*;

mod parallel;
mod task;

pub use parallel::lemma_parmap_matches_map;
pub use parallel::parmap;
pub use task::Task;

verus! {

/// Applies `f` to every element of `xs` in order.
///
/// The result has the same length as the input, and `ys[i]` is an output
/// that `f` admits for input `xs[i]`: order is preserved and no element is
/// skipped or duplicated.
pub fn map<T: Copy, U, F: Fn(T) -> U>(f: F, xs: Vec<T>) -> (ys: Vec<U>)
    requires
        forall|i: int| 0 <= i < xs@.len() ==> call_requires(f, (xs@[i],)),
    ensures
        ys@.len() == xs@.len(),
        forall|i: int| 0 <= i < xs@.len() ==> call_ensures(f, (xs@[i],), #[trigger] ys@[i]),
        xs@.len() == 0 ==> ys@ == Seq::<U>::empty(),
{
    let mut ys: Vec<U> = Vec::new();
    let mut j: usize = 0;
    while j < xs.len()
        invariant
            forall|i: int| 0 <= i < xs@.len() ==> call_requires(f, (xs@[i],)),
            j <= xs@.len(),
            ys@.len() == j,
            forall|i: int| 0 <= i < j ==> call_ensures(f, (xs@[i],), #[trigger] ys@[i]),
        decreases xs@.len() - j,
    {
        ys.push(f(xs[j]));
        j += 1;
    }
    proof {
        if xs@.len() == 0 {
            assert(ys@ =~= Seq::<U>::empty());
        }
    }
    ys
}

/// The step relation of a two-argument function `f`, taken in the
/// argument order the primitives use: `step_of(f)(x, acc, res)` holds
/// when `res` is an output `f` admits for the element `x` and the
/// incoming accumulator `acc`.
pub open spec fn step_of<T, A, F: Fn(T, A) -> A>(f: F) -> spec_fn(T, A, A) -> bool {
    |x: T, acc: A, res: A| call_ensures(f, (x, acc), res)
}

/// Relational left fold: `folds_to(r, a0, xs, a)` holds when `a` can be
/// reached from `a0` by stepping through every element of `xs` in order,
/// each step admitted by `r` (element, accumulator in, accumulator out).
pub open spec fn folds_to<T, A>(r: spec_fn(T, A, A) -> bool, a0: A, xs: Seq<T>, a: A) -> bool
    decreases xs.len(),
{
    if xs.len() == 0 {
        a == a0
    } else {
        exists|mid: A| folds_to(r, a0, xs.drop_last(), mid) && #[trigger] r(xs.last(), mid, a)
    }
}

/// A fold through a deterministic step relation has only one outcome:
/// if `r` admits at most one output per (element, accumulator) pair —
/// as the postcondition of a deterministic combining function does —
/// then any two results that `folds_to` admits for the same start value
/// and input are equal.
pub proof fn lemma_folds_to_unique<T, A>(
    r: spec_fn(T, A, A) -> bool,
    a0: A,
    xs: Seq<T>,
    a1: A,
    a2: A,
)
    requires
        forall|x: T, acc: A, b1: A, b2: A| #![trigger r(x, acc, b1), r(x, acc, b2)]
            r(x, acc, b1) && r(x, acc, b2) ==> b1 == b2,
        folds_to(r, a0, xs, a1),
        folds_to(r, a0, xs, a2),
    ensures
        a1 == a2,
    decreases xs.len(),
{
    if xs.len() > 0 {
        let mid1 = choose|mid: A| folds_to(r, a0, xs.drop_last(), mid) && #[trigger] r(xs.last(), mid, a1);
        let mid2 = choose|mid: A| folds_to(r, a0, xs.drop_last(), mid) && #[trigger] r(xs.last(), mid, a2);
        lemma_folds_to_unique(r, a0, xs.drop_last(), mid1, mid2);
    }
}

/// Left fold of `xs` starting from `a0`.
///
/// The combining function's argument order is (element, accumulator) —
/// reversed from the conventional (accumulator, element) — and the
/// result is reachable from `a0` by folding every element in iteration
/// order. An empty input returns `a0` unchanged.
pub fn reduce<T: Copy, A, F: Fn(T, A) -> A>(f: F, a0: A, xs: Vec<T>) -> (a: A)
    requires
        forall|i: int, acc: A|
            #![trigger folds_to(step_of(f), a0, xs@.take(i), acc)]
            0 <= i < xs@.len() && folds_to(step_of(f), a0, xs@.take(i), acc)
                ==> call_requires(f, (xs@[i], acc)),
    ensures
        folds_to(step_of(f), a0, xs@, a),
        xs@.len() == 0 ==> a == a0,
{
    let mut a = a0;
    let mut j: usize = 0;
    while j < xs.len()
        invariant
            forall|i: int, acc: A|
                #![trigger folds_to(step_of(f), a0, xs@.take(i), acc)]
                0 <= i < xs@.len() && folds_to(step_of(f), a0, xs@.take(i), acc)
                    ==> call_requires(f, (xs@[i], acc)),
            j <= xs@.len(),
            folds_to(step_of(f), a0, xs@.take(j as int), a),
        decreases xs@.len() - j,
    {
        let ghost prev = a;
        a = f(xs[j], a);
        proof {
            assert(xs@.take(j + 1 as int).drop_last() =~= xs@.take(j as int));
            assert(folds_to(step_of(f), a0, xs@.take(j + 1 as int).drop_last(), prev)
                && step_of(f)(xs@.take(j + 1 as int).last(), prev, a));
        }
        j += 1;
    }
    proof {
        assert(xs@.take(xs@.len() as int) =~= xs@);
    }
    a
}

/// Running left fold of `xs` starting from `a0`.
///
/// The result has length `len(xs) + 1`: it starts with `a0`, and each
/// following entry is a value `f` admits for the corresponding element
/// and the entry before it. Argument order is (element, accumulator),
/// as in [`reduce`]. An empty input yields `[a0]`.
pub fn scan<T: Copy, A: Copy, F: Fn(T, A) -> A>(f: F, a0: A, xs: Vec<T>) -> (ys: Vec<A>)
    requires
        forall|i: int, acc: A|
            #![trigger folds_to(step_of(f), a0, xs@.take(i), acc)]
            0 <= i < xs@.len() && folds_to(step_of(f), a0, xs@.take(i), acc)
                ==> call_requires(f, (xs@[i], acc)),
    ensures
        ys@.len() == xs@.len() + 1,
        ys@[0] == a0,
        forall|i: int| 1 <= i <= xs@.len() ==> call_ensures(f, (xs@[i - 1], ys@[i - 1]), #[trigger] ys@[i]),
        xs@.len() == 0 ==> ys@ == seq![a0],
{
    let mut ys: Vec<A> = Vec::new();
    ys.push(a0);
    let mut j: usize = 0;
    while j < xs.len()
        invariant
            forall|i: int, acc: A|
                #![trigger folds_to(step_of(f), a0, xs@.take(i), acc)]
                0 <= i < xs@.len() && folds_to(step_of(f), a0, xs@.take(i), acc)
                    ==> call_requires(f, (xs@[i], acc)),
            j <= xs@.len(),
            ys@.len() == j + 1,
            ys@[0] == a0,
            forall|i: int| 1 <= i <= j ==> call_ensures(f, (xs@[i - 1], ys@[i - 1]), #[trigger] ys@[i]),
            folds_to(step_of(f), a0, xs@.take(j as int), ys@[j as int]),
        decreases xs@.len() - j,
    {
        let prev = ys[ys.len() - 1];
        let ghost prev_spec = prev;
        ys.push(f(xs[j], prev));
        proof {
            assert(xs@.take(j + 1 as int).drop_last() =~= xs@.take(j as int));
            assert(folds_to(step_of(f), a0, xs@.take(j + 1 as int).drop_last(), prev_spec)
                && step_of(f)(xs@.take(j + 1 as int).last(), prev_spec, ys@[j + 1]));
        }
        j += 1;
    }
    proof {
        if xs@.len() == 0 {
            assert(ys@ =~= seq![a0]);
        }
    }
    ys
}

} // verus!
