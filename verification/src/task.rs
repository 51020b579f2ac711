//! A memoized single-shot task: a closure paired with a cache of its
//! result, evaluated at most once.

use vstd::prelude::*;

verus! {

/// A deferred computation that caches its result after the first
/// evaluation. `wait` either returns the cached value or runs the
/// closure once and stores what it returned.
#[verifier::reject_recursive_types(T)]
pub struct Task<T: Copy, F: Fn() -> T> {
    closure: F,
    pub result: Option<T>,
}

impl<T: Copy, F: Fn() -> T> Task<T, F> {
    /// The stored closure, for use in contracts.
    pub closed spec fn spec_closure(self) -> F {
        self.closure
    }

    /// The cached result, for use in contracts.
    pub closed spec fn spec_result(self) -> Option<T> {
        self.result
    }

    /// A cached result, if present, is a value the closure admits.
    pub closed spec fn wf(self) -> bool {
        match self.result {
            Option::Some(v) => call_ensures(self.closure, (), v),
            Option::None => true,
        }
    }

    /// Wraps `closure` in a task with an empty cache.
    pub fn new(closure: F) -> (t: Task<T, F>)
        ensures
            t.spec_closure() == closure,
            t.spec_result() is None,
            t.wf(),
    {
        Task { closure, result: None }
    }

    /// Evaluates the stored closure.
    fn run(&self) -> (r: T)
        requires
            call_requires(self.spec_closure(), ()),
        ensures
            call_ensures(self.spec_closure(), (), r),
    {
        (self.closure)()
    }

    /// Returns the task's value: the cached result if one is present,
    /// otherwise the closure is run once and its result cached.
    pub fn wait(&mut self) -> (r: T)
        requires
            old(self).wf(),
            call_requires(old(self).spec_closure(), ()),
        ensures
            final(self).wf(),
            final(self).spec_closure() == old(self).spec_closure(),
            final(self).spec_result() == Some(r),
            call_ensures(old(self).spec_closure(), (), r),
            old(self).spec_result() is Some ==> r == old(self).spec_result()->Some_0,
    {
        if let Some(res) = self.result {
            res
        } else {
            let res = self.run();
            self.result = Some(res);
            res
        }
    }
}

} // verus!
