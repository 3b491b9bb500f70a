use crate::bottom_up::{lemma_fib_monotone, spec_fib};
use std::collections::HashMap;
use std::hash::Hash;
use vstd::prelude::*;
use vstd::cell::invcell::InvCell;
use vstd::rwlock::RwLock;
use vstd::std_specs::hash::obeys_key_model;

verus! {

broadcast use vstd::std_specs::hash::group_hash_axioms;

/// Holds when `clone` on `T` always hands back a value equal to the original.
pub open spec fn clone_keeps_value<T: Clone>() -> bool {
    forall|a: T, b: T| #[trigger] call_ensures(T::clone, (&a,), b) ==> a == b
}

/// A recursive computation that a `Memoize` can wrap. `step` computes the
/// value at one argument; it gets the values of its sub-problems from `memo`,
/// which calls back into the cache, on arguments of smaller `size`.
pub trait Recurrence<A, R>: Sized where A: Eq + Hash + Clone, R: Clone {
    /// The value the computation stands for at `a`.
    spec fn value(a: A) -> R;

    /// A measure that every sub-problem of `a` is smaller in.
    spec fn size(a: A) -> nat;

    /// Computes the value at `a`, taking sub-problems' values from `memo`.
    fn step<G: Fn(A) -> R>(&self, memo: &G, a: A) -> (r: R)
        requires
            forall|x: A| Self::size(x) < Self::size(a) ==> #[trigger] memo.requires((x,)),
            forall|x: A, y: R| #[trigger] memo.ensures((x,), y) ==> y == Self::value(x),
        ensures
            r == Self::value(a),
    ;
}

/// A cache that wraps a recursive computation. The computation receives a
/// handle that calls back into this cache, so its sub-calls are served from
/// the same shared store. The
/// store sits behind a lock that is taken only around a single lookup or a
/// single insert, never while the computation runs.
#[verifier::reject_recursive_types(A)]
#[verifier::reject_recursive_types(R)]
pub struct Memoize<F, A, R> where F: Recurrence<A, R>, A: Eq + Hash + Clone, R: Clone {
    f: F,
    cache: RwLock<HashMap<A, R>, spec_fn(HashMap<A, R>) -> bool>,
}

/// What the store always holds: every cached result is the computation's value
/// at its argument.
pub open spec fn store_holds_values_of<F, A, R>(c: Map<A, R>) -> bool where
    F: Recurrence<A, R>,
    A: Eq + Hash + Clone,
    R: Clone,
 {
    forall|a: A| #[trigger] c.contains_key(a) ==> c[a] == F::value(a)
}

impl<F, A, R> Memoize<F, A, R> where F: Recurrence<A, R>, A: Eq + Hash + Clone, R: Clone {
    /// The wrapped computation.
    pub closed spec fn wrapped(&self) -> F {
        self.f
    }

    /// The wrapped computation, for reading its own state.
    pub fn computation(&self) -> (r: &F)
        ensures
            *r == self.wrapped(),
    {
        &self.f
    }

    spec fn store_pred() -> spec_fn(HashMap<A, R>) -> bool {
        |c: HashMap<A, R>| store_holds_values_of::<F, A, R>(c@)
    }

    #[verifier::type_invariant]
    spec fn inv(self) -> bool {
        &&& self.cache.pred() == Self::store_pred()
        &&& obeys_key_model::<A>()
        &&& clone_keeps_value::<A>()
        &&& clone_keeps_value::<R>()
    }

    /// Wraps `f` with an empty store.
    pub fn new(f: F) -> (m: Self)
        requires
            obeys_key_model::<A>(),
            clone_keeps_value::<A>(),
            clone_keeps_value::<R>(),
        ensures
            m.wrapped() == f,
    {
        let store: HashMap<A, R> = HashMap::new();
        let cache = RwLock::new(store, Ghost(Self::store_pred()));
        Memoize { f, cache }
    }

    /// Returns the computation's value at `arg`: the cached one if there is
    /// one, else the one `step` computes, which is then stored. This holds
    /// whatever other callers do at the same time, even where two of them
    /// compute the same argument at once.
    pub fn call(&self, arg: A) -> (r: R)
        ensures
            r == F::value(arg),
        decreases F::size(arg),
    {
        proof {
            use_type_invariant(self);
        }
        let reader = self.cache.acquire_read();
        let hit: Option<R> = match reader.borrow().get(&arg) {
            Some(v) => Some(v.clone()),
            None => None,
        };
        reader.release_read();
        if let Some(v) = hit {
            return v;
        }
        let key = arg.clone();
        let ghost bound = F::size(arg);
        let memo = |x: A| -> (y: R)
            requires
                F::size(x) < bound,
            ensures
                y == F::value(x),
            { self.call(x) };
        let result = self.f.step(&memo, key);
        let (mut store, writer) = self.cache.acquire_write();
        let kept = result.clone();
        store.insert(arg, kept);
        writer.release_write(store);
        result
    }
}

/// A result of `call` on `a` equals what the computation returns when its
/// `step` runs directly on `a`, with any handle for sub-problems, a fresh
/// cache's included; so every call on `a` gives the same value.
pub proof fn lemma_call_matches_direct<F, A, R, G>(
    memo: &Memoize<F, A, R>,
    a: A,
    r_call: R,
    f: &F,
    sub: &G,
    r_direct: R,
) where F: Recurrence<A, R>, A: Eq + Hash + Clone, R: Clone, G: Fn(A) -> R
    requires
        call_ensures(Memoize::<F, A, R>::call, (memo, a), r_call),
        call_ensures(F::step::<G>, (f, sub, a), r_direct),
    ensures
        r_call == r_direct,
{
}

/// Storing a result for an argument that is already cached leaves the store
/// unchanged: the stored value is never replaced by a different one.
pub proof fn lemma_store_again_unchanged<F, A, R>(c: Map<A, R>, a: A, r: R) where
    F: Recurrence<A, R>,
    A: Eq + Hash + Clone,
    R: Clone,

    requires
        store_holds_values_of::<F, A, R>(c),
        c.contains_key(a),
        r == F::value(a),
    ensures
        c.insert(a, r) == c,
{
    assert(c.insert(a, r) =~= c);
}

/// `fib(n)`, or `u64::MAX` where it does not fit.
pub open spec fn saturated_fib(n: nat) -> nat {
    if spec_fib(n) <= u64::MAX {
        spec_fib(n)
    } else {
        u64::MAX as nat
    }
}

/// The Fibonacci recurrence on `u64`, saturated at `u64::MAX`.
#[derive(Clone, Copy)]
pub struct FibStep;

impl Recurrence<u64, u64> for FibStep {
    open spec fn value(a: u64) -> u64 {
        saturated_fib(a as nat) as u64
    }

    open spec fn size(a: u64) -> nat {
        a as nat
    }

    fn step<G: Fn(u64) -> u64>(&self, memo: &G, k: u64) -> (r: u64) {
        if k < 2 {
            k
        } else {
            let x = memo(k - 1);
            let y = memo(k - 2);
            proof {
                lemma_fib_monotone((k - 2) as nat, (k - 1) as nat);
                lemma_fib_monotone((k - 1) as nat, k as nat);
            }
            x.saturating_add(y)
        }
    }
}

/// The same recurrence as `FibStep`, which also counts how often its `step`
/// has run (saturating at `u64::MAX`).
pub struct CountingFibStep {
    runs: InvCell<u64, spec_fn(u64) -> bool>,
}

/// The counter may hold any value.
spec fn any_count() -> spec_fn(u64) -> bool {
    |v: u64| true
}

impl CountingFibStep {
    #[verifier::type_invariant]
    spec fn inv(self) -> bool {
        self.runs.predicate() == any_count()
    }

    /// A counter at zero.
    pub fn new() -> (c: Self) {
        CountingFibStep { runs: InvCell::new(0, Ghost(any_count())) }
    }

    /// How many times `step` has run so far.
    pub fn runs(&self) -> u64 {
        self.runs.get()
    }
}

impl Recurrence<u64, u64> for CountingFibStep {
    open spec fn value(a: u64) -> u64 {
        FibStep::value(a)
    }

    open spec fn size(a: u64) -> nat {
        FibStep::size(a)
    }

    fn step<G: Fn(u64) -> u64>(&self, memo: &G, k: u64) -> (r: u64) {
        proof {
            use_type_invariant(self);
        }
        let seen = self.runs.get();
        self.runs.set(seen.saturating_add(1));
        FibStep.step(memo, k)
    }
}

/// Computes `fib(n)`, saturated at `u64::MAX`, top-down through a `Memoize`
/// whose computation calls back into the cache for `n - 1` and `n - 2`.
pub fn memo_fib(n: u64) -> (r: u64)
    ensures
        r == saturated_fib(n as nat),
{
    let fib = Memoize::new(FibStep);
    fib.call(n)
}

} // verus!
