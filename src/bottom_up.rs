use vstd::prelude::*;

verus! {

/// The Fibonacci sequence: `fib(0) = 0`, `fib(1) = 1`, `fib(n) = fib(n - 1) + fib(n - 2)`.
pub open spec fn spec_fib(n: nat) -> nat
    decreases n,
{
    if n < 2 {
        n
    } else {
        spec_fib((n - 1) as nat) + spec_fib((n - 2) as nat)
    }
}

/// The sequence never decreases.
pub proof fn lemma_fib_monotone(i: nat, j: nat)
    requires
        i <= j,
    ensures
        spec_fib(i) <= spec_fib(j),
    decreases j - i,
{
    if i < j {
        lemma_fib_monotone(i, (j - 1) as nat);
        if j >= 2 {
            assert(spec_fib(j) == spec_fib((j - 1) as nat) + spec_fib((j - 2) as nat));
        }
    }
}

/// Computes `fib(n)` iteratively, keeping only the last two values.
pub fn fib(n: u64) -> (r: u64)
    requires
        spec_fib(n as nat) <= u64::MAX,
    ensures
        r == spec_fib(n as nat),
{
    if n < 2 {
        return n;
    }
    let mut a: u64 = 0;
    let mut b: u64 = 1;
    let mut i: u64 = 1;
    while i < n
        invariant
            1 <= i <= n,
            spec_fib(n as nat) <= u64::MAX,
            a == spec_fib((i - 1) as nat),
            b == spec_fib(i as nat),
        decreases n - i,
    {
        proof {
            lemma_fib_monotone((i + 1) as nat, n as nat);
        }
        let temp = a + b;
        a = b;
        b = temp;
        i = i + 1;
    }
    b
}

} // verus!
