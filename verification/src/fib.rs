//! The sequence generator: the n-th term of a Fibonacci-style sequence whose
//! first two terms are both 1, computed by constant-space iteration with
//! overflow reported instead of wrapped.

use vstd::prelude::*;

verus! {

use crate::Error;

/// The n-th term of the sequence. Both base terms are 1 by this library's
/// indexing convention; every later term is the sum of the two before it.
pub open spec fn fib(n: nat) -> nat
    decreases n,
{
    if n <= 1 {
        1
    } else {
        fib((n - 1) as nat) + fib((n - 2) as nat)
    }
}

/// What `fibonnacci` returns: the term itself whenever it is representable
/// in a `u64`, and an overflow error otherwise.
pub open spec fn fib_result(n: u64) -> Result<u64, Error> {
    if fib(n as nat) <= u64::MAX {
        Ok(fib(n as nat) as u64)
    } else {
        Err(Error::ArithmeticOverflow)
    }
}

/// Both terms at positions 0 and 1 are 1.
pub proof fn lemma_fib_base(n: nat)
    requires
        n <= 1,
    ensures
        fib(n) == 1,
{
}

/// From position 2 on, each term is the sum of the two preceding terms.
pub proof fn lemma_fib_recurrence(n: nat)
    requires
        n >= 2,
    ensures
        fib(n) == fib((n - 1) as nat) + fib((n - 2) as nat),
{
}

/// The sequence is monotonically non-decreasing in its position.
pub proof fn lemma_fib_monotonic(m: nat, n: nat)
    requires
        m <= n,
    ensures
        fib(m) <= fib(n),
    decreases n - m,
{
    if m < n {
        lemma_fib_monotonic(m, (n - 1) as nat);
    }
}

/// The generator is a pure function of its position: any two results that
/// meet the contract of `fibonnacci` for the same `n` are equal, so repeated
/// calls with the same argument always yield the same result.
pub proof fn lemma_fib_deterministic(n: u64, r1: Result<u64, Error>, r2: Result<u64, Error>)
    requires
        r1 == fib_result(n),
        r2 == fib_result(n),
    ensures
        r1 == r2,
{
}

/// The n-th term of the sequence, or `Error::ArithmeticOverflow` exactly
/// when that term does not fit in a `u64`. The result is a function of `n`
/// alone, so repeated calls with the same argument agree.
pub fn fibonnacci(n: u64) -> (r: Result<u64, Error>)
    ensures
        r == fib_result(n),
{
    if n == 0 || n == 1 {
        Ok(1)
    } else {
        let mut counter: u64 = 1;
        let mut prior: u64 = 1;
        let mut current: u64 = 1;
        while counter < n
            invariant
                1 <= counter <= n,
                prior == fib((counter - 1) as nat),
                current == fib(counter as nat),
            decreases n - counter,
        {
            match current.checked_add(prior) {
                Some(next) => {
                    prior = current;
                    current = next;
                    counter = counter + 1;
                }
                None => {
                    proof {
                        lemma_fib_monotonic((counter + 1) as nat, n as nat);
                    }
                    return Err(Error::ArithmeticOverflow);
                }
            }
        }
        Ok(current)
    }
}

} // verus!
