//! A busy loop and a sum of squares, computed sequentially and in parallel.

use rayon::iter::{IntoParallelIterator, ParallelIterator};
use vstd::arithmetic::div_mod::lemma_add_mod_noop_right;
use vstd::prelude::*;

verus! {

/// How many steps the busy loop of `big_function` takes.
pub const BIG_WORK: usize = 1_000_000_000;

/// The modulus that keeps the busy loop's running total small.
pub const BIG_MOD: usize = 999983;

/// `0 + 1 + ... + (n - 1)`.
pub open spec fn triangle(n: nat) -> nat
    decreases n,
{
    if n == 0 {
        0
    } else {
        triangle((n - 1) as nat) + (n - 1) as nat
    }
}

/// `1² + 2² + ... + n²`.
pub open spec fn sum_of_squares(n: nat) -> nat
    decreases n,
{
    if n == 0 {
        0
    } else {
        sum_of_squares((n - 1) as nat) + n * n
    }
}

proof fn lemma_sum_of_squares_monotonic(a: nat, b: nat)
    requires
        a <= b,
    ensures
        sum_of_squares(a) <= sum_of_squares(b),
    decreases b - a,
{
    if a < b {
        lemma_sum_of_squares_monotonic(a, (b - 1) as nat);
    }
}

/// The running total of the busy loop after `n` steps: each step adds the
/// step's index and reduces modulo `BIG_MOD`.
pub fn busy_total(n: usize) -> (r: usize)
    requires
        n + BIG_MOD <= usize::MAX,
    ensures
        r == triangle(n as nat) % (BIG_MOD as nat),
{
    let mut total: usize = 0;
    let mut i: usize = 0;
    while i < n
        invariant
            i <= n,
            n + BIG_MOD <= usize::MAX,
            total == triangle(i as nat) % (BIG_MOD as nat),
        decreases n - i,
    {
        proof {
            lemma_add_mod_noop_right(i as int, triangle(i as nat) as int, BIG_MOD as int);
        }
        total = (total + i) % BIG_MOD;
        i = i + 1;
    }
    total
}

/// The total of the busy loop over `BIG_WORK` steps.
pub fn big_function() -> (r: usize)
    ensures
        r == triangle(BIG_WORK as nat) % (BIG_MOD as nat),
{
    busy_total(BIG_WORK)
}

/// The sum of the squares of `1..=n`, one after another.
pub fn sum_squares(n: usize) -> (r: usize)
    requires
        sum_of_squares(n as nat) <= usize::MAX,
    ensures
        r == sum_of_squares(n as nat),
{
    let mut total: usize = 0;
    let mut i: usize = 0;
    while i < n
        invariant
            i <= n,
            total == sum_of_squares(i as nat),
            sum_of_squares(n as nat) <= usize::MAX,
        decreases n - i,
    {
        proof {
            lemma_sum_of_squares_monotonic((i + 1) as nat, n as nat);
        }
        i = i + 1;
        total = total + square(i);
    }
    total
}

/// `i * i`.
fn square(i: usize) -> (r: usize)
    requires
        i * i <= usize::MAX,
    ensures
        r == i * i,
{
    i * i
}

/// Relies on rayon's `ParallelIterator::sum` over `(1..=n).into_par_iter()`,
/// mapped by `square`: the result is the sum of all mapped items, whatever
/// order they are added in.
#[verifier::external_body]
fn parallel_sum_of_squares(n: usize) -> (r: usize)
    requires
        sum_of_squares(n as nat) <= usize::MAX,
    ensures
        r == sum_of_squares(n as nat),
{
    (1..=n).into_par_iter().map(square).sum()
}

/// The sum of the squares of `1..=n`, added up on several threads.
pub fn sum_squares_parallel(n: usize) -> (r: usize)
    requires
        sum_of_squares(n as nat) <= usize::MAX,
    ensures
        r == sum_of_squares(n as nat),
{
    parallel_sum_of_squares(n)
}

} // verus!
