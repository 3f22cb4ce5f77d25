//! Random values, a doubling helper and a few arithmetic loops.

use rand::seq::SliceRandom;
use rand::Rng;
use vstd::prelude::*;

verus! {

/// Relies on rand's `thread_rng().gen::<bool>()`: any `bool` may come back.
#[verifier::external_body]
fn random_bool() -> bool {
    rand::thread_rng().gen::<bool>()
}

/// Relies on rand's `Rng::gen_range` over `0..bound`, which picks a value in
/// the range and panics only when the range is empty.
#[verifier::external_body]
fn random_below(bound: u8) -> (r: u8)
    requires
        0 < bound,
    ensures
        r < bound,
{
    rand::thread_rng().gen_range(0..bound)
}

/// Relies on rand's `SliceRandom::shuffle`, which only swaps elements: the
/// result holds the same elements, each as often as before.
#[verifier::external_body]
fn shuffle_in_place<T>(v: &mut Vec<T>)
    ensures
        final(v)@.to_multiset() == old(v)@.to_multiset(),
{
    v.shuffle(&mut rand::thread_rng());
}

/// `n` coin flips.
pub fn rand_bools(n: usize) -> (r: Vec<bool>)
    ensures
        r@.len() == n,
{
    let mut result: Vec<bool> = Vec::new();
    let mut i: usize = 0;
    while i < n
        invariant
            i <= n,
            result@.len() == i,
        decreases n - i,
    {
        let b = random_bool();
        result.push(b);
        i = i + 1;
    }
    result
}

/// A random decimal digit.
pub fn rand_digit() -> (r: u8)
    ensures
        r < 10,
{
    random_below(10)
}

/// Puts the elements of `v` in a random order.
pub fn shuffle<T>(v: &mut Vec<T>)
    ensures
        final(v)@.len() == old(v)@.len(),
        final(v)@.to_multiset() == old(v)@.to_multiset(),
{
    shuffle_in_place(v);
    proof {
        old(v)@.to_multiset_ensures();
        v@.to_multiset_ensures();
    }
}

/// Twice `n`.
pub fn double(n: isize) -> (r: isize)
    requires
        isize::MIN <= 2 * n <= isize::MAX,
    ensures
        r == 2 * n,
{
    n * 2
}

/// The sum `0 + 1 + ... + (n - 1)`, written in closed form.
pub open spec fn sum_below(n: int) -> int {
    n * (n - 1) / 2
}

/// The sum of `0..1000000`, added one term at a time; the running total
/// equals the closed form after every step.
pub fn perf_critical_fun() -> (r: u64)
    ensures
        r == sum_below(1000000),
{
    let mut x: u64 = 0;
    let mut n: u64 = 0;
    while n < 1000000
        invariant
            n <= 1000000,
            x == sum_below(n as int),
        decreases 1000000 - n,
    {
        assert(sum_below(n + 1) == sum_below(n as int) + n) by (nonlinear_arith);
        assert(sum_below(n as int) <= 1000000 * 1000000) by (nonlinear_arith)
            requires
                n <= 1000000,
        ;
        x = x + n;
        n = n + 1;
    }
    x
}

/// The sum of `0..10`.
pub fn perf_critical_fun_2() -> (r: usize)
    ensures
        r == sum_below(10),
{
    let mut x: usize = 0;
    let mut n: usize = 0;
    while n < 10
        invariant
            n <= 10,
            x == sum_below(n as int),
        decreases 10 - n,
    {
        assert(sum_below(n + 1) == sum_below(n as int) + n) by (nonlinear_arith);
        assert(sum_below(n as int) <= 10 * 10) by (nonlinear_arith)
            requires
                n <= 10,
        ;
        x = x + n;
        n = n + 1;
    }
    x
}

/// `143` to the fourth power.
pub fn calculate_big_number() -> (r: usize)
    ensures
        r == 143 * 143 * 143 * 143,
{
    143 * 143 * 143 * 143
}

} // verus!
