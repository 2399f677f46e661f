//! Whole numbers as they are held with a fixed number of binary digits.

use vstd::arithmetic::power2::{lemma2_to64, lemma_pow2_unfold, pow2};
use vstd::prelude::*;

verus! {

/// A quotient to the nearest whole number, ties to the even one.
pub open spec fn nearest(n: nat, d: nat) -> nat {
    let q = n / d;
    let rest = n % d;
    if 2 * rest > d || (2 * rest == d && q % 2 == 1) {
        q + 1
    } else {
        q
    }
}

/// The distance between the numbers of double precision around a whole number, where it is at
/// least one.
pub open spec fn double_step(n: nat) -> nat
    decreases n,
{
    if n < 0x20_0000_0000_0000 {
        1
    } else {
        2 * double_step(n / 2)
    }
}

/// A whole number in double precision.
pub open spec fn as_double(n: nat) -> nat {
    nearest(n, double_step(n)) * double_step(n)
}

/// Finds the distance between the numbers of double precision around a whole number.
pub fn find_double_step(n: u64) -> (r: u64)
    ensures
        r == double_step(n as nat),
        1 <= r <= 0x1000,
        n >= 0x20_0000_0000_0000 ==> r * 0x10_0000_0000_0000 <= n,
        n < 0x20_0000_0000_0000 ==> r == 1,
    decreases n,
{
    if n < 0x20_0000_0000_0000 {
        1
    } else {
        2 * find_double_step(n / 2)
    }
}

/// Rounds a quotient to the nearest whole number.
pub fn find_nearest(n: u128, d: u128) -> (r: u128)
    requires
        0 < d <= 0x1_0000_0000_0000_0000,
        n <= 0x100_0000_0000_0000_0000,
    ensures
        r == nearest(n as nat, d as nat),
        r * d <= n + d,
        r <= n + 1,
{
    let q: u128 = n / d;
    let rest: u128 = n % d;
    assert(q * d + rest == n && rest < d && q <= n) by (nonlinear_arith)
        requires
            q == n / d,
            rest == n % d,
            d > 0,
            n >= 0,
    ;
    assert((q + 1) * d == q * d + d) by (nonlinear_arith);
    if 2 * rest > d || (2 * rest == d && q % 2 == 1) {
        q + 1
    } else {
        q
    }
}

// ---------------------------------------------------------------------------
// Single precision
// ---------------------------------------------------------------------------

/// The distance between the numbers of single precision around a whole number, where it is at
/// least one.
pub open spec fn single_step(n: nat) -> nat
    decreases n,
{
    if n < 0x100_0000 {
        1
    } else {
        2 * single_step(n / 2)
    }
}

/// A whole number in single precision.
pub open spec fn as_single(n: nat) -> nat {
    nearest(n, single_step(n)) * single_step(n)
}

/// From here on a number of single precision is too large to grow by [`SINGLE_TERM`] or less.
pub const SINGLE_CEILING: u64 = 0x8_0000_0000_0000;

/// The largest number that is added.
pub const SINGLE_TERM: u64 = 0x400_0000;

/// A number of single precision that sums stay below.
pub open spec fn settled_single(n: nat) -> bool {
    n < 2 * SINGLE_CEILING && (n >= SINGLE_CEILING ==> n % 0x1000_0000 == 0)
}

proof fn lemma_single_step(n: nat)
    ensures
        single_step(n) >= 1,
        n < 0x100_0000 ==> single_step(n) == 1,
        n >= 0x100_0000 ==> single_step(n) * 0x80_0000 <= n < single_step(n) * 0x100_0000,
    decreases n,
{
    if n >= 0x100_0000 {
        lemma_single_step(n / 2);
    }
}

/// The distance is that power of two whose range holds the number.
proof fn lemma_single_step_is(n: nat, k: nat)
    requires
        pow2(k) * 0x80_0000 <= n < pow2(k) * 0x100_0000,
    ensures
        single_step(n) == pow2(k),
    decreases k,
{
    lemma2_to64();
    if k > 0 {
        lemma_pow2_unfold(k);
        vstd::arithmetic::power2::lemma_pow2_pos((k - 1) as nat);
        lemma_single_step_is(n / 2, (k - 1) as nat);
    }
}

fn find_single_step(n: u64) -> (r: u64)
    ensures
        r == single_step(n as nat),
        r >= 1,
        n < 0x100_0000 ==> r == 1,
        n >= 0x100_0000 ==> r * 0x80_0000 <= n,
    decreases n,
{
    proof {
        lemma_single_step(n as nat);
    }
    if n < 0x100_0000 {
        1
    } else {
        proof {
            lemma_single_step((n / 2) as nat);
        }
        2 * find_single_step(n / 2)
    }
}

/// Rounds a number to single precision.
pub fn find_single(n: u64) -> (r: u128)
    ensures
        r == as_single(n as nat),
{
    let step: u64 = find_single_step(n);
    let steps: u128 = find_nearest(n as u128, step as u128);
    steps * step as u128
}

/// Rounding to single precision keeps a number positive.
pub proof fn lemma_single_positive(n: nat)
    requires
        n > 0,
    ensures
        as_single(n) > 0,
{
    lemma_single_step(n);
    let step = single_step(n);
    let q = n / step;
    assert(q >= 1) by (nonlinear_arith)
        requires
            q == n / step,
            n >= step,
            step >= 1,
    ;
    assert(nearest(n, step) * step > 0) by (nonlinear_arith)
        requires
            nearest(n, step) >= 1,
            step >= 1,
    ;
}

/// Adds two numbers, and rounds the sum to single precision.
pub fn add_single(a: u64, b: u64) -> (r: u64)
    requires
        settled_single(a as nat),
        b <= SINGLE_TERM,
    ensures
        r == as_single((a + b) as nat),
        r <= a + b + (a + b) / 0x80_0000 + 1,
        settled_single(r as nat),
{
    let n: u64 = a + b;
    let step: u64 = find_single_step(n);
    let steps: u128 = find_nearest(n as u128, step as u128);
    let ghost q = n as nat / step as nat;
    let ghost rest = n as nat % step as nat;
    proof {
        lemma_single_step(n as nat);
        assert(q * step + rest == n && rest < step) by (nonlinear_arith)
            requires
                q == n as nat / step as nat,
                rest == n as nat % step as nat,
                step >= 1,
        ;
        assert((q + 1) * step == q * step + step) by (nonlinear_arith);
        lemma2_to64();
        let r = steps * step;
        if n >= SINGLE_CEILING {
            lemma_single_step_is(n as nat, 28);
            assert(step == 0x1000_0000);
            assert(r == steps * 0x1000_0000);
            assert(rest == n % 0x1000_0000);
            if a >= SINGLE_CEILING {
                assert(n == (a / 0x1000_0000) * 0x1000_0000 + b);
            }
            assert(steps == q);
        } else if n >= SINGLE_CEILING / 2 {
            lemma_single_step_is(n as nat, 27);
            assert(step == 0x800_0000);
            assert(r == steps * 0x800_0000);
            assert(q == n / 0x800_0000);
            assert(steps <= q + 1);
        } else {
            assert(r <= n + step);
            assert(r < SINGLE_CEILING);
        }
    }
    (steps * step as u128) as u64
}

/// A rounded quotient is no further from the quotient than a half, and even where both neighbours are as
/// near.
pub proof fn a_quotient_is_rounded_to_the_nearest(n: nat, d: nat)
    requires
        d > 0,
    ensures
        2 * (nearest(n, d) * d - n) <= d,
        2 * (n - nearest(n, d) * d) <= d,
        2 * (nearest(n, d) * d - n) == d || 2 * (n - nearest(n, d) * d) == d ==> nearest(n, d) % 2 == 0,
{
    let q = n / d;
    let rest = n % d;
    assert(q * d + rest == n && rest < d) by (nonlinear_arith)
        requires
            q == n / d,
            rest == n % d,
            d > 0,
    ;
    assert((q + 1) * d == q * d + d) by (nonlinear_arith);
}

/// A number in single precision is within a half of the distance of its neighbours, which is at most one
/// part in eight million; a smaller number is held as it is.
pub proof fn single_precision_is_near(n: nat)
    ensures
        n < 0x100_0000 ==> as_single(n) == n,
        n >= 0x100_0000 ==> 0x100_0000 * (as_single(n) - n) <= n,
        n >= 0x100_0000 ==> 0x100_0000 * (n - as_single(n)) <= n,
{
    lemma_single_step(n);
    let step = single_step(n);
    a_quotient_is_rounded_to_the_nearest(n, step);
    if n < 0x100_0000 {
        assert(nearest(n, 1) == n);
    }
}

proof fn lemma_double_step(n: nat)
    ensures
        double_step(n) >= 1,
        n < 0x20_0000_0000_0000 ==> double_step(n) == 1,
        n >= 0x20_0000_0000_0000 ==> double_step(n) * 0x10_0000_0000_0000 <= n,
    decreases n,
{
    if n >= 0x20_0000_0000_0000 {
        lemma_double_step(n / 2);
    }
}

/// A number in double precision is as near, to one part in nine thousand million million.
pub proof fn double_precision_is_near(n: nat)
    ensures
        n < 0x20_0000_0000_0000 ==> as_double(n) == n,
        n >= 0x20_0000_0000_0000 ==> 0x20_0000_0000_0000 * (as_double(n) - n) <= n,
        n >= 0x20_0000_0000_0000 ==> 0x20_0000_0000_0000 * (n - as_double(n)) <= n,
{
    lemma_double_step(n);
    let step = double_step(n);
    a_quotient_is_rounded_to_the_nearest(n, step);
    if n < 0x20_0000_0000_0000 {
        assert(nearest(n, 1) == n);
    }
}

} // verus!
