//! Exact rounding of a ratio of two naturals to an integer.

use vstd::prelude::*;

verus! {

/// The integer nearest to `num / den`. A ratio that lies exactly halfway
/// between two integers goes to the even one.
pub open spec fn round_half_even(num: nat, den: nat) -> nat
    recommends
        den > 0,
{
    let below: nat = num / den;
    let rest: nat = num % den;
    if 2 * rest > den || (2 * rest == den && below % 2 == 1) {
        below + 1
    } else {
        below
    }
}

/// The least integer that is not below `num / den`.
pub open spec fn ceil_ratio(num: nat, den: nat) -> nat
    recommends
        den > 0,
{
    if num % den == 0 {
        num / den
    } else {
        num / den + 1
    }
}

/// `round_half_even` is off by at most one half, and lands on an even integer
/// when it is off by exactly one half.
pub proof fn lemma_round_half_even_nearest(num: nat, den: nat)
    requires
        den > 0,
    ensures
        2 * (round_half_even(num, den) * den - num) <= den,
        2 * (num - round_half_even(num, den) * den) <= den,
        2 * (round_half_even(num, den) * den - num) == den || 2 * (num - round_half_even(
            num,
            den,
        ) * den) == den ==> round_half_even(num, den) % 2 == 0,
{
    let below: nat = num / den;
    let rest: nat = num % den;
    assert(num == below * den + rest && rest < den) by (nonlinear_arith)
        requires
            den > 0,
            below == num / den,
            rest == num % den,
    ;
    assert((below + 1) * den == below * den + den) by (nonlinear_arith);
}

/// Rounding keeps to the side of a whole number on which the ratio lies: a
/// ratio of at most `bound` rounds to at most `bound`, and one of at least
/// `bound` to at least `bound`.
pub proof fn lemma_round_half_even_keeps_side(num: nat, den: nat, bound: nat)
    requires
        den > 0,
    ensures
        num <= bound * den ==> round_half_even(num, den) <= bound,
        num >= bound * den ==> round_half_even(num, den) >= bound,
{
    let below: nat = num / den;
    let rest: nat = num % den;
    assert(num == below * den + rest && rest < den) by (nonlinear_arith)
        requires
            den > 0,
            below == num / den,
            rest == num % den,
    ;
    if num <= bound * den {
        assert(below < bound || (below == bound && rest == 0)) by (nonlinear_arith)
            requires
                den > 0,
                below * den + rest <= bound * den,
                rest >= 0,
        ;
    }
    if num >= bound * den {
        assert(below >= bound) by (nonlinear_arith)
            requires
                den > 0,
                below * den + rest >= bound * den,
                rest < den,
        ;
    }
}

/// `ceil_ratio(num, den)` is the one integer `c` with
/// `num <= c * den < num + den`.
pub proof fn lemma_ceil_ratio_bounds(num: nat, den: nat)
    requires
        den > 0,
    ensures
        num <= ceil_ratio(num, den) * den < num + den,
{
    let below: nat = num / den;
    let rest: nat = num % den;
    assert(num == below * den + rest && rest < den) by (nonlinear_arith)
        requires
            den > 0,
            below == num / den,
            rest == num % den,
    ;
    assert((below + 1) * den == below * den + den) by (nonlinear_arith);
}

/// No integer other than `ceil_ratio(num, den)` lies in that range.
pub proof fn lemma_ceil_ratio_unique(num: nat, den: nat, c: nat)
    requires
        den > 0,
        num <= c * den < num + den,
    ensures
        c == ceil_ratio(num, den),
{
    lemma_ceil_ratio_bounds(num, den);
    let k: nat = ceil_ratio(num, den);
    assert(c == k) by (nonlinear_arith)
        requires
            den > 0,
            num <= c * den < num + den,
            num <= k * den < num + den,
    ;
}

/// A ratio of at most one, scaled by `scale`, has a ceiling of at most `scale`.
pub proof fn lemma_ceil_ratio_scaled(part: nat, whole: nat, scale: nat)
    requires
        whole > 0,
        part <= whole,
    ensures
        ceil_ratio(part * scale, whole) <= scale,
{
    lemma_ceil_ratio_bounds(part * scale, whole);
    let k: nat = ceil_ratio(part * scale, whole);
    assert(k <= scale) by (nonlinear_arith)
        requires
            whole > 0,
            part <= whole,
            k * whole < part * scale + whole,
    ;
}

/// Computes `round_half_even`.
pub fn rounded(num: u128, den: u128) -> (r: u128)
    requires
        den > 0,
    ensures
        r == round_half_even(num as nat, den as nat),
{
    let below: u128 = num / den;
    let rest: u128 = num % den;
    let gap: u128 = den - rest;
    if rest > gap || (rest == gap && below % 2 == 1) {
        assert(below < u128::MAX) by (nonlinear_arith)
            requires
                below == num / den,
                rest == num % den,
                rest > 0,
                den > 0,
                num <= u128::MAX,
        {
            assert(num == (num / den) * den + num % den);
        }
        below + 1
    } else {
        below
    }
}

/// Computes `ceil_ratio`.
pub fn ceiling(num: u128, den: u128) -> (r: u128)
    requires
        den > 0,
    ensures
        r == ceil_ratio(num as nat, den as nat),
{
    let below: u128 = num / den;
    if num % den == 0 {
        below
    } else {
        assert(below < u128::MAX) by (nonlinear_arith)
            requires
                below == num / den,
                num % den > 0,
                den > 0,
                num <= u128::MAX,
        {
            assert(num == (num / den) * den + num % den);
        }
        below + 1
    }
}

} // verus!
