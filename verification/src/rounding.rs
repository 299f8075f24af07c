//! Rounding of a quotient of two integers to the nearest integer.

use vstd::prelude::*;
use vstd::arithmetic::div_mod::*;

verus! {

/// The integer nearest to `num / den`; of two that are equally near, the even
/// one.
pub open spec fn round_half_even(num: nat, den: nat) -> nat {
    let q = num / den;
    let r = num % den;
    if 2 * r > den || (2 * r == den && q % 2 == 1) {
        q + 1
    } else {
        q
    }
}

/// Divides and rounds to the nearest integer, ties to even.
pub fn rounded_div(num: u128, den: u128) -> (q: u128)
    requires
        den > 0,
    ensures
        q == round_half_even(num as nat, den as nat),
{
    let q = num / den;
    let r = num % den;
    // `r > den - r` is `2 * r > den` without the doubling, which could overflow.
    if r > den - r || (r == den - r && q % 2 == 1) {
        proof {
            lemma_fundamental_div_mod(num as int, den as int);
            assert(q < u128::MAX) by (nonlinear_arith)
                requires
                    num == den * q + r,
                    r > 0,
                    den > 0,
                    q >= 0,
                    num <= u128::MAX,
            ;
        }
        q + 1
    } else {
        q
    }
}

/// The rounded quotient is no further than one half from the exact one, and
/// where it is exactly one half away, it is even.
pub proof fn lemma_round_is_nearest(num: nat, den: nat)
    requires
        0 < den,
    ensures
        -den <= 2 * (round_half_even(num, den) * den - num) <= den,
        2 * (round_half_even(num, den) * den - num) == den || 2 * (round_half_even(num, den) * den
            - num) == -den ==> round_half_even(num, den) % 2 == 0,
{
    let q = num / den;
    let r = num % den;
    lemma_fundamental_div_mod(num as int, den as int);
    lemma_mod_bound(num as int, den as int);
    assert((q + 1) * den == q * den + den) by (nonlinear_arith);
}

/// A multiple of the divisor is divided exactly.
pub proof fn lemma_round_exact(k: nat, den: nat)
    requires
        0 < den,
    ensures
        round_half_even(k * den, den) == k,
{
    lemma_div_by_multiple(k as int, den as int);
    lemma_mod_multiples_basic(k as int, den as int);
}

/// Rounding sees the ratio only: a factor that numerator and denominator
/// share changes nothing.
pub proof fn lemma_round_scales(num: nat, den: nat, factor: nat)
    requires
        0 < den,
        0 < factor,
    ensures
        round_half_even(factor * num, factor * den) == round_half_even(num, den),
{
    let q = num / den;
    let r = num % den;
    let scaled_num = factor * num;
    let scaled_den = factor * den;
    let scaled_q = scaled_num / scaled_den;
    let scaled_r = scaled_num % scaled_den;
    lemma_div_multiples_vanish_quotient(factor as int, num as int, den as int);
    lemma_fundamental_div_mod(num as int, den as int);
    lemma_fundamental_div_mod(scaled_num as int, scaled_den as int);
    assert(scaled_r == factor * r) by (nonlinear_arith)
        requires
            scaled_num == scaled_den * q + scaled_r,
            scaled_num == factor * num,
            scaled_den == factor * den,
            num == den * q + r,
    ;
    assert(2 * (factor * r) > factor * den <==> 2 * r > den) by (nonlinear_arith)
        requires
            0 < factor,
    ;
    assert(2 * (factor * r) == factor * den <==> 2 * r == den) by (nonlinear_arith)
        requires
            0 < factor,
    ;
}

/// Rounding keeps the order of the numerators.
pub proof fn lemma_round_is_monotone(a: nat, b: nat, den: nat)
    requires
        a <= b,
        0 < den,
    ensures
        round_half_even(a, den) <= round_half_even(b, den),
{
    lemma_div_is_ordered(a as int, b as int, den as int);
    lemma_fundamental_div_mod(a as int, den as int);
    lemma_fundamental_div_mod(b as int, den as int);
    lemma_mod_bound(a as int, den as int);
    lemma_mod_bound(b as int, den as int);
}

} // verus!
