//! Fixed-point rescaling between decimal precisions.

use vstd::prelude::*;
use vstd::arithmetic::div_mod::{
    lemma_basic_div, lemma_div_multiples_vanish, lemma_div_nonincreasing, lemma_div_pos_is_pos,
};

verus! {

/// Ten to the power `n`.
pub open spec fn pow10(n: nat) -> int
    decreases n,
{
    if n == 0 {
        1
    } else {
        10 * pow10((n - 1) as nat)
    }
}

/// The quotient of `a` by a positive `d`, truncated toward zero.
pub open spec fn div_toward_zero(a: int, d: int) -> int {
    if a >= 0 {
        a / d
    } else {
        -((-a) / d)
    }
}

/// A fixed-point `value` with `from` decimals, rescaled to `to` decimals:
/// multiplied by a power of ten when the precision grows, divided by one and
/// truncated toward zero when it shrinks.
pub open spec fn normalized(value: int, from: nat, to: nat) -> int {
    if to >= from {
        value * pow10((to - from) as nat)
    } else {
        div_toward_zero(value, pow10((from - to) as nat))
    }
}

/// Whether `x` can be held in 128 signed bits.
pub open spec fn fits_i128(x: int) -> bool {
    i128::MIN <= x <= i128::MAX
}

/// The largest exponent whose power of ten fits in 128 signed bits.
pub const MAX_EXPONENT: u32 = 38;

/// Powers of ten are positive and grow with the exponent.
pub proof fn lemma_pow10_grows(a: nat, b: nat)
    requires
        a <= b,
    ensures
        1 <= pow10(a) <= pow10(b),
    decreases b,
{
    if a == 0 {
        if b > 0 {
            lemma_pow10_grows(0, (b - 1) as nat);
        }
    } else {
        lemma_pow10_grows((a - 1) as nat, (b - 1) as nat);
    }
}

/// The last power of ten within 128 signed bits, and the first beyond them.
pub proof fn lemma_pow10_limits()
    ensures
        pow10(38) == 100000000000000000000000000000000000000,
        pow10(38) <= i128::MAX,
        pow10(39) > -(i128::MIN as int),
{
    reveal_with_fuel(pow10, 40);
}

/// Scaling up and back down gives the value again: growing the precision
/// loses nothing.
pub proof fn lemma_upscaling_is_exact(value: int, from: nat, to: nat)
    requires
        from <= to,
    ensures
        normalized(normalized(value, from, to), to, from) == value,
{
    if from < to {
        let p = pow10((to - from) as nat);
        lemma_pow10_grows(0, (to - from) as nat);
        if value >= 0 {
            assert(value * p >= 0) by (nonlinear_arith)
                requires
                    value >= 0,
                    p >= 1,
            ;
            assert(value * p == p * value) by (nonlinear_arith);
            lemma_div_multiples_vanish(value, p);
        } else {
            assert(value * p < 0) by (nonlinear_arith)
                requires
                    value < 0,
                    p >= 1,
            ;
            assert(-(value * p) == p * (-value)) by (nonlinear_arith);
            lemma_div_multiples_vanish(-value, p);
        }
    } else {
        assert(pow10(0) == 1);
        assert(value * 1 == value);
    }
}

/// Ten to the power `n`, where it fits.
pub fn power_of_ten(n: u32) -> (r: Option<i128>)
    ensures
        r is Some <==> n <= MAX_EXPONENT,
        r matches Some(p) ==> p == pow10(n as nat),
        r is None ==> pow10(n as nat) > -(i128::MIN as int),
{
    if n > MAX_EXPONENT {
        proof {
            lemma_pow10_limits();
            lemma_pow10_grows(39, n as nat);
        }
        return None;
    }
    let mut acc: i128 = 1;
    let mut i: u32 = 0;
    while i < n
        invariant
            i <= n <= MAX_EXPONENT,
            acc == pow10(i as nat),
        decreases n - i,
    {
        proof {
            lemma_pow10_limits();
            lemma_pow10_grows((i + 1) as nat, 38);
        }
        acc = acc * 10;
        i += 1;
    }
    Some(acc)
}

/// Rescales `value` from `from_decimals` to `to_decimals`, or reports that the
/// result does not fit.
pub fn checked_normalize(value: i128, from_decimals: u32, to_decimals: u32) -> (r: Option<i128>)
    ensures
        r is Some <==> fits_i128(normalized(value as int, from_decimals as nat, to_decimals as nat)),
        r matches Some(x) ==> x == normalized(
            value as int,
            from_decimals as nat,
            to_decimals as nat,
        ),
{
    if to_decimals >= from_decimals {
        let scale = power_of_ten(to_decimals - from_decimals);
        match scale {
            Some(p) => value.checked_mul(p),
            None => {
                proof {
                    let p = pow10((to_decimals - from_decimals) as nat);
                    if value > 0 {
                        assert(value * p >= p) by (nonlinear_arith)
                            requires
                                value >= 1,
                                p >= 0,
                        ;
                    } else if value < 0 {
                        assert(value * p <= -p) by (nonlinear_arith)
                            requires
                                value <= -1,
                                p >= 0,
                        ;
                    } else {
                        assert(value * p == 0) by (nonlinear_arith)
                            requires
                                value == 0,
                        ;
                    }
                }
                if value == 0 {
                    Some(0)
                } else {
                    None
                }
            },
        }
    } else {
        let scale = power_of_ten(from_decimals - to_decimals);
        match scale {
            Some(p) => {
                proof {
                    lemma_pow10_grows(0, (from_decimals - to_decimals) as nat);
                    if value >= 0 {
                        lemma_div_pos_is_pos(value as int, p as int);
                        lemma_div_nonincreasing(value as int, p as int);
                    } else {
                        lemma_div_pos_is_pos(-(value as int), p as int);
                        lemma_div_nonincreasing(-(value as int), p as int);
                    }
                }
                Some(value / p)
            },
            None => {
                proof {
                    let p = pow10((from_decimals - to_decimals) as nat);
                    if value >= 0 {
                        lemma_basic_div(value as int, p);
                    } else {
                        lemma_basic_div(-(value as int), p);
                    }
                }
                Some(0)
            },
        }
    }
}

/// Rescales `value` from `from_decimals` to `to_decimals`.
pub fn normalize(value: i128, from_decimals: u32, to_decimals: u32) -> (r: i128)
    requires
        fits_i128(normalized(value as int, from_decimals as nat, to_decimals as nat)),
    ensures
        r == normalized(value as int, from_decimals as nat, to_decimals as nat),
        to_decimals >= from_decimals ==> r == value * pow10((to_decimals - from_decimals) as nat),
        to_decimals < from_decimals ==> r == div_toward_zero(
            value as int,
            pow10((from_decimals - to_decimals) as nat),
        ),
{
    checked_normalize(value, from_decimals, to_decimals).unwrap()
}

} // verus!
