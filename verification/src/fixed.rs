//! Scaled multiply/divide with saturation, and saturating add/subtract.
//!
//! A fixed-point value is a `u128` holding a real number scaled by [`SCALE`].
//! Overflow never wraps and never raises an error: multiplication saturates at
//! `u128::MAX`, division by zero yields zero, and an oversized dividend falls
//! back to a less precise but overflow-free form.

use vstd::arithmetic::div_mod::{
    lemma_div_is_ordered, lemma_div_is_ordered_by_denominator, lemma_fundamental_div_mod,
};
use vstd::arithmetic::mul::lemma_mul_inequality;
use vstd::prelude::*;

verus! {

/// One whole unit in fixed-point representation.
pub const SCALE: u128 = 1_000_000_000;

/// `a * b <= cap` exactly when `a` is at most the flooring quotient `cap / b`.
pub proof fn lemma_mul_within_cap(a: u128, b: u128, cap: u128)
    requires
        b > 0,
    ensures
        a * b <= cap <==> a <= cap / b,
{
    lemma_fundamental_div_mod(cap as int, b as int);
    let q = (cap as int) / (b as int);
    assert(cap == b * q + cap % b);
    if a <= cap / b {
        lemma_mul_inequality(a as int, q, b as int);
        assert(q * b == b * q) by (nonlinear_arith);
    }
    if a > cap / b {
        lemma_mul_inequality(q + 1, a as int, b as int);
        assert((q + 1) * b == b * q + b) by (nonlinear_arith);
    }
}

/// Addition clamped to `u128::MAX`.
pub open spec fn sat_add_s(a: u128, b: u128) -> u128 {
    if a + b > u128::MAX {
        u128::MAX
    } else {
        (a + b) as u128
    }
}

/// Subtraction clamped to zero.
pub open spec fn sat_sub_s(a: u128, b: u128) -> u128 {
    if a >= b {
        (a - b) as u128
    } else {
        0
    }
}

/// `a * b / SCALE`, zero if either operand is zero, `u128::MAX` if the raw
/// product `a * b` is not representable.
pub open spec fn scaled_mul_s(a: u128, b: u128) -> u128 {
    if a == 0 || b == 0 {
        0
    } else if a * b > u128::MAX {
        u128::MAX
    } else {
        ((a * b) / (SCALE as int)) as u128
    }
}

/// `a * SCALE / b`, zero if `b` is zero.  If the pre-multiplied dividend
/// `a * SCALE` is not representable, falls back to `(a / b) * SCALE`, itself
/// clamped to `u128::MAX`.
pub open spec fn scaled_div_s(a: u128, b: u128) -> u128 {
    if b == 0 {
        0
    } else if a * SCALE > u128::MAX {
        if (a / b) * SCALE > u128::MAX {
            u128::MAX
        } else {
            ((a / b) * SCALE) as u128
        }
    } else {
        ((a * SCALE) / (b as int)) as u128
    }
}

/// Saturating addition.
pub fn sat_add(a: u128, b: u128) -> (r: u128)
    ensures
        r == sat_add_s(a, b),
{
    if a > u128::MAX - b {
        u128::MAX
    } else {
        a + b
    }
}

/// Saturating subtraction.
pub fn sat_sub(a: u128, b: u128) -> (r: u128)
    ensures
        r == sat_sub_s(a, b),
{
    if a >= b {
        a - b
    } else {
        0
    }
}

/// Fixed-point multiplication: `a * b / SCALE` with the saturating policy of
/// [`scaled_mul_s`].  The raw product overflowing yields `u128::MAX`, never a
/// wrapped value.
pub fn scaled_mul(a: u128, b: u128) -> (r: u128)
    ensures
        r == scaled_mul_s(a, b),
        a != 0 && b != 0 && a * b > u128::MAX ==> r == u128::MAX,
{
    if a == 0 || b == 0 {
        return 0;
    }
    if a > u128::MAX / b {
        proof {
            lemma_mul_within_cap(a, b, u128::MAX);
        }
        return u128::MAX;
    }
    proof {
        lemma_mul_within_cap(a, b, u128::MAX);
    }
    a * b / SCALE
}

/// Fixed-point division: `a * SCALE / b` with the defined-value policy of
/// [`scaled_div_s`].  Division by zero yields zero.
pub fn scaled_div(a: u128, b: u128) -> (r: u128)
    ensures
        r == scaled_div_s(a, b),
{
    if b == 0 {
        return 0;
    }
    if a > u128::MAX / SCALE {
        proof {
            lemma_mul_within_cap(a, SCALE, u128::MAX);
        }
        let q = a / b;
        if q > u128::MAX / SCALE {
            proof {
                lemma_mul_within_cap(q, SCALE, u128::MAX);
            }
            u128::MAX
        } else {
            proof {
                lemma_mul_within_cap(q, SCALE, u128::MAX);
            }
            q * SCALE
        }
    } else {
        proof {
            lemma_mul_within_cap(a, SCALE, u128::MAX);
        }
        a * SCALE / b
    }
}

/// Saturating addition is monotone in both operands.
pub proof fn lemma_sat_add_le(a1: u128, b1: u128, a2: u128, b2: u128)
    requires
        a1 <= a2,
        b1 <= b2,
    ensures
        sat_add_s(a1, b1) <= sat_add_s(a2, b2),
{
}

/// Saturating subtraction grows with the minuend and shrinks with the subtrahend.
pub proof fn lemma_sat_sub_le(a1: u128, b1: u128, a2: u128, b2: u128)
    requires
        a1 <= a2,
        b2 <= b1,
    ensures
        sat_sub_s(a1, b1) <= sat_sub_s(a2, b2),
{
}

/// Scaled multiplication is monotone in both operands.
pub proof fn lemma_scaled_mul_le(a1: u128, b1: u128, a2: u128, b2: u128)
    requires
        a1 <= a2,
        b1 <= b2,
    ensures
        scaled_mul_s(a1, b1) <= scaled_mul_s(a2, b2),
{
    if a1 == 0 || b1 == 0 {
    } else {
        lemma_mul_inequality(a1 as int, a2 as int, b1 as int);
        lemma_mul_inequality(b1 as int, b2 as int, a2 as int);
        assert(a1 * b1 <= a2 * b1);
        assert(b1 * a2 <= b2 * a2) by (nonlinear_arith)
            requires
                b1 <= b2,
                a2 >= 0,
        ;
        assert(a2 * b1 == b1 * a2) by (nonlinear_arith);
        assert(b2 * a2 == a2 * b2) by (nonlinear_arith);
        if a2 * b2 <= u128::MAX {
            lemma_div_is_ordered((a1 * b1) as int, (a2 * b2) as int, SCALE as int);
        } else if a1 * b1 <= u128::MAX {
            lemma_div_is_ordered((a1 * b1) as int, u128::MAX as int, SCALE as int);
            assert(u128::MAX as int / (SCALE as int) <= u128::MAX as int) by (nonlinear_arith);
        }
    }
}

/// Scaled division is monotone in the dividend while the exact path applies.
pub proof fn lemma_scaled_div_le_num(a1: u128, a2: u128, b: u128)
    requires
        a1 <= a2,
        a2 <= u128::MAX / SCALE,
        b > 0,
    ensures
        scaled_div_s(a1, b) <= scaled_div_s(a2, b),
{
    lemma_mul_within_cap(a1, SCALE, u128::MAX);
    lemma_mul_within_cap(a2, SCALE, u128::MAX);
    lemma_mul_inequality(a1 as int, a2 as int, SCALE as int);
    lemma_div_is_ordered((a1 * SCALE) as int, (a2 * SCALE) as int, b as int);
}

/// Scaled division is antitone in the divisor.
pub proof fn lemma_scaled_div_ge_den(a: u128, b1: u128, b2: u128)
    requires
        0 < b1 <= b2,
    ensures
        scaled_div_s(a, b1) >= scaled_div_s(a, b2),
{
    if a * SCALE > u128::MAX {
        lemma_div_is_ordered_by_denominator(a as int, b1 as int, b2 as int);
        lemma_mul_inequality((a / b2) as int, (a / b1) as int, SCALE as int);
    } else {
        lemma_div_is_ordered_by_denominator((a * SCALE) as int, b1 as int, b2 as int);
    }
}

/// Dividing by at least one whole unit cannot increase a value.
pub proof fn lemma_scaled_div_le_self(a: u128, b: u128)
    requires
        b >= SCALE,
    ensures
        scaled_div_s(a, b) <= a,
{
    if a * SCALE > u128::MAX {
        assert((a / b) * SCALE <= a) by (nonlinear_arith)
            requires
                b >= SCALE > 0,
        ;
    } else {
        lemma_div_is_ordered_by_denominator((a * SCALE) as int, SCALE as int, b as int);
        assert((a * SCALE) / (SCALE as int) == a) by (nonlinear_arith)
            requires
                SCALE > 0,
        ;
    }
}

} // verus!
