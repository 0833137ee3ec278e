//! Bounded series approximation of `e^x` for non-negative fixed-point `x`.
//!
//! The approximation is a truncated Taylor series with at most fourteen terms
//! and an early stop once a term becomes negligible.  Inputs above fifty whole
//! units yield a large saturating sentinel instead: the series is not
//! trustworthy that far out and the sentinel avoids overflow.  This exact
//! algorithm, not a reference exponential, is the specification: downstream
//! values are derived from it.

use crate::fixed::{
    lemma_sat_add_le, lemma_scaled_mul_le, sat_add, sat_add_s, scaled_mul, scaled_mul_s, SCALE,
};
use vstd::arithmetic::div_mod::lemma_div_is_ordered;
use vstd::arithmetic::mul::{lemma_mul_inequality, lemma_mul_upper_bound};
use vstd::prelude::*;

verus! {

/// Inputs above this bound short-circuit to [`EXP_SATURATED`].
pub const EXP_INPUT_CAP: u128 = 50 * SCALE;

/// Sentinel for "effectively unbounded" exponentials.
pub const EXP_SATURATED: u128 = u128::MAX / 2;

/// A series term below this threshold is negligible and stops the series.
pub const EXP_TERM_FLOOR: u128 = SCALE / 1_000_000;

/// State of the truncated series from iteration `i` on: `term` is the series
/// term computed last, `acc` the sum so far.  Each step divides by the plain
/// iteration count, adds the new term saturating, and stops early on a
/// negligible term.
pub open spec fn exp_taylor(x: u128, term: u128, acc: u128, i: nat) -> u128
    decreases 15 - i,
{
    if i < 1 || i > 14 {
        acc
    } else {
        let t: u128 = (((scaled_mul_s(term, x) as int) / (i as int)) as u128);
        let a: u128 = sat_add_s(acc, t);
        if t < EXP_TERM_FLOOR {
            a
        } else {
            exp_taylor(x, t, a, i + 1)
        }
    }
}

/// The approximated exponential: exactly one whole unit at zero, the series
/// for moderate inputs, the saturating sentinel above [`EXP_INPUT_CAP`].
pub open spec fn exp_s(x: u128) -> u128 {
    if x == 0 {
        SCALE
    } else if x > EXP_INPUT_CAP {
        EXP_SATURATED
    } else {
        exp_taylor(x, SCALE, SCALE, 1)
    }
}

/// Approximate `e^x` via the truncated series of [`exp_s`].
pub fn exp_approx(x: u128) -> (r: u128)
    ensures
        r == exp_s(x),
        x == 0 ==> r == SCALE,
{
    if x == 0 {
        return SCALE;
    }
    if x > EXP_INPUT_CAP {
        return EXP_SATURATED;
    }
    let mut result: u128 = SCALE;
    let mut term: u128 = SCALE;
    let mut i: u128 = 1;
    while i < 15
        invariant
            1 <= i <= 15,
            exp_taylor(x, term, result, i as nat) == exp_s(x),
        decreases 15 - i,
    {
        let t: u128 = scaled_mul(term, x) / i;
        let grown: u128 = sat_add(result, t);
        proof {
            assert(exp_taylor(x, term, result, i as nat) == if t < EXP_TERM_FLOOR {
                grown
            } else {
                exp_taylor(x, t, grown, i as nat + 1)
            });
        }
        result = grown;
        term = t;
        if term < EXP_TERM_FLOOR {
            i = 15;
        } else {
            i = i + 1;
        }
    }
    result
}

/// The series only ever adds to its accumulator.
proof fn lemma_exp_taylor_ge_acc(x: u128, term: u128, acc: u128, i: nat)
    ensures
        exp_taylor(x, term, acc, i) >= acc,
    decreases 15 - i,
{
    if 1 <= i <= 14 {
        let t: u128 = (((scaled_mul_s(term, x) as int) / (i as int)) as u128);
        let a: u128 = sat_add_s(acc, t);
        if t >= EXP_TERM_FLOOR {
            lemma_exp_taylor_ge_acc(x, t, a, i + 1);
        }
    }
}

/// The series is monotone in its input, pending term and accumulator.
proof fn lemma_exp_taylor_mono(
    x1: u128,
    term1: u128,
    acc1: u128,
    x2: u128,
    term2: u128,
    acc2: u128,
    i: nat,
)
    requires
        x1 <= x2,
        term1 <= term2,
        acc1 <= acc2,
    ensures
        exp_taylor(x1, term1, acc1, i) <= exp_taylor(x2, term2, acc2, i),
    decreases 15 - i,
{
    if 1 <= i <= 14 {
        lemma_scaled_mul_le(term1, x1, term2, x2);
        lemma_div_is_ordered(
            scaled_mul_s(term1, x1) as int,
            scaled_mul_s(term2, x2) as int,
            i as int,
        );
        let t1: u128 = (((scaled_mul_s(term1, x1) as int) / (i as int)) as u128);
        let t2: u128 = (((scaled_mul_s(term2, x2) as int) / (i as int)) as u128);
        let a1: u128 = sat_add_s(acc1, t1);
        let a2: u128 = sat_add_s(acc2, t2);
        lemma_sat_add_le(acc1, t1, acc2, t2);
        if t1 < EXP_TERM_FLOOR && t2 >= EXP_TERM_FLOOR {
            lemma_exp_taylor_ge_acc(x2, t2, a2, i + 1);
        } else if t1 >= EXP_TERM_FLOOR {
            lemma_exp_taylor_mono(x1, t1, a1, x2, t2, a2, i + 1);
        }
    }
}

/// An upper bound on the term the series can produce at step `i`: one whole
/// unit grown by a factor of at most fifty per step, shrunk by the plain
/// iteration count.
spec fn taylor_term_cap(i: nat) -> int
    decreases i,
{
    if i == 0 {
        SCALE as int
    } else {
        taylor_term_cap((i - 1) as nat) * 50 / (i as int)
    }
}

/// Every per-step term cap up to the last series step is at most `10^22`.
proof fn lemma_taylor_term_cap_le(j: nat)
    requires
        j <= 14,
    ensures
        0 <= taylor_term_cap(j) <= 10_000_000_000_000_000_000_000,
{
    assert(taylor_term_cap(0) == 1_000_000_000);
    assert(taylor_term_cap(1) == 50_000_000_000);
    assert(taylor_term_cap(2) == 1_250_000_000_000);
    assert(taylor_term_cap(3) == 20_833_333_333_333);
    assert(taylor_term_cap(4) == 260_416_666_666_662);
    assert(taylor_term_cap(5) == 2_604_166_666_666_620);
    assert(taylor_term_cap(6) == 21_701_388_888_888_500);
    assert(taylor_term_cap(7) == 155_009_920_634_917_857);
    assert(taylor_term_cap(8) == 968_812_003_968_236_606);
    assert(taylor_term_cap(9) == 5_382_288_910_934_647_811);
    assert(taylor_term_cap(10) == 26_911_444_554_673_239_055);
    assert(taylor_term_cap(11) == 122_324_747_975_787_450_250);
    assert(taylor_term_cap(12) == 509_686_449_899_114_376_041);
    assert(taylor_term_cap(13) == 1_960_332_499_611_978_369_388);
    assert(taylor_term_cap(14) == 7_001_187_498_614_208_462_100);
}

/// For inputs within [`EXP_INPUT_CAP`] the series stays far below the
/// sentinel: each term is capped by [`taylor_term_cap`] and at most fourteen
/// terms are added.
proof fn lemma_exp_taylor_capped(x: u128, term: u128, acc: u128, i: nat)
    requires
        1 <= i <= 15,
        x <= EXP_INPUT_CAP,
        term <= taylor_term_cap((i - 1) as nat),
        acc <= SCALE + (i - 1) * 10_000_000_000_000_000_000_000,
    ensures
        exp_taylor(x, term, acc, i) <= SCALE + 14 * 10_000_000_000_000_000_000_000,
    decreases 15 - i,
{
    let cap: int = 10_000_000_000_000_000_000_000;
    lemma_taylor_term_cap_le((i - 1) as nat);
    if i <= 14 {
        lemma_taylor_term_cap_le(i);
        let sm: u128 = scaled_mul_s(term, x);
        let t: u128 = (((sm as int) / (i as int)) as u128);
        if term == 0 || x == 0 {
            assert(t == 0);
        } else {
            // the raw product cannot saturate under these caps
            lemma_mul_upper_bound(term as int, cap, x as int, EXP_INPUT_CAP as int);
            assert(term * x <= u128::MAX);
            assert(sm == (term * x) / (SCALE as int));
            // sm <= term * 50, since x is at most fifty whole units
            lemma_mul_inequality(x as int, EXP_INPUT_CAP as int, term as int);
            assert(term * x == x * term && term * EXP_INPUT_CAP == EXP_INPUT_CAP * term && term
                * EXP_INPUT_CAP == (term * 50) * SCALE) by (nonlinear_arith);
            lemma_div_is_ordered((term * x) as int, (term * 50) * SCALE, SCALE as int);
            assert((term * 50) * SCALE / (SCALE as int) == term * 50) by (nonlinear_arith)
                requires
                    SCALE > 0,
            ;
            // hence t is within the cap for step i
            lemma_div_is_ordered(sm as int, term * 50, i as int);
            lemma_mul_inequality(term as int, taylor_term_cap((i - 1) as nat), 50);
            lemma_div_is_ordered(term * 50, taylor_term_cap((i - 1) as nat) * 50, i as int);
        }
        assert(t <= taylor_term_cap(i));
        assert(t <= cap);
        let a: u128 = sat_add_s(acc, t);
        assert(acc + t <= SCALE + i * cap) by (nonlinear_arith)
            requires
                acc <= SCALE + (i - 1) * cap,
                t <= cap,
                i >= 1,
        ;
        assert(a <= SCALE + i * cap);
        if t < EXP_TERM_FLOOR {
            assert(SCALE + i * cap <= SCALE + 14 * cap) by (nonlinear_arith)
                requires
                    i <= 14,
                    cap > 0,
            ;
        } else {
            lemma_exp_taylor_capped(x, t, a, i + 1);
        }
    }
}

/// The approximated exponential never falls below one whole unit.
pub proof fn lemma_exp_ge_scale(x: u128)
    ensures
        exp_s(x) >= SCALE,
{
    if x != 0 && x <= EXP_INPUT_CAP {
        lemma_exp_taylor_ge_acc(x, SCALE, SCALE, 1);
    }
}

/// The approximated exponential is monotone in its input.
pub proof fn lemma_exp_mono(x1: u128, x2: u128)
    requires
        x1 <= x2,
    ensures
        exp_s(x1) <= exp_s(x2),
{
    if x1 == 0 {
        lemma_exp_ge_scale(x2);
    } else if x1 > EXP_INPUT_CAP {
    } else if x2 > EXP_INPUT_CAP {
        lemma_exp_taylor_capped(x1, SCALE, SCALE, 1);
    } else {
        lemma_exp_taylor_mono(x1, SCALE, SCALE, x2, SCALE, SCALE, 1);
    }
}

} // verus!
