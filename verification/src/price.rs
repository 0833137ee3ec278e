//! Unit price as a sigmoid function of supply and curve parameters.
//!
//! The curve is a logistic function written in a two-branch unsigned form, so
//! that no negative exponent is ever represented: below the midpoint the
//! denominator is `1 + e^(k*(m - pct))`, at or above it `1 + 1/e^(k*(pct - m))`.
//! The boundary `pct == midpoint` is deliberately routed to the upper branch.
//! The price rises from `initial_price` at zero supply towards
//! `initial_price * max_price_factor` at full supply.

use crate::exp::{exp_approx, exp_s, lemma_exp_ge_scale, lemma_exp_mono};
use crate::fixed::{
    lemma_mul_within_cap, lemma_sat_add_le, lemma_sat_sub_le, lemma_scaled_div_ge_den,
    lemma_scaled_div_le_num, lemma_scaled_div_le_self, lemma_scaled_mul_le, sat_add, sat_add_s,
    sat_sub, sat_sub_s, scaled_div, scaled_div_s, scaled_mul, scaled_mul_s, SCALE,
};
use crate::params::CurveParameters;
use vstd::arithmetic::div_mod::{lemma_fundamental_div_mod, lemma_mod_division_less_than_divisor};
use vstd::prelude::*;

verus! {

/// Large denominator used in place of a division by a vanished exponential.
pub const PRICE_DENOM_SENTINEL: u128 = 1000 * SCALE;

/// Fraction of the total supply already sold, as a fixed-point value in
/// `[0, SCALE]` for supplies within the allocation.  A zero total supply is a
/// degenerate pool treated as fully sold.
pub open spec fn percentage_sold_s(supply: u128, p: CurveParameters) -> u128 {
    if p.total_supply == 0 {
        SCALE
    } else {
        scaled_div_s(supply, p.total_supply)
    }
}

/// Denominator of the sigmoid at a given percentage sold.
pub open spec fn price_denominator_s(pct: u128, p: CurveParameters) -> u128 {
    if pct < p.midpoint {
        let e: u128 = exp_s(scaled_mul_s(p.steepness, sat_sub_s(p.midpoint, pct)));
        sat_add_s(SCALE, e)
    } else {
        let e: u128 = exp_s(scaled_mul_s(p.steepness, sat_sub_s(pct, p.midpoint)));
        if e == 0 {
            PRICE_DENOM_SENTINEL
        } else {
            sat_add_s(SCALE, scaled_div_s(SCALE, e))
        }
    }
}

/// Distance between the price floor and the price ceiling.
pub open spec fn price_range_s(p: CurveParameters) -> u128 {
    sat_sub_s(scaled_mul_s(p.initial_price, p.max_price_factor), p.initial_price)
}

/// Unit price at a given circulating supply.
pub open spec fn price_s(supply: u128, p: CurveParameters) -> u128 {
    if supply == 0 {
        p.initial_price
    } else {
        let pct: u128 = percentage_sold_s(supply, p);
        sat_add_s(p.initial_price, scaled_div_s(price_range_s(p), price_denominator_s(pct, p)))
    }
}

/// Compute the sigmoid price at a circulating supply.  At zero supply the
/// price is exactly the floor `initial_price`.
pub fn price(supply: u128, params: &CurveParameters) -> (r: u128)
    ensures
        r == price_s(supply, *params),
        supply == 0 ==> r == params.initial_price,
{
    if supply == 0 {
        return params.initial_price;
    }
    let pct: u128 = if params.total_supply == 0 {
        SCALE
    } else {
        scaled_div(supply, params.total_supply)
    };
    let max_price: u128 = scaled_mul(params.initial_price, params.max_price_factor);
    let range: u128 = sat_sub(max_price, params.initial_price);
    let denom: u128 = if pct < params.midpoint {
        let e: u128 = exp_approx(scaled_mul(params.steepness, sat_sub(params.midpoint, pct)));
        sat_add(SCALE, e)
    } else {
        let e: u128 = exp_approx(scaled_mul(params.steepness, sat_sub(pct, params.midpoint)));
        if e == 0 {
            PRICE_DENOM_SENTINEL
        } else {
            sat_add(SCALE, scaled_div(SCALE, e))
        }
    };
    sat_add(params.initial_price, scaled_div(range, denom))
}

/// The price at zero supply is exactly the floor.
pub proof fn lemma_price_floor(p: CurveParameters)
    ensures
        price_s(0, p) == p.initial_price,
{
}

/// The sigmoid denominator never falls below one whole unit.
proof fn lemma_denominator_ge_scale(pct: u128, p: CurveParameters)
    ensures
        price_denominator_s(pct, p) >= SCALE,
{
}

/// The price never leaves the band between the floor and the ceiling
/// `initial_price + price_range`, whatever the supply.
pub proof fn lemma_price_bounds(supply: u128, p: CurveParameters)
    ensures
        p.initial_price <= price_s(supply, p),
        price_s(supply, p) <= sat_add_s(p.initial_price, price_range_s(p)),
{
    if supply != 0 {
        let pct = percentage_sold_s(supply, p);
        lemma_denominator_ge_scale(pct, p);
        lemma_scaled_div_le_self(price_range_s(p), price_denominator_s(pct, p));
        lemma_sat_add_le(
            p.initial_price,
            scaled_div_s(price_range_s(p), price_denominator_s(pct, p)),
            p.initial_price,
            price_range_s(p),
        );
    }
}

/// Below the midpoint the price stays in the lower half of the band: the
/// denominator is at least two whole units there, so the added range share is
/// at most half the range.
pub proof fn lemma_price_below_midpoint(supply: u128, p: CurveParameters)
    requires
        supply > 0,
        percentage_sold_s(supply, p) < p.midpoint,
    ensures
        price_s(supply, p) <= sat_add_s(
            p.initial_price,
            scaled_div_s(price_range_s(p), (2 * SCALE) as u128),
        ),
{
    let pct = percentage_sold_s(supply, p);
    lemma_exp_ge_scale(scaled_mul_s(p.steepness, sat_sub_s(p.midpoint, pct)));
    assert(price_denominator_s(pct, p) >= 2 * SCALE);
    lemma_scaled_div_ge_den(price_range_s(p), (2 * SCALE) as u128, price_denominator_s(pct, p));
    lemma_sat_add_le(
        p.initial_price,
        scaled_div_s(price_range_s(p), price_denominator_s(pct, p)),
        p.initial_price,
        scaled_div_s(price_range_s(p), (2 * SCALE) as u128),
    );
}

/// The sigmoid denominator shrinks as the percentage sold grows.
proof fn lemma_denominator_antitone(p: CurveParameters, pct1: u128, pct2: u128)
    requires
        pct1 <= pct2,
    ensures
        price_denominator_s(pct1, p) >= price_denominator_s(pct2, p),
{
    let m = p.midpoint;
    let k = p.steepness;
    if pct2 < m {
        // both below the midpoint
        lemma_sat_sub_le(m, pct2, m, pct1);
        lemma_scaled_mul_le(k, sat_sub_s(m, pct2), k, sat_sub_s(m, pct1));
        lemma_exp_mono(
            scaled_mul_s(k, sat_sub_s(m, pct2)),
            scaled_mul_s(k, sat_sub_s(m, pct1)),
        );
        lemma_sat_add_le(
            SCALE,
            exp_s(scaled_mul_s(k, sat_sub_s(m, pct2))),
            SCALE,
            exp_s(scaled_mul_s(k, sat_sub_s(m, pct1))),
        );
    } else if pct1 >= m {
        // both at or above the midpoint
        let e1 = exp_s(scaled_mul_s(k, sat_sub_s(pct1, m)));
        let e2 = exp_s(scaled_mul_s(k, sat_sub_s(pct2, m)));
        lemma_sat_sub_le(pct1, m, pct2, m);
        lemma_scaled_mul_le(k, sat_sub_s(pct1, m), k, sat_sub_s(pct2, m));
        lemma_exp_mono(
            scaled_mul_s(k, sat_sub_s(pct1, m)),
            scaled_mul_s(k, sat_sub_s(pct2, m)),
        );
        lemma_exp_ge_scale(scaled_mul_s(k, sat_sub_s(pct1, m)));
        lemma_exp_ge_scale(scaled_mul_s(k, sat_sub_s(pct2, m)));
        lemma_scaled_div_ge_den(SCALE, e1, e2);
        lemma_sat_add_le(SCALE, scaled_div_s(SCALE, e2), SCALE, scaled_div_s(SCALE, e1));
    } else {
        // pct1 below, pct2 at or above: the lower branch stays at two whole
        // units or more, the upper branch at two or less
        let e1 = exp_s(scaled_mul_s(k, sat_sub_s(m, pct1)));
        let e2 = exp_s(scaled_mul_s(k, sat_sub_s(pct2, m)));
        lemma_exp_ge_scale(scaled_mul_s(k, sat_sub_s(m, pct1)));
        lemma_exp_ge_scale(scaled_mul_s(k, sat_sub_s(pct2, m)));
        lemma_scaled_div_le_self(SCALE, e2);
        assert(price_denominator_s(pct1, p) >= 2 * SCALE);
        assert(price_denominator_s(pct2, p) <= 2 * SCALE);
    }
}

/// The percentage sold is monotone in the supply while the exact division
/// path applies.
proof fn lemma_percentage_mono(p: CurveParameters, s1: u128, s2: u128)
    requires
        s1 <= s2,
        s2 <= p.total_supply,
        p.total_supply <= u128::MAX / SCALE,
    ensures
        percentage_sold_s(s1, p) <= percentage_sold_s(s2, p),
{
    if p.total_supply != 0 {
        lemma_scaled_div_le_num(s1, s2, p.total_supply);
    }
}

/// Monotonicity of the curve: with fixed parameters, the price never falls as
/// the supply grows across `[0, total_supply]`.  The bound on `total_supply`
/// keeps every percentage computation on the exact division path.
pub proof fn lemma_price_monotonic(p: CurveParameters, s1: u128, s2: u128)
    requires
        p.wf(),
        p.total_supply <= u128::MAX / SCALE,
        s1 <= s2,
        s2 <= p.total_supply,
    ensures
        price_s(s1, p) <= price_s(s2, p),
{
    if s1 == 0 || s1 == s2 {
    } else {
        let pct1 = percentage_sold_s(s1, p);
        let pct2 = percentage_sold_s(s2, p);
        lemma_percentage_mono(p, s1, s2);
        lemma_denominator_antitone(p, pct1, pct2);
        lemma_denominator_ge_scale(pct2, p);
        lemma_scaled_div_ge_den(
            price_range_s(p),
            price_denominator_s(pct2, p),
            price_denominator_s(pct1, p),
        );
        lemma_sat_add_le(
            p.initial_price,
            scaled_div_s(price_range_s(p), price_denominator_s(pct1, p)),
            p.initial_price,
            scaled_div_s(price_range_s(p), price_denominator_s(pct2, p)),
        );
    }
}

/// Ceiling convergence: at full supply the price is at most
/// `initial_price + price_range`, and falls short of that ceiling by no more
/// than the range scaled by the reciprocal of the exponential at the top of
/// the curve (plus two units of rounding).
pub proof fn lemma_price_ceiling(p: CurveParameters)
    requires
        p.wf(),
        p.total_supply <= u128::MAX / SCALE,
        p.midpoint <= SCALE,
        price_range_s(p) <= u128::MAX / SCALE,
        p.initial_price + price_range_s(p) <= u128::MAX,
    ensures
        price_s(p.total_supply, p) <= p.initial_price + price_range_s(p),
        p.initial_price + price_range_s(p) <= price_s(p.total_supply, p) + scaled_mul_s(
            price_range_s(p),
            scaled_div_s(SCALE, exp_s(scaled_mul_s(p.steepness, sat_sub_s(SCALE, p.midpoint)))),
        ) + 2,
{
    let t = p.total_supply;
    // at full supply the percentage sold is exactly one whole unit
    lemma_mul_within_cap(t, SCALE, u128::MAX);
    assert((t * SCALE) / (t as int) == SCALE) by (nonlinear_arith)
        requires
            t > 0,
    ;
    let pct = percentage_sold_s(t, p);
    assert(pct == SCALE);
    let ex = scaled_mul_s(p.steepness, sat_sub_s(SCALE, p.midpoint));
    let e = exp_s(ex);
    lemma_exp_ge_scale(ex);
    let q = scaled_div_s(SCALE, e);
    lemma_scaled_div_le_self(SCALE, e);
    assert(price_denominator_s(pct, p) == SCALE + q);
    let range = price_range_s(p);
    let v = scaled_div_s(range, (SCALE + q) as u128);
    lemma_scaled_div_le_self(range, (SCALE + q) as u128);
    assert(price_s(t, p) == p.initial_price + v);
    // the shortfall below the ceiling is at most the range scaled by q
    lemma_mul_within_cap(range, SCALE, u128::MAX);
    let d: int = SCALE + q;
    lemma_fundamental_div_mod((range * SCALE) as int, d);
    lemma_mod_division_less_than_divisor((range * SCALE) as int, d);
    lemma_fundamental_div_mod((range * q) as int, SCALE as int);
    lemma_mod_division_less_than_divisor((range * q) as int, SCALE as int);
    if range == 0 || q == 0 {
        if q == 0 {
            assert((range * SCALE) / (SCALE as int) == range) by (nonlinear_arith)
                requires
                    SCALE > 0,
            ;
        }
    } else {
        let f = scaled_mul_s(range, q);
        assert(range * q <= u128::MAX) by {
            lemma_mul_within_cap(range, SCALE, u128::MAX);
            assert(range * q <= range * SCALE) by (nonlinear_arith)
                requires
                    q <= SCALE,
                    range >= 0,
            ;
        };
        assert(f == (range * q) / (SCALE as int));
        assert(range <= v + f + 2) by (nonlinear_arith)
            requires
                range * SCALE == d * v + (range * SCALE) % d,
                0 <= (range * SCALE) % d < d,
                range * q == SCALE * f + (range * q) % (SCALE as int),
                0 <= (range * q) % (SCALE as int) < SCALE,
                d == SCALE + q,
                0 <= q <= SCALE,
                0 <= v <= range,
                SCALE > 0,
        ;
    }
}

} // verus!
