//! Trapezoidal estimate of the monetary cost of moving the supply.
//!
//! The cost of buying or selling `amount` at a current supply is estimated by
//! the two-point trapezoid rule: the mean of the prices at the two endpoint
//! supplies, times the amount.  This is a deliberate approximation; precision
//! degrades for large spans and callers needing tighter precision must split
//! the amount themselves.

use crate::fixed::{
    lemma_sat_add_le, lemma_scaled_mul_le, sat_add, sat_add_s, sat_sub, sat_sub_s, scaled_mul,
    scaled_mul_s, SCALE,
};
use crate::params::CurveParameters;
use crate::price::{lemma_price_monotonic, price, price_s};
use vstd::prelude::*;

verus! {

/// The supply after the move: selling shrinks it, buying grows it, both
/// saturating rather than under- or overflowing.
pub open spec fn new_supply_s(current_supply: u128, amount: u128, is_selling: bool) -> u128 {
    if is_selling {
        sat_sub_s(current_supply, amount)
    } else {
        sat_add_s(current_supply, amount)
    }
}

/// Trapezoidal cost estimate: `(price(current) + price(new)) * amount / 2`.
pub open spec fn cost_s(
    current_supply: u128,
    amount: u128,
    p: CurveParameters,
    is_selling: bool,
) -> u128 {
    let sum: u128 = sat_add_s(
        price_s(current_supply, p),
        price_s(new_supply_s(current_supply, amount, is_selling), p),
    );
    (((scaled_mul_s(sum, amount) as int) / 2) as u128)
}

/// Estimate the monetary cost of moving `amount` of supply from
/// `current_supply`, by the trapezoid rule of [`cost_s`].
pub fn cost(
    current_supply: u128,
    amount: u128,
    params: &CurveParameters,
    is_selling: bool,
) -> (r: u128)
    ensures
        r == cost_s(current_supply, amount, *params, is_selling),
{
    let moved: u128 = if is_selling {
        sat_sub(current_supply, amount)
    } else {
        sat_add(current_supply, amount)
    };
    let start_price: u128 = price(current_supply, params);
    let end_price: u128 = price(moved, params);
    let sum: u128 = sat_add(start_price, end_price);
    scaled_mul(sum, amount) / 2
}

/// On a buy within the allocation, a larger amount never costs less: the
/// trapezoidal estimate inherits the monotonicity of the price curve.  This
/// is what makes inverting the cost by bisection meaningful.
pub proof fn lemma_cost_monotone_in_buy_amount(
    current_supply: u128,
    amount1: u128,
    amount2: u128,
    p: CurveParameters,
)
    requires
        p.wf(),
        p.total_supply <= u128::MAX / SCALE,
        amount1 <= amount2,
        current_supply + amount2 <= p.total_supply,
    ensures
        cost_s(current_supply, amount1, p, false) <= cost_s(current_supply, amount2, p, false),
{
    lemma_price_monotonic(
        p,
        sat_add_s(current_supply, amount1),
        sat_add_s(current_supply, amount2),
    );
    lemma_sat_add_le(
        price_s(current_supply, p),
        price_s(sat_add_s(current_supply, amount1), p),
        price_s(current_supply, p),
        price_s(sat_add_s(current_supply, amount2), p),
    );
    lemma_scaled_mul_le(
        sat_add_s(
            price_s(current_supply, p),
            price_s(sat_add_s(current_supply, amount1), p),
        ),
        amount1,
        sat_add_s(
            price_s(current_supply, p),
            price_s(sat_add_s(current_supply, amount2), p),
        ),
        amount2,
    );
}

/// Sell-to-zero boundary: selling exactly the circulating supply empties the
/// pool without underflow, and the price at the emptied pool is exactly the
/// floor.
pub proof fn lemma_sell_to_zero(circulating_supply: u128, p: CurveParameters)
    ensures
        new_supply_s(circulating_supply, circulating_supply, true) == 0,
        price_s(new_supply_s(circulating_supply, circulating_supply, true), p)
            == p.initial_price,
{
}

} // verus!
