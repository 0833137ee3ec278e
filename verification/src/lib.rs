//! Sigmoid bonding-curve pricing engine.
//!
//! Prices a continuous asset swap along a logistic ("sigmoid") bonding curve
//! in deterministic fixed-point arithmetic.  Given a circulating supply and a
//! set of immutable curve parameters, the engine computes the unit price,
//! estimates the monetary cost of moving the supply between two points by the
//! trapezoid rule, and inverts that cost integral by bisection search.
//!
//! All values are unsigned fixed-point numbers scaled by [`fixed::SCALE`].
//! Numeric edge conditions (division by zero, multiplicative overflow) never
//! surface as errors; they resolve to defined fallback values.

use vstd::prelude::*;

pub mod cost;
pub mod exp;
pub mod fixed;
pub mod params;
pub mod price;
pub mod quotes;
pub mod solver;
pub mod wire;

verus! {

/// Fatal error kinds, reported synchronously by the quote operations.
#[derive(Clone, Copy, Debug, PartialEq, Eq, Structural)]
pub enum CurveError {
    /// Zero `initial_price` or `total_supply` at parameter creation.
    InvalidParameters,
    /// No parameters stored under the given curve key.
    InvalidCurveIdentifier,
    /// Zero input amount, or an asset amount exceeding circulating supply on a sell.
    InvalidAmount,
    /// Computed payout exceeds the collected monetary reserve.
    InsufficientLiquidity,
    /// Operation attempted after the curve exited active pricing mode.
    CurveTransitioned,
}

/// Identifier of the pricing strategy family.
pub fn strategy_type() -> (r: &'static str)
    ensures
        r@ == "BondingCurve"@,
{
    "BondingCurve"
}

/// Name of this particular curve shape.
pub fn name() -> (r: &'static str)
    ensures
        r@ == "Sigmoid"@,
{
    "Sigmoid"
}

} // verus!
