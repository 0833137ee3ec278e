//! Per-curve immutable parameter records.
//!
//! A record is created once, from five fixed-point values; zero-valued
//! optional fields are replaced by their defaults at creation.  `initial_price`
//! and `total_supply` must be positive; a violation rejects the whole record.
//! Once created, a record has no update path.

use crate::fixed::SCALE;
use crate::CurveError;
use vstd::prelude::*;

verus! {

/// Default price ceiling multiplier: ten whole units.
pub const DEFAULT_MAX_PRICE_FACTOR: u128 = 10 * SCALE;

/// Default slope sharpness: ten whole units.
pub const DEFAULT_STEEPNESS: u128 = 10 * SCALE;

/// Default inflection fraction: half the total supply.
pub const DEFAULT_MIDPOINT: u128 = SCALE / 2;

/// Immutable parameters of one bonding curve, all fixed-point scaled by
/// [`SCALE`].
#[derive(Clone, Copy, Debug, PartialEq, Eq, Structural)]
pub struct CurveParameters {
    /// Price floor at zero supply; positive.
    pub initial_price: u128,
    /// Multiplier applied to `initial_price` to get the price ceiling.
    pub max_price_factor: u128,
    /// Slope sharpness around the inflection point.
    pub steepness: u128,
    /// Fraction of total supply sold at which price crosses the inflection.
    pub midpoint: u128,
    /// Full allocation subject to the curve; positive.
    pub total_supply: u128,
}

impl CurveParameters {
    /// Creation invariant: the price floor and the allocation are positive.
    pub open spec fn wf(self) -> bool {
        self.initial_price > 0 && self.total_supply > 0
    }

    /// The record that creation yields from five raw values: defaults replace
    /// zero-valued optional fields.
    pub open spec fn with_defaults_s(
        initial_price: u128,
        max_price_factor: u128,
        steepness: u128,
        midpoint: u128,
        total_supply: u128,
    ) -> CurveParameters {
        CurveParameters {
            initial_price,
            max_price_factor: if max_price_factor == 0 {
                DEFAULT_MAX_PRICE_FACTOR
            } else {
                max_price_factor
            },
            steepness: if steepness == 0 {
                DEFAULT_STEEPNESS
            } else {
                steepness
            },
            midpoint: if midpoint == 0 {
                DEFAULT_MIDPOINT
            } else {
                midpoint
            },
            total_supply,
        }
    }

    /// Create a record from five raw fixed-point values, substituting defaults
    /// for zero-valued optional fields.  Fails with `InvalidParameters` exactly
    /// when `initial_price` or `total_supply` is zero.
    pub fn new(
        initial_price: u128,
        max_price_factor: u128,
        steepness: u128,
        midpoint: u128,
        total_supply: u128,
    ) -> (r: Result<CurveParameters, CurveError>)
        ensures
            r == if initial_price == 0 || total_supply == 0 {
                Result::<CurveParameters, CurveError>::Err(CurveError::InvalidParameters)
            } else {
                Result::<CurveParameters, CurveError>::Ok(
                    CurveParameters::with_defaults_s(
                        initial_price,
                        max_price_factor,
                        steepness,
                        midpoint,
                        total_supply,
                    ),
                )
            },
            r matches Ok(p) ==> p.wf(),
    {
        if initial_price == 0 || total_supply == 0 {
            return Err(CurveError::InvalidParameters);
        }
        Ok(
            CurveParameters {
                initial_price,
                max_price_factor: if max_price_factor == 0 {
                    DEFAULT_MAX_PRICE_FACTOR
                } else {
                    max_price_factor
                },
                steepness: if steepness == 0 {
                    DEFAULT_STEEPNESS
                } else {
                    steepness
                },
                midpoint: if midpoint == 0 {
                    DEFAULT_MIDPOINT
                } else {
                    midpoint
                },
                total_supply,
            },
        )
    }

    /// Reassemble a record from values read back from a parameter store.  A
    /// zero `initial_price` marks an absent record and fails with
    /// `InvalidCurveIdentifier`; the stored values are otherwise taken as they
    /// are, defaults having been substituted at creation.
    pub fn from_stored(
        initial_price: u128,
        max_price_factor: u128,
        steepness: u128,
        midpoint: u128,
        total_supply: u128,
    ) -> (r: Result<CurveParameters, CurveError>)
        ensures
            r == if initial_price == 0 {
                Result::<CurveParameters, CurveError>::Err(CurveError::InvalidCurveIdentifier)
            } else {
                Result::<CurveParameters, CurveError>::Ok(
                    CurveParameters {
                        initial_price,
                        max_price_factor,
                        steepness,
                        midpoint,
                        total_supply,
                    },
                )
            },
    {
        if initial_price == 0 {
            return Err(CurveError::InvalidCurveIdentifier);
        }
        Ok(CurveParameters { initial_price, max_price_factor, steepness, midpoint, total_supply })
    }
}

} // verus!
