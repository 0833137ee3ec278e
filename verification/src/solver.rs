//! Bisection search inverting the cost integral.
//!
//! Given a target monetary amount, the solver finds an asset amount whose
//! integrated cost is within a fixed tolerance of the target, by narrowing a
//! bracket around it for at most one hundred iterations.  Exhausting the
//! iterations is not a failure: the lower bracket end is returned as a
//! best-effort answer.

use crate::cost::{cost, cost_s};
use crate::fixed::{sat_add_s, sat_sub, sat_sub_s, SCALE};
use crate::params::CurveParameters;
use vstd::prelude::*;

verus! {

/// Tolerance on the cost residual.
pub const COST_TOLERANCE: u128 = SCALE / 1000;

/// Number of bisection steps before giving up.
pub const SOLVE_ITERATIONS: u64 = 100;

/// Upper end of the initial search bracket: a sell cannot exceed the
/// circulating supply, a buy cannot exceed the remaining issuable supply.
pub open spec fn solve_bracket_hi_s(current_supply: u128, p: CurveParameters, is_selling: bool) -> u128 {
    if is_selling {
        current_supply
    } else {
        sat_sub_s(p.total_supply, current_supply)
    }
}

/// One bisection step and its successors, with `fuel` steps left.  A step
/// takes the bracket midpoint, accepts it if its cost is within tolerance of
/// the target, returns the collapsed bracket as it stands, and otherwise
/// narrows towards the half holding the target.
pub open spec fn solve_rec(
    current_supply: u128,
    target_cost: u128,
    p: CurveParameters,
    is_selling: bool,
    lo: u128,
    hi: u128,
    fuel: nat,
) -> u128
    decreases fuel,
{
    if fuel == 0 {
        lo
    } else if hi == lo {
        lo
    } else {
        let mid: u128 = sat_add_s(lo, ((sat_sub_s(hi, lo) as int) / 2) as u128);
        let c: u128 = cost_s(current_supply, mid, p, is_selling);
        let diff: u128 = if c >= target_cost {
            (c - target_cost) as u128
        } else {
            (target_cost - c) as u128
        };
        if diff <= COST_TOLERANCE {
            mid
        } else if c < target_cost {
            solve_rec(current_supply, target_cost, p, is_selling, mid, hi, (fuel - 1) as nat)
        } else {
            solve_rec(current_supply, target_cost, p, is_selling, lo, mid, (fuel - 1) as nat)
        }
    }
}

/// The amount the bisection yields for a target cost.
pub open spec fn solve_s(
    current_supply: u128,
    target_cost: u128,
    p: CurveParameters,
    is_selling: bool,
) -> u128 {
    solve_rec(
        current_supply,
        target_cost,
        p,
        is_selling,
        0,
        solve_bracket_hi_s(current_supply, p, is_selling),
        SOLVE_ITERATIONS as nat,
    )
}

/// The bisection never leaves its bracket.
proof fn lemma_solve_rec_in_bracket(
    current_supply: u128,
    target_cost: u128,
    p: CurveParameters,
    is_selling: bool,
    lo: u128,
    hi: u128,
    fuel: nat,
)
    requires
        lo <= hi,
    ensures
        lo <= solve_rec(current_supply, target_cost, p, is_selling, lo, hi, fuel) <= hi,
    decreases fuel,
{
    if fuel > 0 && hi != lo {
        let mid: u128 = sat_add_s(lo, ((sat_sub_s(hi, lo) as int) / 2) as u128);
        let c: u128 = cost_s(current_supply, mid, p, is_selling);
        let diff: u128 = if c >= target_cost {
            (c - target_cost) as u128
        } else {
            (target_cost - c) as u128
        };
        if diff > COST_TOLERANCE {
            if c < target_cost {
                lemma_solve_rec_in_bracket(
                    current_supply,
                    target_cost,
                    p,
                    is_selling,
                    mid,
                    hi,
                    (fuel - 1) as nat,
                );
            } else {
                lemma_solve_rec_in_bracket(
                    current_supply,
                    target_cost,
                    p,
                    is_selling,
                    lo,
                    mid,
                    (fuel - 1) as nat,
                );
            }
        }
    }
}

/// The solved amount respects the initial bracket.
pub proof fn lemma_solve_in_bracket(
    current_supply: u128,
    target_cost: u128,
    p: CurveParameters,
    is_selling: bool,
)
    ensures
        solve_s(current_supply, target_cost, p, is_selling) <= solve_bracket_hi_s(
            current_supply,
            p,
            is_selling,
        ),
{
    lemma_solve_rec_in_bracket(
        current_supply,
        target_cost,
        p,
        is_selling,
        0,
        solve_bracket_hi_s(current_supply, p, is_selling),
        SOLVE_ITERATIONS as nat,
    );
}

/// Find the asset amount whose integrated cost is closest to `target_cost`,
/// by the bisection of [`solve_rec`].
pub fn solve(
    current_supply: u128,
    target_cost: u128,
    params: &CurveParameters,
    is_selling: bool,
) -> (r: u128)
    ensures
        r == solve_s(current_supply, target_cost, *params, is_selling),
        r <= solve_bracket_hi_s(current_supply, *params, is_selling),
{
    proof {
        lemma_solve_in_bracket(current_supply, target_cost, *params, is_selling);
    }
    let mut lo: u128 = 0;
    let mut hi: u128 = if is_selling {
        current_supply
    } else {
        sat_sub(params.total_supply, current_supply)
    };
    let mut k: u64 = 0;
    while k < SOLVE_ITERATIONS
        invariant
            k <= SOLVE_ITERATIONS,
            lo <= hi,
            hi <= solve_bracket_hi_s(current_supply, *params, is_selling),
            solve_rec(
                current_supply,
                target_cost,
                *params,
                is_selling,
                lo,
                hi,
                (SOLVE_ITERATIONS - k) as nat,
            ) == solve_s(current_supply, target_cost, *params, is_selling),
        decreases SOLVE_ITERATIONS - k,
    {
        if hi == lo {
            return lo;
        }
        let mid: u128 = lo + (hi - lo) / 2;
        let c: u128 = cost(current_supply, mid, params, is_selling);
        let diff: u128 = if c >= target_cost {
            c - target_cost
        } else {
            target_cost - c
        };
        if diff <= COST_TOLERANCE {
            return mid;
        }
        if c < target_cost {
            lo = mid;
        } else {
            hi = mid;
        }
        k = k + 1;
    }
    lo
}

} // verus!
