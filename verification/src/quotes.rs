//! The exposed pure quote operations.
//!
//! Each operation takes the values the host boundary supplies — the curve's
//! transition flag, the externally derived circulating supply, the collected
//! monetary reserve where a payout is checked against it — together with the
//! curve parameters, and returns the quoted amount and the resulting price.
//! No state persists between invocations.

use crate::cost::{cost, cost_s};
use crate::fixed::{sat_add, sat_add_s, scaled_div, scaled_div_s};
use crate::params::CurveParameters;
use crate::price::{price, price_s};
use crate::solver::{solve, solve_s};
use crate::CurveError;
use vstd::prelude::*;

verus! {

/// Quote the asset amount received for a given monetary input, and the price
/// after the purchase.  A transitioned curve and a zero input are refused; on
/// a first purchase from zero supply the amount is priced at the floor
/// directly.
pub fn calculate_buy(
    transitioned: bool,
    circulating_supply: u128,
    weth_amount: u128,
    params: &CurveParameters,
) -> (r: Result<(u128, u128), CurveError>)
    ensures
        transitioned ==> r == Result::<(u128, u128), CurveError>::Err(
            CurveError::CurveTransitioned,
        ),
        !transitioned && weth_amount == 0 ==> r == Result::<(u128, u128), CurveError>::Err(
            CurveError::InvalidAmount,
        ),
        !transitioned && weth_amount != 0 && circulating_supply == 0 ==> r == Result::<
            (u128, u128),
            CurveError,
        >::Ok((scaled_div_s(weth_amount, params.initial_price), params.initial_price)),
        !transitioned && weth_amount != 0 && circulating_supply != 0 ==> ({
            let amount = solve_s(circulating_supply, weth_amount, *params, false);
            r == Result::<(u128, u128), CurveError>::Ok(
                (amount, price_s(sat_add_s(circulating_supply, amount), *params)),
            )
        }),
{
    if transitioned {
        return Err(CurveError::CurveTransitioned);
    }
    if weth_amount == 0 {
        return Err(CurveError::InvalidAmount);
    }
    if circulating_supply == 0 {
        // first purchase: the whole amount is priced at the floor
        let token_amount = scaled_div(weth_amount, params.initial_price);
        return Ok((token_amount, params.initial_price));
    }
    let token_amount = solve(circulating_supply, weth_amount, params, false);
    let new_supply = sat_add(circulating_supply, token_amount);
    let new_price = price(new_supply, params);
    Ok((token_amount, new_price))
}

/// Quote the monetary amount received for selling a given asset amount, and
/// the price after the sale.  A transitioned curve, a zero input, an amount
/// above the circulating supply, and a payout above the collected reserve are
/// refused.
pub fn calculate_sell(
    transitioned: bool,
    circulating_supply: u128,
    token_amount: u128,
    weth_collected: u128,
    params: &CurveParameters,
) -> (r: Result<(u128, u128), CurveError>)
    ensures
        transitioned ==> r == Result::<(u128, u128), CurveError>::Err(
            CurveError::CurveTransitioned,
        ),
        !transitioned && token_amount == 0 ==> r == Result::<(u128, u128), CurveError>::Err(
            CurveError::InvalidAmount,
        ),
        !transitioned && token_amount != 0 && token_amount > circulating_supply ==> r == Result::<
            (u128, u128),
            CurveError,
        >::Err(CurveError::InvalidAmount),
        !transitioned && token_amount != 0 && token_amount <= circulating_supply ==> ({
            let payout = cost_s(circulating_supply, token_amount, *params, true);
            if payout > weth_collected {
                r == Result::<(u128, u128), CurveError>::Err(CurveError::InsufficientLiquidity)
            } else {
                r == Result::<(u128, u128), CurveError>::Ok(
                    (payout, price_s((circulating_supply - token_amount) as u128, *params)),
                )
            }
        }),
{
    if transitioned {
        return Err(CurveError::CurveTransitioned);
    }
    if token_amount == 0 {
        return Err(CurveError::InvalidAmount);
    }
    if token_amount > circulating_supply {
        return Err(CurveError::InvalidAmount);
    }
    let weth_to_return = cost(circulating_supply, token_amount, params, true);
    if weth_to_return > weth_collected {
        return Err(CurveError::InsufficientLiquidity);
    }
    let new_supply = circulating_supply - token_amount;
    let new_price = price(new_supply, params);
    Ok((weth_to_return, new_price))
}

/// The current unit price: the last recorded price once the curve has
/// transitioned, the floor while nothing circulates, the sigmoid price
/// otherwise.
pub fn get_current_price(
    transitioned: bool,
    last_price: u128,
    circulating_supply: u128,
    params: &CurveParameters,
) -> (r: u128)
    ensures
        transitioned ==> r == last_price,
        !transitioned && circulating_supply == 0 ==> r == params.initial_price,
        !transitioned && circulating_supply != 0 ==> r == price_s(circulating_supply, *params),
{
    if transitioned {
        return last_price;
    }
    if circulating_supply == 0 {
        return params.initial_price;
    }
    price(circulating_supply, params)
}

/// Quote the monetary amount needed to buy an exact asset amount, and the
/// price after the purchase.
pub fn calculate_weth_for_exact_tokens(
    transitioned: bool,
    circulating_supply: u128,
    exact_token_amount: u128,
    params: &CurveParameters,
) -> (r: Result<(u128, u128), CurveError>)
    ensures
        transitioned ==> r == Result::<(u128, u128), CurveError>::Err(
            CurveError::CurveTransitioned,
        ),
        !transitioned && exact_token_amount == 0 ==> r == Result::<(u128, u128), CurveError>::Err(
            CurveError::InvalidAmount,
        ),
        !transitioned && exact_token_amount != 0 ==> r == Result::<(u128, u128), CurveError>::Ok(
            (
                cost_s(circulating_supply, exact_token_amount, *params, false),
                price_s(sat_add_s(circulating_supply, exact_token_amount), *params),
            ),
        ),
{
    if transitioned {
        return Err(CurveError::CurveTransitioned);
    }
    if exact_token_amount == 0 {
        return Err(CurveError::InvalidAmount);
    }
    let weth_needed = cost(circulating_supply, exact_token_amount, params, false);
    let new_supply = sat_add(circulating_supply, exact_token_amount);
    let new_price = price(new_supply, params);
    Ok((weth_needed, new_price))
}

/// Quote the asset amount obtainable for an exact monetary amount, and the
/// price after the purchase.
pub fn calculate_tokens_for_exact_weth(
    transitioned: bool,
    circulating_supply: u128,
    exact_weth_amount: u128,
    params: &CurveParameters,
) -> (r: Result<(u128, u128), CurveError>)
    ensures
        transitioned ==> r == Result::<(u128, u128), CurveError>::Err(
            CurveError::CurveTransitioned,
        ),
        !transitioned && exact_weth_amount == 0 ==> r == Result::<(u128, u128), CurveError>::Err(
            CurveError::InvalidAmount,
        ),
        !transitioned && exact_weth_amount != 0 ==> ({
            let amount = solve_s(circulating_supply, exact_weth_amount, *params, false);
            r == Result::<(u128, u128), CurveError>::Ok(
                (amount, price_s(sat_add_s(circulating_supply, amount), *params)),
            )
        }),
{
    if transitioned {
        return Err(CurveError::CurveTransitioned);
    }
    if exact_weth_amount == 0 {
        return Err(CurveError::InvalidAmount);
    }
    let tokens_needed = solve(circulating_supply, exact_weth_amount, params, false);
    let new_supply = sat_add(circulating_supply, tokens_needed);
    let new_price = price(new_supply, params);
    Ok((tokens_needed, new_price))
}

} // verus!
