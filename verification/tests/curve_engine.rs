use sigmoid_curve::cost::cost;
use sigmoid_curve::exp::exp_approx;
use sigmoid_curve::fixed::{scaled_div, scaled_mul, SCALE};
use sigmoid_curve::params::CurveParameters;
use sigmoid_curve::quotes::{
    calculate_buy, calculate_sell, calculate_tokens_for_exact_weth,
    calculate_weth_for_exact_tokens, get_current_price,
};
use sigmoid_curve::solver::solve;
use sigmoid_curve::price::price;
use sigmoid_curve::{name, strategy_type, CurveError};

/// The canonical parameters: initial price 1.0, ceiling factor 10.0,
/// steepness 10.0, midpoint 0.5, total supply 1,000,000 whole units.
fn canonical() -> CurveParameters {
    CurveParameters::new(SCALE, 0, 0, 0, 1_000_000 * SCALE).unwrap()
}

#[test]
fn strategy_identifiers() {
    assert_eq!(strategy_type(), "BondingCurve");
    assert_eq!(name(), "Sigmoid");
}

#[test]
fn price_floor_at_zero_supply() {
    let p = canonical();
    assert_eq!(price(0, &p), SCALE);
}

#[test]
fn midpoint_concrete_vector() {
    // at exactly the midpoint the upper branch applies with a zero exponent:
    // denominator 2.0, price 1.0 + 9.0 / 2.0 == 5.5
    let p = canonical();
    assert_eq!(price(0, &p), 1_000_000_000);
    assert_eq!(price(500_000 * SCALE, &p), 5_500_000_000);
}

#[test]
fn price_approaches_ceiling_at_full_supply() {
    let p = canonical();
    let at_top = price(1_000_000 * SCALE, &p);
    assert_eq!(at_top, 9_939_750_808);
    // never above the ceiling of 10.0
    assert!(at_top <= 10 * SCALE);
}

#[test]
fn price_is_monotone_across_supplies() {
    let p = canonical();
    let supplies: [u128; 9] = [
        0,
        1,
        1_000 * SCALE,
        100_000 * SCALE,
        300_000 * SCALE,
        500_000 * SCALE,
        700_000 * SCALE,
        900_000 * SCALE,
        1_000_000 * SCALE,
    ];
    let mut last: u128 = 0;
    for s in supplies {
        let v = price(s, &p);
        assert!(last <= v);
        last = v;
    }
}

#[test]
fn scaled_mul_saturates_instead_of_wrapping() {
    assert_eq!(scaled_mul(u128::MAX, 2), u128::MAX);
    assert_eq!(scaled_mul(2, u128::MAX), u128::MAX);
}

#[test]
fn scaled_mul_with_zero_operand() {
    assert_eq!(scaled_mul(0, 123), 0);
    assert_eq!(scaled_mul(123, 0), 0);
    assert_eq!(scaled_mul(3 * SCALE, 2 * SCALE), 6 * SCALE);
}

#[test]
fn scaled_div_defined_fallbacks() {
    // division by zero resolves to zero, never an error
    assert_eq!(scaled_div(5 * SCALE, 0), 0);
    // an oversized dividend falls back to the coarser overflow-free form
    assert_eq!(
        scaled_div(u128::MAX, 2 * SCALE),
        170_141_183_460_469_231_731_687_303_715_000_000_000
    );
    assert_eq!(scaled_div(6 * SCALE, 2 * SCALE), 3 * SCALE);
}

#[test]
fn exp_of_zero_is_one_unit() {
    assert_eq!(exp_approx(0), SCALE);
}

#[test]
fn exp_concrete_series_values() {
    // the truncated series itself is the specification of these values
    assert_eq!(exp_approx(SCALE), 2_718_281_796);
    assert_eq!(exp_approx(2 * SCALE), 7_389_056_063);
}

#[test]
fn exp_saturates_above_fifty_units() {
    assert_eq!(exp_approx(51 * SCALE), u128::MAX / 2);
}

#[test]
fn exp_is_monotone_spot() {
    let mut last: u128 = 0;
    for x in [0, 1, SCALE / 2, SCALE, 2 * SCALE, 10 * SCALE, 50 * SCALE, 51 * SCALE] {
        let v = exp_approx(x);
        assert!(last <= v);
        last = v;
    }
}

#[test]
fn buy_with_zero_amount_is_invalid() {
    let p = canonical();
    assert_eq!(
        calculate_buy(false, 300_000 * SCALE, 0, &p),
        Err(CurveError::InvalidAmount)
    );
}

#[test]
fn operations_on_transitioned_curve_are_refused() {
    let p = canonical();
    assert_eq!(
        calculate_buy(true, 1, 1, &p),
        Err(CurveError::CurveTransitioned)
    );
    assert_eq!(
        calculate_sell(true, 1, 1, u128::MAX, &p),
        Err(CurveError::CurveTransitioned)
    );
    assert_eq!(
        calculate_weth_for_exact_tokens(true, 1, 1, &p),
        Err(CurveError::CurveTransitioned)
    );
    assert_eq!(
        calculate_tokens_for_exact_weth(true, 1, 1, &p),
        Err(CurveError::CurveTransitioned)
    );
}

#[test]
fn first_buy_is_priced_at_the_floor() {
    let p = canonical();
    assert_eq!(calculate_buy(false, 0, 5 * SCALE, &p), Ok((5 * SCALE, SCALE)));
}

#[test]
fn cost_concrete_values() {
    let p = canonical();
    assert_eq!(cost(300_000 * SCALE, 10_000 * SCALE, &p, false), 21_219_012_940_000);
    assert_eq!(cost(400_000 * SCALE, 10_000 * SCALE, &p, true), 33_340_659_545_000);
}

#[test]
fn buy_round_trip_stays_within_tolerance() {
    // solving for the cost of a chosen amount recovers that amount within
    // the solver's cost tolerance
    let p = canonical();
    let amount = 10_000 * SCALE;
    let supply = 300_000 * SCALE;
    let target = cost(supply, amount, &p, false);
    assert_eq!(target, 21_219_012_940_000);
    let recovered = solve(supply, target, &p, false);
    assert_eq!(recovered, 10_000_000_055_876);
    let diff = if recovered >= amount { recovered - amount } else { amount - recovered };
    assert!(diff <= SCALE / 1000);
    // the buy quote goes through the same search
    let quoted = calculate_buy(false, supply, target, &p).unwrap();
    assert_eq!(quoted.0, recovered);
    let by_weth = calculate_tokens_for_exact_weth(false, supply, target, &p).unwrap();
    assert_eq!(by_weth.0, recovered);
}

#[test]
fn sell_of_full_circulating_supply_returns_to_floor() {
    // selling everything empties the pool without underflow and the price
    // falls back to the floor
    let p = canonical();
    let circulating = 400_000 * SCALE;
    let quoted = calculate_sell(false, circulating, circulating, u128::MAX, &p).unwrap();
    assert_eq!(quoted, (884_094_562_600_000, SCALE));
}

#[test]
fn sell_above_circulating_supply_is_invalid() {
    let p = canonical();
    assert_eq!(
        calculate_sell(false, 100, 101, u128::MAX, &p),
        Err(CurveError::InvalidAmount)
    );
    assert_eq!(
        calculate_sell(false, 100, 0, u128::MAX, &p),
        Err(CurveError::InvalidAmount)
    );
}

#[test]
fn sell_beyond_collected_reserve_is_refused() {
    let p = canonical();
    assert_eq!(
        calculate_sell(false, 400_000 * SCALE, 10_000 * SCALE, 0, &p),
        Err(CurveError::InsufficientLiquidity)
    );
}

#[test]
fn exact_token_quote_matches_cost_and_new_price() {
    let p = canonical();
    let quoted = calculate_weth_for_exact_tokens(false, 300_000 * SCALE, 10_000 * SCALE, &p);
    assert_eq!(quoted, Ok((21_219_012_940_000, 2_170_976_286)));
}

#[test]
fn current_price_paths() {
    let p = canonical();
    assert_eq!(get_current_price(true, 777, 300_000 * SCALE, &p), 777);
    assert_eq!(get_current_price(false, 777, 0, &p), SCALE);
    assert_eq!(get_current_price(false, 777, 300_000 * SCALE, &p), 2_072_826_302);
}

#[test]
fn price_below_midpoint_stays_under_half_band() {
    // below the inflection the added range share is at most half the range:
    // at most 1.0 + 9.0 / 2.0 here
    let p = canonical();
    for s in [1, 1_000 * SCALE, 250_000 * SCALE, 499_999 * SCALE] {
        assert!(price(s, &p) <= SCALE + 9 * SCALE / 2);
    }
}

#[test]
fn price_stays_between_floor_and_ceiling() {
    let p = canonical();
    for s in [0, 1, 250_000 * SCALE, 500_000 * SCALE, 999_999 * SCALE, 1_000_000 * SCALE] {
        let v = price(s, &p);
        assert!(SCALE <= v && v <= 10 * SCALE);
    }
}

#[test]
fn solver_respects_the_sell_bracket() {
    let p = canonical();
    let r = solve(400_000 * SCALE, u128::MAX / 4, &p, true);
    assert!(r <= 400_000 * SCALE);
}

#[test]
fn parameter_defaults_substituted_at_creation() {
    let p = canonical();
    assert_eq!(p.initial_price, SCALE);
    assert_eq!(p.max_price_factor, 10 * SCALE);
    assert_eq!(p.steepness, 10 * SCALE);
    assert_eq!(p.midpoint, SCALE / 2);
    assert_eq!(p.total_supply, 1_000_000 * SCALE);
    // explicit values are kept as they are
    let q = CurveParameters::new(2, 3, 4, 5, 6).unwrap();
    assert_eq!(q, CurveParameters {
        initial_price: 2,
        max_price_factor: 3,
        steepness: 4,
        midpoint: 5,
        total_supply: 6,
    });
}

#[test]
fn zero_mandatory_parameters_are_rejected() {
    assert_eq!(
        CurveParameters::new(0, 0, 0, 0, 1_000_000 * SCALE),
        Err(CurveError::InvalidParameters)
    );
    assert_eq!(
        CurveParameters::new(SCALE, 0, 0, 0, 0),
        Err(CurveError::InvalidParameters)
    );
}

#[test]
fn stored_parameters_reassembled_or_unknown() {
    assert_eq!(
        CurveParameters::from_stored(0, 1, 2, 3, 4),
        Err(CurveError::InvalidCurveIdentifier)
    );
    assert_eq!(
        CurveParameters::from_stored(9, 1, 2, 3, 4),
        Ok(CurveParameters {
            initial_price: 9,
            max_price_factor: 1,
            steepness: 2,
            midpoint: 3,
            total_supply: 4,
        })
    );
}
