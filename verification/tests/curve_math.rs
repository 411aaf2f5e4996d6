use sipzy_vault::{
    calculate_exponential_integral, calculate_exponential_price, calculate_fee,
    calculate_linear_integral, calculate_linear_price, exp_power, SipzyError,
};

#[test]
fn linear_price_at_zero_supply() {
    assert_eq!(calculate_linear_price(0, 10_000_000, 100_000), 10_000_000);
}

#[test]
fn linear_price_grows_by_slope() {
    assert_eq!(calculate_linear_price(1, 10_000_000, 100_000), 10_100_000);
    assert_eq!(calculate_linear_price(5, 10_000_000, 100_000), 10_500_000);
}

#[test]
fn linear_price_saturates_instead_of_wrapping() {
    assert_eq!(calculate_linear_price(u64::MAX, 1, u64::MAX), u64::MAX);
    assert_eq!(calculate_linear_price(2, u64::MAX, 1), u64::MAX);
}

#[test]
fn linear_integral_scenario_b_components() {
    // base_cost = 10 * 10_000_000, sum of indices 0..=9 is 45,
    // slope_cost = 45 * 100_000, total 104_500_000.
    assert_eq!(
        calculate_linear_integral(0, 10, 10_000_000, 100_000),
        Ok(104_500_000)
    );
}

#[test]
fn linear_integral_empty_range_is_free() {
    assert_eq!(calculate_linear_integral(5, 5, 10_000_000, 100_000), Ok(0));
}

#[test]
fn linear_integral_reversed_range_fails() {
    assert_eq!(
        calculate_linear_integral(6, 5, 10_000_000, 100_000),
        Err(SipzyError::Overflow)
    );
}

#[test]
fn linear_integral_is_additive_over_a_split() {
    let whole = calculate_linear_integral(0, 10, 10_000_000, 100_000).unwrap();
    let left = calculate_linear_integral(0, 7, 10_000_000, 100_000).unwrap();
    let right = calculate_linear_integral(7, 10, 10_000_000, 100_000).unwrap();
    assert_eq!(left + right, whole);

    let whole = calculate_linear_integral(3, 20, 1_234, 567).unwrap();
    let left = calculate_linear_integral(3, 11, 1_234, 567).unwrap();
    let right = calculate_linear_integral(11, 20, 1_234, 567).unwrap();
    assert_eq!(left + right, whole);
}

#[test]
fn linear_integral_overflow_is_reported() {
    assert_eq!(
        calculate_linear_integral(0, 2, u64::MAX, 1),
        Err(SipzyError::Overflow)
    );
}

#[test]
fn exponential_price_at_zero_supply_is_base_price() {
    assert_eq!(calculate_exponential_price(0, 1_000_000, 500), Ok(1_000_000));
    assert_eq!(calculate_exponential_price(0, 42, 9_999), Ok(42));
}

#[test]
fn exponential_price_compounds_per_unit() {
    assert_eq!(calculate_exponential_price(1, 1_000_000, 500), Ok(1_050_000));
    assert_eq!(calculate_exponential_price(2, 1_000_000, 500), Ok(1_102_500));
}

#[test]
fn exp_power_at_zero_exponent_is_the_fixed_point_unit() {
    assert_eq!(exp_power(10_500, 0, 10_000), Ok(1_000_000_000));
    assert_eq!(exp_power(10_500, 1, 10_000), Ok(1_050_000_000));
}

#[test]
fn exponential_integral_sums_short_ranges() {
    // 1_000_000 + 1_050_000 + 1_102_500
    assert_eq!(
        calculate_exponential_integral(0, 3, 1_000_000, 500),
        Ok(3_152_500)
    );
}

#[test]
fn exponential_integral_empty_range_is_free() {
    assert_eq!(calculate_exponential_integral(7, 7, 1_000_000, 500), Ok(0));
}

#[test]
fn exponential_integral_closed_form_long_range() {
    assert_eq!(
        calculate_exponential_integral(0, 150, 1_000_000, 500),
        Ok(30_139_549_601)
    );
}

#[test]
fn exponential_integral_zero_growth_is_constant_price() {
    assert_eq!(
        calculate_exponential_integral(0, 150, 1_000_000, 0),
        Ok(150_000_000)
    );
    assert_eq!(
        calculate_exponential_integral(10, 40, 1_000_000, 0),
        Ok(30_000_000)
    );
}

#[test]
fn exponential_integral_strategies_agree_closely_at_the_threshold() {
    // The last summed range and the first closed-form range: the strategies
    // differ only by fixed-point truncation, about one part in a billion.
    let summed = calculate_exponential_integral(0, 100, 1_000_000, 500).unwrap();
    assert_eq!(summed, 2_610_025_096);
    let closed = calculate_exponential_integral(0, 101, 1_000_000, 500).unwrap();
    assert_eq!(closed, 2_741_526_394);
    assert!(closed > summed);
}

#[test]
fn exponential_integral_overflow_is_reported() {
    // The narrowed closed-form result cannot fit a u64.
    assert_eq!(
        calculate_exponential_integral(0, 150, u64::MAX, 500),
        Err(SipzyError::Overflow)
    );
}

#[test]
fn exponential_price_overflow_is_reported() {
    assert_eq!(
        calculate_exponential_price(u64::MAX, u64::MAX, u64::MAX),
        Err(SipzyError::Overflow)
    );
}

#[test]
fn exponential_price_never_falls_below_base_price() {
    for supply in [0u64, 1, 2, 10, 50, 200] {
        let p = calculate_exponential_price(supply, 1_000_000, 500).unwrap();
        assert!(p >= 1_000_000);
    }
    // Zero growth keeps the price exactly at the base.
    for supply in [0u64, 1, 99, 1_000] {
        assert_eq!(calculate_exponential_price(supply, 777, 0), Ok(777));
    }
}

#[test]
fn fee_split_is_exact_and_truncating() {
    assert_eq!(calculate_fee(104_500_000), Ok((1_045_000, 103_455_000)));
    assert_eq!(calculate_fee(10_000_000), Ok((100_000, 9_900_000)));
    // Below one whole fee unit the fee rounds down to zero.
    assert_eq!(calculate_fee(99), Ok((0, 99)));
    assert_eq!(calculate_fee(0), Ok((0, 0)));
}

#[test]
fn fee_split_overflow_is_reported() {
    assert_eq!(calculate_fee(u64::MAX), Err(SipzyError::Overflow));
}
