//! Point pricing and integral costs for the two bonding-curve families.
//!
//! The linear curve prices unit `n` at `base_price + slope * n`; its integral
//! over a supply range has an exact arithmetic-series closed form.  The
//! exponential curve prices unit `n` at `base_price * r^n` where
//! `r = (10000 + growth_rate_bps) / 10000` is held in fixed point at scale
//! [`EXP_PRECISION`]; its integral is a direct summation for short ranges and
//! a geometric-series closed form for long ones.  Every fixed-point rescale
//! truncates, so the specifications below state the truncating arithmetic
//! itself, not a real-number idealisation.

use crate::errors::SipzyError;
use vstd::arithmetic::div_mod::{
    lemma_div_by_multiple, lemma_div_is_ordered, lemma_div_multiples_vanish, lemma_div_pos_is_pos,
};
use vstd::arithmetic::mul::{
    lemma_mul_is_commutative, lemma_mul_is_distributive_add, lemma_mul_left_inequality,
    lemma_mul_nonnegative,
};
use vstd::prelude::*;

verus! {

/// Fixed-point scale for exponential-curve arithmetic.
pub const EXP_PRECISION: u128 = 1_000_000_000;

// ------------------------------------------------------------------------
// Linear curve
// ------------------------------------------------------------------------

/// The unwidened linear point price: `base + slope * supply`.
pub open spec fn linear_price_full(base: int, slope: int, supply: int) -> int {
    base + slope * supply
}

/// Sum of the integers in `[start, end)`.
pub open spec fn sum_range(start: int, end: int) -> int
    decreases end - start,
{
    if end <= start {
        0
    } else {
        (end - 1) + sum_range(start, end - 1)
    }
}

/// Exact cost of minting units `start`, `start + 1`, ..., `end - 1` on the
/// linear curve: the sum of their point prices.
pub open spec fn linear_cost(base: int, slope: int, start: int, end: int) -> int
    decreases end - start,
{
    if end <= start {
        0
    } else {
        linear_price_full(base, slope, end - 1) + linear_cost(base, slope, start, end - 1)
    }
}

/// Twice the sum of `[start, end)` is `(end - start) * (start + end - 1)`:
/// the arithmetic-series identity, stated doubled so that no division occurs.
pub proof fn lemma_sum_range_closed(start: int, end: int)
    requires
        start <= end,
    ensures
        2 * sum_range(start, end) == (end - start) * (start + end - 1),
    decreases end - start,
{
    if end <= start {
        assert((end - start) * (start + end - 1) == 0) by (nonlinear_arith)
            requires
                end == start,
        ;
    } else {
        lemma_sum_range_closed(start, end - 1);
        assert((end - 1 - start) * (start + end - 2) + 2 * (end - 1) == (end - start) * (start + end
            - 1)) by (nonlinear_arith);
    }
}

/// The linear cost decomposes into a base part and a slope part:
/// `base * (end - start) + slope * sum_range(start, end)`.
pub proof fn lemma_linear_cost_split(base: int, slope: int, start: int, end: int)
    requires
        start <= end,
    ensures
        linear_cost(base, slope, start, end) == base * (end - start) + slope * sum_range(
            start,
            end,
        ),
    decreases end - start,
{
    if end <= start {
        assert(base * 0 == 0) by (nonlinear_arith);
        assert(slope * 0 == 0) by (nonlinear_arith);
    } else {
        lemma_linear_cost_split(base, slope, start, end - 1);
        assert(base * (end - 1 - start) + base == base * (end - start)) by (nonlinear_arith);
        lemma_mul_is_distributive_add(slope, end - 1, sum_range(start, end - 1));
    }
}

/// Splitting a linear integral at any midpoint loses nothing: the cost of
/// `[start, mid)` plus the cost of `[mid, end)` is exactly the cost of
/// `[start, end)`.
pub proof fn lemma_linear_cost_additive(base: int, slope: int, start: int, mid: int, end: int)
    requires
        start <= mid <= end,
    ensures
        linear_cost(base, slope, start, mid) + linear_cost(base, slope, mid, end) == linear_cost(
            base,
            slope,
            start,
            end,
        ),
    decreases end - mid,
{
    if end <= mid {
    } else {
        lemma_linear_cost_additive(base, slope, start, mid, end - 1);
    }
}

/// Linear costs are never negative when the curve parameters are not.
pub proof fn lemma_linear_cost_nonneg(base: int, slope: int, start: int, end: int)
    requires
        base >= 0,
        slope >= 0,
        start >= 0,
    ensures
        linear_cost(base, slope, start, end) >= 0,
    decreases end - start,
{
    if end <= start {
    } else {
        lemma_linear_cost_nonneg(base, slope, start, end - 1);
        lemma_mul_nonnegative(slope, end - 1);
    }
}

/// The linear point price never decreases as supply grows, for a
/// non-negative slope.
pub proof fn lemma_linear_price_monotone(base: int, slope: int, supply1: int, supply2: int)
    requires
        slope >= 0,
        supply1 <= supply2,
    ensures
        linear_price_full(base, slope, supply1) <= linear_price_full(base, slope, supply2),
{
    if slope == 0 {
        assert(slope * supply1 == 0) by (nonlinear_arith)
            requires
                slope == 0,
        ;
        assert(slope * supply2 == 0) by (nonlinear_arith)
            requires
                slope == 0,
        ;
    } else {
        lemma_mul_left_inequality(slope, supply1, supply2);
    }
}

/// Whether every checked arithmetic step of [`calculate_linear_integral`]
/// stays within `u64` on these inputs.
pub open spec fn linear_cost_ok(base: int, slope: int, start: int, end: int) -> bool {
    start <= end && (end == start || {
        let amount = end - start;
        amount * base <= u64::MAX && start + (end - 1) <= u64::MAX && amount * (start + (end - 1))
            <= u64::MAX && (amount * (start + (end - 1))) / 2 * slope <= u64::MAX && amount * base
            + (amount * (start + (end - 1))) / 2 * slope <= u64::MAX
    })
}

/// The linear point price, saturating at `u64::MAX`.
///
/// A quote is read-only, so it caps rather than errors when the true price
/// exceeds the integer range.
pub fn calculate_linear_price(supply: u64, base_price: u64, slope: u64) -> (r: u64)
    ensures
        r == if base_price + supply * slope > u64::MAX {
            u64::MAX as int
        } else {
            linear_price_full(base_price as int, slope as int, supply as int)
        },
        base_price + supply * slope <= u64::MAX ==> r == base_price + supply * slope,
{
    proof {
        lemma_mul_is_commutative(supply as int, slope as int);
    }
    match supply.checked_mul(slope) {
        Some(grown) => match base_price.checked_add(grown) {
            Some(price) => price,
            None => u64::MAX,
        },
        None => u64::MAX,
    }
}

/// Exact integral of the linear curve over `[start_supply, end_supply)`,
/// computed by the arithmetic-series closed form with every step checked.
///
/// Returns the sum of the point prices of the units in the range, or
/// `Overflow` exactly when one of the checked steps leaves `u64` (or the
/// range is reversed).
pub fn calculate_linear_integral(start_supply: u64, end_supply: u64, base_price: u64, slope: u64) -> (r:
    Result<u64, SipzyError>)
    ensures
        match r {
            Ok(v) => linear_cost_ok(base_price as int, slope as int, start_supply as int, end_supply as int)
                && v == linear_cost(base_price as int, slope as int, start_supply as int, end_supply as int),
            Err(e) => e == SipzyError::Overflow && !linear_cost_ok(
                base_price as int,
                slope as int,
                start_supply as int,
                end_supply as int,
            ),
        },
{
    let amount = match end_supply.checked_sub(start_supply) {
        Some(a) => a,
        None => {
            return Err(SipzyError::Overflow);
        },
    };
    if amount == 0 {
        return Ok(0);
    }
    let base_cost = match amount.checked_mul(base_price) {
        Some(c) => c,
        None => {
            return Err(SipzyError::Overflow);
        },
    };
    let first = start_supply;
    let last = end_supply - 1;
    let endpoints = match first.checked_add(last) {
        Some(s) => s,
        None => {
            return Err(SipzyError::Overflow);
        },
    };
    let doubled = match amount.checked_mul(endpoints) {
        Some(d) => d,
        None => {
            return Err(SipzyError::Overflow);
        },
    };
    let sum_indices = doubled / 2;
    proof {
        lemma_sum_range_closed(start_supply as int, end_supply as int);
        assert(sum_indices == sum_range(start_supply as int, end_supply as int));
    }
    let slope_cost = match sum_indices.checked_mul(slope) {
        Some(c) => c,
        None => {
            return Err(SipzyError::Overflow);
        },
    };
    match base_cost.checked_add(slope_cost) {
        Some(total) => {
            proof {
                lemma_linear_cost_split(
                    base_price as int,
                    slope as int,
                    start_supply as int,
                    end_supply as int,
                );
                lemma_mul_is_commutative(amount as int, base_price as int);
                lemma_mul_is_commutative(sum_indices as int, slope as int);
            }
            Ok(total)
        },
        None => Err(SipzyError::Overflow),
    }
}

// ------------------------------------------------------------------------
// Exponential curve
// ------------------------------------------------------------------------

/// Fixed-point multiplication at scale [`EXP_PRECISION`], truncating.
pub open spec fn scaled_mul(x: int, y: int) -> int {
    (x * y) / (EXP_PRECISION as int)
}

/// One value brought to the fixed-point scale: `base * EXP_PRECISION / scale`,
/// truncating.
pub open spec fn scaled_base(base: int, scale: int) -> int {
    (base * (EXP_PRECISION as int)) / scale
}

/// The accumulator of binary exponentiation after consuming exponent `e` with
/// current scaled base `b`: on an odd bit the accumulator is multiplied by the
/// base and rescaled, then the base is squared and rescaled.  Each rescale
/// truncates, so this recursion — not an idealised power — is what the
/// executable code computes.
pub open spec fn pow_step(acc: int, b: int, e: nat) -> int
    decreases e,
{
    if e == 0 {
        acc
    } else {
        let acc2 = if e % 2 == 1 {
            scaled_mul(acc, b)
        } else {
            acc
        };
        pow_step(acc2, scaled_mul(b, b), e / 2)
    }
}

/// Whether every intermediate product of [`pow_step`]'s evaluation stays
/// within `u128` (the final squaring, whose result is discarded, is skipped).
pub open spec fn pow_step_ok(acc: int, b: int, e: nat) -> bool
    decreases e,
{
    if e == 0 {
        true
    } else {
        &&& (e % 2 == 1 ==> acc * b <= u128::MAX)
        &&& ({
            let acc2 = if e % 2 == 1 {
                scaled_mul(acc, b)
            } else {
                acc
            };
            e / 2 == 0 || (b * b <= u128::MAX && pow_step_ok(acc2, scaled_mul(b, b), e / 2))
        })
    }
}

/// `b^e` in fixed point at scale [`EXP_PRECISION`], by binary exponentiation
/// with truncating rescales.
pub open spec fn pow_scaled(b: int, e: nat) -> int {
    pow_step(EXP_PRECISION as int, b, e)
}

/// Whether [`exp_power`] succeeds on these inputs.
pub open spec fn exp_power_ok(base: int, e: nat, scale: int) -> bool {
    base * (EXP_PRECISION as int) <= u128::MAX && pow_step_ok(
        EXP_PRECISION as int,
        scaled_base(base, scale),
        e,
    )
}

/// `(base / scale)^exp` in fixed point at scale [`EXP_PRECISION`], by binary
/// exponentiation; every intermediate product is checked and `Overflow` is
/// reported exactly when one leaves `u128`.
pub fn exp_power(base: u128, exp: u64, scale: u128) -> (r: Result<u128, SipzyError>)
    requires
        scale >= 1,
    ensures
        match r {
            Ok(v) => exp_power_ok(base as int, exp as nat, scale as int) && v == pow_scaled(
                scaled_base(base as int, scale as int),
                exp as nat,
            ),
            Err(e) => e == SipzyError::Overflow && !exp_power_ok(
                base as int,
                exp as nat,
                scale as int,
            ),
        },
{
    let scaled = match base.checked_mul(EXP_PRECISION) {
        Some(x) => x,
        None => {
            return Err(SipzyError::Overflow);
        },
    };
    let mut b: u128 = scaled / scale;
    let mut result: u128 = EXP_PRECISION;
    let mut e: u64 = exp;
    let ghost b0: int = b as int;
    proof {
        assert(b0 == scaled_base(base as int, scale as int));
    }
    while e > 0
        invariant
            b0 == scaled_base(base as int, scale as int),
            base * (EXP_PRECISION as int) <= u128::MAX,
            pow_step(result as int, b as int, e as nat) == pow_step(EXP_PRECISION as int, b0, exp as nat),
            pow_step_ok(result as int, b as int, e as nat) == pow_step_ok(
                EXP_PRECISION as int,
                b0,
                exp as nat,
            ),
        decreases e,
    {
        let ghost result_in: int = result as int;
        let ghost b_in: int = b as int;
        let ghost e_in: nat = e as nat;
        if e % 2 == 1 {
            result = match result.checked_mul(b) {
                Some(x) => x / EXP_PRECISION,
                None => {
                    proof {
                        assert(!pow_step_ok(result_in, b_in, e_in));
                    }
                    return Err(SipzyError::Overflow);
                },
            };
        }
        e = e / 2;
        proof {
            assert(pow_step(result_in, b_in, e_in) == pow_step(
                result as int,
                scaled_mul(b_in, b_in),
                e as nat,
            ));
        }
        if e > 0 {
            b = match b.checked_mul(b) {
                Some(x) => x / EXP_PRECISION,
                None => {
                    proof {
                        assert(!pow_step_ok(result_in, b_in, e_in));
                    }
                    return Err(SipzyError::Overflow);
                },
            };
            proof {
                assert(pow_step_ok(result_in, b_in, e_in) == pow_step_ok(
                    result as int,
                    b as int,
                    e as nat,
                ));
            }
        } else {
            proof {
                assert(pow_step(result as int, scaled_mul(b_in, b_in), 0) == result as int);
                assert(pow_step_ok(result_in, b_in, e_in) == pow_step_ok(
                    result as int,
                    b as int,
                    0,
                ));
            }
        }
    }
    Ok(result)
}

/// The exponential growth factor `(10000 + growth_rate_bps) / 10000` at the
/// fixed-point scale.
pub open spec fn rate_scaled(growth_rate_bps: int) -> int {
    scaled_base(10000 + growth_rate_bps, 10000)
}

/// The exponential point price of unit `supply`:
/// `base_price * r^supply / EXP_PRECISION` with `r` the scaled growth factor.
pub open spec fn exp_price(base_price: int, growth_rate_bps: int, supply: int) -> int {
    (base_price * pow_scaled(rate_scaled(growth_rate_bps), supply as nat)) / (EXP_PRECISION as int)
}

/// Whether [`calculate_exponential_price`] succeeds on these inputs: the
/// power fits `u128` throughout and the narrowed price fits `u64`.
pub open spec fn exp_price_ok(base_price: int, growth_rate_bps: int, supply: int) -> bool {
    &&& pow_step_ok(EXP_PRECISION as int, rate_scaled(growth_rate_bps), supply as nat)
    &&& base_price * pow_scaled(rate_scaled(growth_rate_bps), supply as nat) <= u128::MAX
    &&& exp_price(base_price, growth_rate_bps, supply) <= u64::MAX
}

/// The exponential point price, or `Overflow` when an intermediate product
/// leaves `u128` or the narrowed price leaves `u64`.
///
/// At supply zero the growth factor is raised to the zeroth power, which is
/// exactly the fixed-point unit, so the price is exactly `base_price`.
pub fn calculate_exponential_price(supply: u64, base_price: u64, growth_rate_bps: u64) -> (r:
    Result<u64, SipzyError>)
    ensures
        match r {
            Ok(v) => exp_price_ok(base_price as int, growth_rate_bps as int, supply as int) && v
                == exp_price(base_price as int, growth_rate_bps as int, supply as int),
            Err(e) => e == SipzyError::Overflow && !exp_price_ok(
                base_price as int,
                growth_rate_bps as int,
                supply as int,
            ),
        },
        supply == 0 ==> r == Ok::<u64, SipzyError>(base_price),
{
    let rate_multiplier: u128 = 10000u128 + growth_rate_bps as u128;
    proof {
        assert(rate_multiplier * (EXP_PRECISION as int) <= u128::MAX) by (nonlinear_arith)
            requires
                rate_multiplier <= 10000 + u64::MAX,
        ;
    }
    let scaled = match exp_power(rate_multiplier, supply, 10000) {
        Ok(v) => v,
        Err(e) => {
            return Err(e);
        },
    };
    let prod = match (base_price as u128).checked_mul(scaled) {
        Some(p) => p,
        None => {
            return Err(SipzyError::Overflow);
        },
    };
    let price = prod / EXP_PRECISION;
    if price > u64::MAX as u128 {
        return Err(SipzyError::Overflow);
    }
    proof {
        if supply == 0 {
            assert(scaled == EXP_PRECISION);
            lemma_div_by_multiple(base_price as int, EXP_PRECISION as int);
            assert((base_price as int) * (EXP_PRECISION as int) == (EXP_PRECISION as int) * (
            base_price as int)) by (nonlinear_arith);
        }
    }
    Ok(price as u64)
}

/// Sum of the exponential point prices of the units in `[start, end)`.
pub open spec fn exp_sum(base_price: int, growth_rate_bps: int, start: int, end: int) -> int
    decreases end - start,
{
    if end <= start {
        0
    } else {
        exp_sum(base_price, growth_rate_bps, start, end - 1) + exp_price(
            base_price,
            growth_rate_bps,
            end - 1,
        )
    }
}

/// Whether the direct-summation strategy succeeds: every term's price
/// computation succeeds and the total fits `u64`.
pub open spec fn exp_small_ok(base_price: int, growth_rate_bps: int, start: int, end: int) -> bool {
    &&& forall|i: int|
        start <= i < end ==> exp_price_ok(base_price, growth_rate_bps, i)
    &&& exp_sum(base_price, growth_rate_bps, start, end) <= u64::MAX
}

/// The geometric-series closed form of the exponential integral, in the
/// truncating fixed-point arithmetic the executable code performs:
/// `base_price * (r^end - r^start) * 10000 / growth_rate_bps / EXP_PRECISION`.
/// A zero growth rate degenerates to a constant price.
pub open spec fn exp_closed(base_price: int, growth_rate_bps: int, start: int, end: int) -> int {
    if growth_rate_bps == 0 {
        base_price * (end - start)
    } else {
        ((base_price * (pow_scaled(rate_scaled(growth_rate_bps), end as nat) - pow_scaled(
            rate_scaled(growth_rate_bps),
            start as nat,
        ))) * 10000) / growth_rate_bps / (EXP_PRECISION as int)
    }
}

/// Whether the closed-form strategy succeeds: both powers fit `u128`
/// throughout, the power difference is non-negative, the scaled numerator
/// fits `u128` and the narrowed result fits `u64`.
pub open spec fn exp_closed_ok(base_price: int, growth_rate_bps: int, start: int, end: int) -> bool {
    let r_start = pow_scaled(rate_scaled(growth_rate_bps), start as nat);
    let r_end = pow_scaled(rate_scaled(growth_rate_bps), end as nat);
    &&& pow_step_ok(EXP_PRECISION as int, rate_scaled(growth_rate_bps), start as nat)
    &&& pow_step_ok(EXP_PRECISION as int, rate_scaled(growth_rate_bps), end as nat)
    &&& r_end >= r_start
    &&& base_price * (r_end - r_start) <= u128::MAX
    &&& if growth_rate_bps == 0 {
        base_price * (end - start) <= u64::MAX
    } else {
        (base_price * (r_end - r_start)) * 10000 <= u128::MAX && exp_closed(
            base_price,
            growth_rate_bps,
            start,
            end,
        ) <= u64::MAX
    }
}

/// Range length below which the exponential integral is summed directly
/// rather than evaluated in closed form.
pub const SUMMATION_THRESHOLD: u64 = 100;

/// The value of the exponential integral over `[start, end)` as the
/// executable code computes it: direct summation for ranges of at most
/// [`SUMMATION_THRESHOLD`] units, the geometric closed form beyond.
pub open spec fn exp_cost(base_price: int, growth_rate_bps: int, start: int, end: int) -> int {
    if end - start <= SUMMATION_THRESHOLD {
        exp_sum(base_price, growth_rate_bps, start, end)
    } else {
        exp_closed(base_price, growth_rate_bps, start, end)
    }
}

/// Whether [`calculate_exponential_integral`] succeeds on these inputs.
pub open spec fn exp_cost_ok(base_price: int, growth_rate_bps: int, start: int, end: int) -> bool {
    start <= end && if end - start <= SUMMATION_THRESHOLD {
        exp_small_ok(base_price, growth_rate_bps, start, end)
    } else {
        exp_closed_ok(base_price, growth_rate_bps, start, end)
    }
}

/// A fixed-point unit base is a fixed point of the whole exponentiation: the
/// accumulator never moves.
pub proof fn lemma_pow_step_unit(acc: int, e: nat)
    requires
        acc >= 0,
    ensures
        pow_step(acc, EXP_PRECISION as int, e) == acc,
    decreases e,
{
    if e == 0 {
    } else {
        lemma_div_by_multiple(acc, EXP_PRECISION as int);
        lemma_div_by_multiple(EXP_PRECISION as int, EXP_PRECISION as int);
        lemma_pow_step_unit(acc, e / 2);
    }
}

/// One raised to any power is one, in fixed point: the scaled unit base
/// yields the scaled unit.
pub proof fn lemma_pow_scaled_unit(e: nat)
    ensures
        pow_scaled(EXP_PRECISION as int, e) == EXP_PRECISION as int,
{
    lemma_pow_step_unit(EXP_PRECISION as int, e);
}

/// At a zero growth rate the exponential point price is exactly the base
/// price: the growth factor degenerates to the fixed-point unit.
pub proof fn lemma_exp_price_zero_growth(base_price: int, supply: int)
    requires
        base_price >= 0,
    ensures
        exp_price(base_price, 0, supply) == base_price,
{
    lemma_div_by_multiple(EXP_PRECISION as int, 10000);
    assert(10000 * (EXP_PRECISION as int) == (EXP_PRECISION as int) * 10000) by (nonlinear_arith);
    lemma_pow_scaled_unit(supply as nat);
    lemma_div_by_multiple(base_price, EXP_PRECISION as int);
}

/// At a zero growth rate the two exponential strategies agree exactly: the
/// direct summation over `[start, end)` equals the constant-price product
/// that the closed form returns.
pub proof fn lemma_exp_sum_zero_growth(base_price: int, start: int, end: int)
    requires
        base_price >= 0,
        start <= end,
    ensures
        exp_sum(base_price, 0, start, end) == base_price * (end - start),
    decreases end - start,
{
    if end <= start {
        assert(base_price * 0 == 0) by (nonlinear_arith);
    } else {
        lemma_exp_sum_zero_growth(base_price, start, end - 1);
        lemma_exp_price_zero_growth(base_price, end - 1);
        assert(base_price * (end - 1 - start) + base_price == base_price * (end - start))
            by (nonlinear_arith);
    }
}

/// With a base at or above the fixed-point unit, binary exponentiation never
/// shrinks the accumulator: every rescaled multiplication is by a factor of
/// at least one.
pub proof fn lemma_pow_step_lower(acc: int, b: int, e: nat)
    requires
        acc >= 0,
        b >= EXP_PRECISION,
    ensures
        pow_step(acc, b, e) >= acc,
    decreases e,
{
    if e == 0 {
    } else {
        let acc2 = if e % 2 == 1 {
            scaled_mul(acc, b)
        } else {
            acc
        };
        lemma_mul_left_inequality(b, b, EXP_PRECISION as int);
        assert(b * b >= b * (EXP_PRECISION as int)) by (nonlinear_arith)
            requires
                b >= EXP_PRECISION,
        ;
        assert(b * (EXP_PRECISION as int) == (EXP_PRECISION as int) * b) by (nonlinear_arith);
        lemma_div_is_ordered((EXP_PRECISION as int) * b, b * b, EXP_PRECISION as int);
        lemma_div_multiples_vanish(b, EXP_PRECISION as int);
        if e % 2 == 1 {
            assert(acc * b >= acc * (EXP_PRECISION as int)) by (nonlinear_arith)
                requires
                    acc >= 0,
                    b >= EXP_PRECISION,
            ;
            assert(acc * (EXP_PRECISION as int) == (EXP_PRECISION as int) * acc)
                by (nonlinear_arith);
            lemma_div_is_ordered((EXP_PRECISION as int) * acc, acc * b, EXP_PRECISION as int);
            lemma_div_multiples_vanish(acc, EXP_PRECISION as int);
        }
        lemma_pow_step_lower(acc2, scaled_mul(b, b), e / 2);
    }
}

/// The exponential point price never falls below the base price: the growth
/// factor is at least the fixed-point unit, so every power of it is too.
pub proof fn lemma_exp_price_at_least_base(base_price: int, growth_rate_bps: int, supply: int)
    requires
        base_price >= 0,
        growth_rate_bps >= 0,
    ensures
        exp_price(base_price, growth_rate_bps, supply) >= base_price,
{
    let r = rate_scaled(growth_rate_bps);
    assert((10000 + growth_rate_bps) * (EXP_PRECISION as int) >= 10000 * (EXP_PRECISION as int))
        by (nonlinear_arith)
        requires
            growth_rate_bps >= 0,
    ;
    lemma_div_is_ordered(
        10000 * (EXP_PRECISION as int),
        (10000 + growth_rate_bps) * (EXP_PRECISION as int),
        10000,
    );
    lemma_div_multiples_vanish(EXP_PRECISION as int, 10000);
    lemma_pow_step_lower(EXP_PRECISION as int, r, supply as nat);
    let p = pow_scaled(r, supply as nat);
    assert(base_price * p >= base_price * (EXP_PRECISION as int)) by (nonlinear_arith)
        requires
            base_price >= 0,
            p >= EXP_PRECISION,
    ;
    assert(base_price * (EXP_PRECISION as int) == (EXP_PRECISION as int) * base_price)
        by (nonlinear_arith);
    lemma_div_is_ordered(
        (EXP_PRECISION as int) * base_price,
        base_price * p,
        EXP_PRECISION as int,
    );
    lemma_div_multiples_vanish(base_price, EXP_PRECISION as int);
}

/// Binary exponentiation never drives the accumulator negative when both the
/// accumulator and the base start non-negative.
pub proof fn lemma_pow_step_nonneg(acc: int, b: int, e: nat)
    requires
        acc >= 0,
        b >= 0,
    ensures
        pow_step(acc, b, e) >= 0,
    decreases e,
{
    if e == 0 {
    } else {
        lemma_mul_nonnegative(acc, b);
        lemma_div_pos_is_pos(acc * b, EXP_PRECISION as int);
        lemma_mul_nonnegative(b, b);
        lemma_div_pos_is_pos(b * b, EXP_PRECISION as int);
        let acc2 = if e % 2 == 1 {
            scaled_mul(acc, b)
        } else {
            acc
        };
        lemma_pow_step_nonneg(acc2, scaled_mul(b, b), e / 2);
    }
}

/// The exponential point price is never negative for non-negative curve
/// parameters.
pub proof fn lemma_exp_price_nonneg(base_price: int, growth_rate_bps: int, supply: int)
    requires
        base_price >= 0,
        growth_rate_bps >= 0,
    ensures
        exp_price(base_price, growth_rate_bps, supply) >= 0,
{
    lemma_mul_nonnegative(10000 + growth_rate_bps, EXP_PRECISION as int);
    lemma_div_pos_is_pos((10000 + growth_rate_bps) * (EXP_PRECISION as int), 10000);
    lemma_pow_step_nonneg(EXP_PRECISION as int, rate_scaled(growth_rate_bps), supply as nat);
    lemma_mul_nonnegative(base_price, pow_scaled(rate_scaled(growth_rate_bps), supply as nat));
    lemma_div_pos_is_pos(
        base_price * pow_scaled(rate_scaled(growth_rate_bps), supply as nat),
        EXP_PRECISION as int,
    );
}

/// The direct summation of exponential point prices is never negative for
/// non-negative curve parameters.
pub proof fn lemma_exp_sum_nonneg(base_price: int, growth_rate_bps: int, start: int, end: int)
    requires
        base_price >= 0,
        growth_rate_bps >= 0,
    ensures
        exp_sum(base_price, growth_rate_bps, start, end) >= 0,
    decreases end - start,
{
    if end <= start {
    } else {
        lemma_exp_sum_nonneg(base_price, growth_rate_bps, start, end - 1);
        lemma_exp_price_nonneg(base_price, growth_rate_bps, end - 1);
    }
}

/// The exponential integral, under the conditions in which it is actually
/// returned, is never negative for non-negative curve parameters.
pub proof fn lemma_exp_cost_nonneg(base_price: int, growth_rate_bps: int, start: int, end: int)
    requires
        base_price >= 0,
        growth_rate_bps >= 0,
        exp_cost_ok(base_price, growth_rate_bps, start, end),
    ensures
        exp_cost(base_price, growth_rate_bps, start, end) >= 0,
{
    if end - start <= SUMMATION_THRESHOLD {
        lemma_exp_sum_nonneg(base_price, growth_rate_bps, start, end);
    } else {
        let r_start = pow_scaled(rate_scaled(growth_rate_bps), start as nat);
        let r_end = pow_scaled(rate_scaled(growth_rate_bps), end as nat);
        if growth_rate_bps == 0 {
            lemma_mul_nonnegative(base_price, end - start);
        } else {
            lemma_mul_nonnegative(base_price, r_end - r_start);
            lemma_mul_nonnegative(base_price * (r_end - r_start), 10000);
            lemma_div_pos_is_pos((base_price * (r_end - r_start)) * 10000, growth_rate_bps);
            lemma_div_pos_is_pos(
                (base_price * (r_end - r_start)) * 10000 / growth_rate_bps,
                EXP_PRECISION as int,
            );
        }
    }
}

/// Exact integral of the exponential curve over `[start_supply, end_supply)`.
///
/// Short ranges are summed term by term; long ranges use the geometric-series
/// closed form.  Returns `Overflow` exactly when the selected strategy's
/// checked arithmetic leaves its integer range (or the range is reversed).
pub fn calculate_exponential_integral(
    start_supply: u64,
    end_supply: u64,
    base_price: u64,
    growth_rate_bps: u64,
) -> (r: Result<u64, SipzyError>)
    ensures
        match r {
            Ok(v) => exp_cost_ok(
                base_price as int,
                growth_rate_bps as int,
                start_supply as int,
                end_supply as int,
            ) && v == exp_cost(
                base_price as int,
                growth_rate_bps as int,
                start_supply as int,
                end_supply as int,
            ),
            Err(e) => e == SipzyError::Overflow && !exp_cost_ok(
                base_price as int,
                growth_rate_bps as int,
                start_supply as int,
                end_supply as int,
            ),
        },
{
    let amount = match end_supply.checked_sub(start_supply) {
        Some(a) => a,
        None => {
            return Err(SipzyError::Overflow);
        },
    };
    if amount == 0 {
        return Ok(0);
    }
    if amount <= SUMMATION_THRESHOLD {
        let mut total: u128 = 0;
        let mut i = start_supply;
        while i < end_supply
            invariant
                start_supply <= i <= end_supply,
                end_supply - start_supply <= SUMMATION_THRESHOLD,
                total == exp_sum(
                    base_price as int,
                    growth_rate_bps as int,
                    start_supply as int,
                    i as int,
                ),
                total <= (i - start_supply) * (u64::MAX as int),
                forall|k: int|
                    start_supply <= k < i ==> exp_price_ok(
                        base_price as int,
                        growth_rate_bps as int,
                        k,
                    ),
            decreases end_supply - i,
        {
            let price = match calculate_exponential_price(i, base_price, growth_rate_bps) {
                Ok(p) => p,
                Err(e) => {
                    return Err(e);
                },
            };
            proof {
                assert(total + price <= (i + 1 - start_supply) * (u64::MAX as int))
                    by (nonlinear_arith)
                    requires
                        total <= (i - start_supply) * (u64::MAX as int),
                        price <= u64::MAX,
                ;
                assert((i + 1 - start_supply) * (u64::MAX as int) <= 100 * (u64::MAX as int))
                    by (nonlinear_arith)
                    requires
                        i + 1 - start_supply <= 100,
                ;
            }
            total = total + price as u128;
            i = i + 1;
        }
        if total > u64::MAX as u128 {
            return Err(SipzyError::Overflow);
        }
        Ok(total as u64)
    } else {
        let r_bps: u128 = 10000u128 + growth_rate_bps as u128;
        proof {
            assert(r_bps * (EXP_PRECISION as int) <= u128::MAX) by (nonlinear_arith)
                requires
                    r_bps <= 10000 + u64::MAX,
            ;
        }
        let r_start = match exp_power(r_bps, start_supply, 10000) {
            Ok(v) => v,
            Err(e) => {
                return Err(e);
            },
        };
        let r_end = match exp_power(r_bps, end_supply, 10000) {
            Ok(v) => v,
            Err(e) => {
                return Err(e);
            },
        };
        let diff = match r_end.checked_sub(r_start) {
            Some(d) => d,
            None => {
                return Err(SipzyError::Overflow);
            },
        };
        let numerator = match (base_price as u128).checked_mul(diff) {
            Some(n) => n,
            None => {
                return Err(SipzyError::Overflow);
            },
        };
        if growth_rate_bps == 0 {
            return match base_price.checked_mul(amount) {
                Some(v) => Ok(v),
                None => Err(SipzyError::Overflow),
            };
        }
        let scaled_num = match numerator.checked_mul(10000) {
            Some(v) => v,
            None => {
                return Err(SipzyError::Overflow);
            },
        };
        let result = scaled_num / (growth_rate_bps as u128) / EXP_PRECISION;
        if result > u64::MAX as u128 {
            return Err(SipzyError::Overflow);
        }
        Ok(result as u64)
    }
}

} // verus!
