//! The deterministic fee split applied to every trade's gross amount.

use crate::errors::SipzyError;
use vstd::arithmetic::div_mod::{lemma_div_is_ordered, lemma_div_multiples_vanish};
use vstd::arithmetic::mul::lemma_mul_inequality;
use vstd::prelude::*;

verus! {

/// Fee taken on every trade, in basis points (100 = 1%).
pub const FEE_BASIS_POINTS: u64 = 100;

/// Denominator turning basis points into a fraction of the whole.
pub const BPS_DENOMINATOR: u64 = 10000;

/// The fee owed on `gross` at `bps` basis points, rounded down.
///
/// Truncation is deliberate: the fee never exceeds the stated rate, and the
/// remainder accrues to the net side of the split.
pub open spec fn fee_amount(gross: int, bps: int) -> int {
    (gross * bps) / (BPS_DENOMINATOR as int)
}

/// The fee is between zero and the gross amount whenever the rate is at most
/// the whole (10000 basis points), so the net side of a split never exceeds
/// the gross.
pub proof fn lemma_fee_bounds(gross: int, bps: int)
    requires
        gross >= 0,
        0 <= bps <= BPS_DENOMINATOR,
    ensures
        0 <= fee_amount(gross, bps) <= gross,
{
    lemma_mul_inequality(bps, BPS_DENOMINATOR as int, gross);
    assert(gross * bps == bps * gross) by (nonlinear_arith);
    assert(gross * bps >= 0) by (nonlinear_arith)
        requires
            gross >= 0,
            bps >= 0,
    ;
    lemma_div_is_ordered(gross * bps, gross * (BPS_DENOMINATOR as int), BPS_DENOMINATOR as int);
    lemma_div_multiples_vanish(gross, BPS_DENOMINATOR as int);
    assert(gross * (BPS_DENOMINATOR as int) == (BPS_DENOMINATOR as int) * gross)
        by (nonlinear_arith);
}

/// Splits `amount` into `(fee, net)` with `fee` rounded down at the library's
/// fixed rate and `net` the exact remainder, or reports `Overflow` when the
/// scaled product does not fit.
pub fn calculate_fee(amount: u64) -> (r: Result<(u64, u64), SipzyError>)
    ensures
        match r {
            Ok(split) => amount * FEE_BASIS_POINTS <= u64::MAX
                && split.0 == fee_amount(amount as int, FEE_BASIS_POINTS as int)
                && split.1 == amount - fee_amount(amount as int, FEE_BASIS_POINTS as int),
            Err(e) => e == SipzyError::Overflow && amount * FEE_BASIS_POINTS > u64::MAX,
        },
{
    let scaled = match amount.checked_mul(FEE_BASIS_POINTS) {
        Some(s) => s,
        None => {
            return Err(SipzyError::Overflow);
        },
    };
    let fee = scaled / BPS_DENOMINATOR;
    proof {
        lemma_fee_bounds(amount as int, FEE_BASIS_POINTS as int);
    }
    let net = amount - fee;
    Ok((fee, net))
}

} // verus!
