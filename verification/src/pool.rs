//! The pool trading state machine.
//!
//! A [`Pool`] owns the mutable trading state of one tradeable identifier:
//! circulating supply, held reserve, curve configuration and an active flag.
//! Buying and selling quote the curve's integral cost, split the fee, and
//! commit supply and reserve together — an operation either completes fully
//! or returns an error with the pool untouched.  The settlement transfers
//! themselves, identity verification and event delivery belong to the host:
//! the trade record returned by each operation carries every amount the host
//! must move.

use crate::curve::{
    calculate_exponential_integral, calculate_exponential_price, calculate_linear_integral,
    calculate_linear_price, exp_cost, exp_cost_ok, exp_price, exp_price_ok,
    lemma_exp_cost_nonneg, lemma_linear_cost_nonneg, linear_cost, linear_cost_ok,
    linear_price_full,
};
use crate::errors::SipzyError;
use crate::fee::{calculate_fee, fee_amount, lemma_fee_bounds, FEE_BASIS_POINTS};
use vstd::prelude::*;
use vstd::string::StrSliceExecFns;

verus! {

/// Default base price for linear (creator) pools.
pub const DEFAULT_CREATOR_BASE_PRICE: u64 = 10_000_000;

/// Default slope for linear (creator) pools.
pub const DEFAULT_CREATOR_SLOPE: u64 = 100_000;

/// Default base price for exponential (stream) pools.
pub const DEFAULT_STREAM_BASE_PRICE: u64 = 1_000_000;

/// Default growth rate for exponential (stream) pools, in basis points.
pub const DEFAULT_STREAM_GROWTH_RATE: u64 = 500;

/// The curve family of a pool, carrying its one curve-specific parameter:
/// a linear creator pool grows by `slope` per unit of supply, an exponential
/// stream pool compounds by `growth_rate_bps` basis points per unit.
#[derive(Clone, Copy, Debug, PartialEq, Eq, Structural)]
pub enum PoolType {
    Creator { slope: u64 },
    Stream { growth_rate_bps: u64 },
}

/// The direction of a trade.
#[derive(Clone, Copy, Debug, PartialEq, Eq, Structural)]
pub enum TradeType {
    Buy,
    Sell,
}

/// One tradeable pool: curve configuration, identity bindings and the
/// mutable supply/reserve state.
///
/// Identities are carried as plain values already verified by the host; the
/// library only compares them.
#[derive(Clone, Debug)]
pub struct Pool {
    /// Curve family and its parameter; immutable after creation.
    pub pool_type: PoolType,
    /// Stable key of the pool; immutable after creation, at most 32 characters.
    pub identifier: String,
    /// Display name, at most 64 characters.
    pub display_name: String,
    /// Identifier of an owning parent pool; empty for creator pools.
    pub parent_identifier: String,
    /// Fee recipient, and the only identity allowed to toggle trading.
    pub creator_wallet: u64,
    /// Identity that created the record.
    pub authority: u64,
    /// Tokens currently minted and outstanding.
    pub total_supply: u64,
    /// Settlement-asset units held against outstanding supply.
    pub reserve_sol: u64,
    /// Unit price at supply zero.
    pub base_price: u64,
    /// Metadata URI, at most 200 characters; non-semantic to the engine.
    pub metadata_uri: String,
    /// Creation timestamp supplied by the host clock.
    pub created_at: i64,
    /// Whether trading is currently permitted.
    pub is_active: bool,
}

/// Record of one committed trade, carrying the amounts the host settles.
#[derive(Clone, Copy, Debug, PartialEq, Eq, Structural)]
pub struct TokensTraded {
    /// The trading counterparty.
    pub trader: u64,
    /// Whether tokens were bought or sold.
    pub trade_type: TradeType,
    /// Tokens minted or burned.
    pub amount: u64,
    /// Gross settlement amount before the fee split.
    pub sol_amount: u64,
    /// Fee owed to the pool's creator wallet.
    pub fee: u64,
    /// Circulating supply after the trade.
    pub new_supply: u64,
    /// Held reserve after the trade.
    pub new_reserve: u64,
}

/// Record of a pool's creation.
#[derive(Clone, Debug)]
pub struct PoolCreated {
    /// Curve family and parameter the pool was created with.
    pub pool_type: PoolType,
    /// The pool's stable key.
    pub identifier: String,
    /// The pool's fee recipient.
    pub creator_wallet: u64,
    /// The pool's unit price at supply zero.
    pub base_price: u64,
}

/// Record of a change to a pool's active flag.
#[derive(Clone, Copy, Debug, PartialEq, Eq, Structural)]
pub struct PoolStatusChanged {
    /// The flag's new value.
    pub is_active: bool,
}

/// The integral trade cost over `[start, end)` under the given curve family.
pub open spec fn trade_cost(pool_type: PoolType, base_price: int, start: int, end: int) -> int {
    match pool_type {
        PoolType::Creator { slope } => linear_cost(base_price, slope as int, start, end),
        PoolType::Stream { growth_rate_bps } => exp_cost(base_price, growth_rate_bps as int, start, end),
    }
}

/// Whether the integral trade cost over `[start, end)` can be computed
/// within the integer ranges under the given curve family.
pub open spec fn trade_cost_ok(pool_type: PoolType, base_price: int, start: int, end: int) -> bool {
    match pool_type {
        PoolType::Creator { slope } => linear_cost_ok(base_price, slope as int, start, end),
        PoolType::Stream { growth_rate_bps } => exp_cost_ok(
            base_price,
            growth_rate_bps as int,
            start,
            end,
        ),
    }
}

/// A computable trade cost is never negative.
pub proof fn lemma_trade_cost_nonneg(pool_type: PoolType, base_price: u64, start: u64, end: int)
    requires
        start <= end,
        trade_cost_ok(pool_type, base_price as int, start as int, end),
    ensures
        trade_cost(pool_type, base_price as int, start as int, end) >= 0,
{
    match pool_type {
        PoolType::Creator { slope } => {
            lemma_linear_cost_nonneg(base_price as int, slope as int, start as int, end);
        },
        PoolType::Stream { growth_rate_bps } => {
            lemma_exp_cost_nonneg(base_price as int, growth_rate_bps as int, start as int, end);
        },
    }
}

impl Pool {
    /// Structural validity: every descriptive string respects its maximum
    /// length.  Constructors establish this and every operation preserves it.
    pub open spec fn wf(self) -> bool {
        &&& self.identifier@.len() <= 32
        &&& self.display_name@.len() <= 64
        &&& self.parent_identifier@.len() <= 32
        &&& self.metadata_uri@.len() <= 200
    }

    /// The creation record for this pool, for the host's event sink.
    pub fn created_event(&self) -> (ev: PoolCreated)
        ensures
            ev.pool_type == self.pool_type,
            ev.identifier == self.identifier,
            ev.creator_wallet == self.creator_wallet,
            ev.base_price == self.base_price,
    {
        PoolCreated {
            pool_type: self.pool_type,
            identifier: self.identifier.clone(),
            creator_wallet: self.creator_wallet,
            base_price: self.base_price,
        }
    }
}

/// The gross cost of buying `amount` tokens from the pool's current supply.
pub open spec fn buy_gross(p: Pool, amount: int) -> int {
    trade_cost(p.pool_type, p.base_price as int, p.total_supply as int, p.total_supply + amount)
}

/// The gross refund of selling `amount` tokens back at the pool's current
/// supply.
pub open spec fn sell_gross(p: Pool, amount: int) -> int {
    trade_cost(p.pool_type, p.base_price as int, p.total_supply - amount, p.total_supply as int)
}

/// The current unit price of the pool: the linear price saturates at
/// `u64::MAX`, the exponential price reports `Overflow` when it cannot be
/// represented.
pub fn get_price(pool: &Pool) -> (r: Result<u64, SipzyError>)
    ensures
        match pool.pool_type {
            PoolType::Creator { slope } => r == Ok::<u64, SipzyError>(
                if pool.base_price + pool.total_supply * slope > u64::MAX {
                    u64::MAX
                } else {
                    linear_price_full(pool.base_price as int, slope as int, pool.total_supply as int) as u64
                },
            ),
            PoolType::Stream { growth_rate_bps } => match r {
                Ok(v) => exp_price_ok(
                    pool.base_price as int,
                    growth_rate_bps as int,
                    pool.total_supply as int,
                ) && v == exp_price(
                    pool.base_price as int,
                    growth_rate_bps as int,
                    pool.total_supply as int,
                ),
                Err(e) => e == SipzyError::Overflow && !exp_price_ok(
                    pool.base_price as int,
                    growth_rate_bps as int,
                    pool.total_supply as int,
                ),
            },
        },
{
    match pool.pool_type {
        PoolType::Creator { slope } => Ok(
            calculate_linear_price(pool.total_supply, pool.base_price, slope),
        ),
        PoolType::Stream { growth_rate_bps } => calculate_exponential_price(
            pool.total_supply,
            pool.base_price,
            growth_rate_bps,
        ),
    }
}

/// Whether a buy-cost quote for `amount` tokens can be computed: the end
/// supply, the integral and the fee inflation must all stay within `u64`.
pub open spec fn buy_quote_ok(p: Pool, amount: int) -> bool {
    &&& p.total_supply + amount <= u64::MAX
    &&& trade_cost_ok(p.pool_type, p.base_price as int, p.total_supply as int, p.total_supply + amount)
    &&& buy_gross(p, amount) * (10000 + FEE_BASIS_POINTS) <= u64::MAX
}

/// The quoted buy cost inclusive of the fee rate:
/// `gross * (10000 + fee_bps) / 10000`, rounded down.
pub open spec fn buy_quote(p: Pool, amount: int) -> int {
    (buy_gross(p, amount) * (10000 + FEE_BASIS_POINTS)) / 10000
}

/// Estimates what a buy of `amount` tokens would require from the trader,
/// fee included: the integral cost inflated by the fee rate.  Read-only.
pub fn get_buy_cost(pool: &Pool, amount: u64) -> (r: Result<u64, SipzyError>)
    ensures
        match r {
            Ok(v) => buy_quote_ok(*pool, amount as int) && v == buy_quote(*pool, amount as int),
            Err(e) => e == SipzyError::Overflow && !buy_quote_ok(*pool, amount as int),
        },
{
    let start = pool.total_supply;
    let end = match start.checked_add(amount) {
        Some(e) => e,
        None => {
            return Err(SipzyError::Overflow);
        },
    };
    let cost_result = match pool.pool_type {
        PoolType::Creator { slope } => calculate_linear_integral(start, end, pool.base_price, slope),
        PoolType::Stream { growth_rate_bps } => calculate_exponential_integral(
            start,
            end,
            pool.base_price,
            growth_rate_bps,
        ),
    };
    let cost = match cost_result {
        Ok(c) => c,
        Err(e) => {
            return Err(e);
        },
    };
    match cost.checked_mul(10000 + FEE_BASIS_POINTS) {
        Some(inflated) => Ok(inflated / 10000),
        None => Err(SipzyError::Overflow),
    }
}

/// The error a buy of `amount` tokens fails with, or `None` when it
/// succeeds: the checks are made in this order and nothing is committed on
/// any failure.
pub open spec fn buy_check(p: Pool, creator_wallet: u64, amount: u64) -> Option<SipzyError> {
    let end = p.total_supply + amount;
    let gross = buy_gross(p, amount as int);
    let fee = fee_amount(gross, FEE_BASIS_POINTS as int);
    if amount == 0 {
        Some(SipzyError::InvalidAmount)
    } else if !p.is_active {
        Some(SipzyError::PoolInactive)
    } else if creator_wallet != p.creator_wallet {
        Some(SipzyError::InvalidCreatorWallet)
    } else if end > u64::MAX {
        Some(SipzyError::Overflow)
    } else if !trade_cost_ok(p.pool_type, p.base_price as int, p.total_supply as int, end) {
        Some(SipzyError::Overflow)
    } else if gross * FEE_BASIS_POINTS > u64::MAX {
        Some(SipzyError::Overflow)
    } else if p.reserve_sol + (gross - fee) > u64::MAX {
        Some(SipzyError::Overflow)
    } else {
        None
    }
}

/// Buys `amount` tokens from the pool.
///
/// On success the gross cost is the curve's integral over the minted range,
/// the fee is split off for the creator wallet, and supply and reserve are
/// committed together: the reserve grows by the net deposit while the fee is
/// owed directly to the creator.  On any failure the pool is unchanged.  The
/// host settles the returned amounts: `sol_amount - fee` from the trader to
/// the pool and `fee` from the trader to the creator wallet.
pub fn buy_tokens(pool: &mut Pool, trader: u64, creator_wallet: u64, amount: u64) -> (r: Result<
    TokensTraded,
    SipzyError,
>)
    ensures
        match r {
            Ok(ev) => ({
                let p = *old(pool);
                let gross = buy_gross(p, amount as int);
                let fee = fee_amount(gross, FEE_BASIS_POINTS as int);
                &&& buy_check(p, creator_wallet, amount) == None::<SipzyError>
                &&& *final(pool) == (Pool {
                    total_supply: (p.total_supply + amount) as u64,
                    reserve_sol: (p.reserve_sol + (gross - fee)) as u64,
                    ..p
                })
                &&& ev == (TokensTraded {
                    trader,
                    trade_type: TradeType::Buy,
                    amount,
                    sol_amount: gross as u64,
                    fee: fee as u64,
                    new_supply: (p.total_supply + amount) as u64,
                    new_reserve: (p.reserve_sol + (gross - fee)) as u64,
                })
            }),
            Err(e) => *final(pool) == *old(pool) && buy_check(*old(pool), creator_wallet, amount)
                == Some(e),
        },
{
    if amount == 0 {
        return Err(SipzyError::InvalidAmount);
    }
    if !pool.is_active {
        return Err(SipzyError::PoolInactive);
    }
    if creator_wallet != pool.creator_wallet {
        return Err(SipzyError::InvalidCreatorWallet);
    }
    let start_supply = pool.total_supply;
    let end_supply = match start_supply.checked_add(amount) {
        Some(e) => e,
        None => {
            return Err(SipzyError::Overflow);
        },
    };
    let cost_result = match pool.pool_type {
        PoolType::Creator { slope } => calculate_linear_integral(
            start_supply,
            end_supply,
            pool.base_price,
            slope,
        ),
        PoolType::Stream { growth_rate_bps } => calculate_exponential_integral(
            start_supply,
            end_supply,
            pool.base_price,
            growth_rate_bps,
        ),
    };
    let total_cost = match cost_result {
        Ok(c) => c,
        Err(e) => {
            return Err(e);
        },
    };
    let (creator_fee, pool_deposit) = match calculate_fee(total_cost) {
        Ok(split) => split,
        Err(e) => {
            return Err(e);
        },
    };
    let new_reserve = match pool.reserve_sol.checked_add(pool_deposit) {
        Some(x) => x,
        None => {
            return Err(SipzyError::Overflow);
        },
    };
    pool.reserve_sol = new_reserve;
    pool.total_supply = end_supply;
    Ok(
        TokensTraded {
            trader,
            trade_type: TradeType::Buy,
            amount,
            sol_amount: total_cost,
            fee: creator_fee,
            new_supply: end_supply,
            new_reserve,
        },
    )
}

/// The error a sell of `amount` tokens fails with, or `None` when it
/// succeeds: the checks are made in this order and nothing is committed on
/// any failure.
pub open spec fn sell_check(p: Pool, creator_wallet: u64, amount: u64) -> Option<SipzyError> {
    let gross = sell_gross(p, amount as int);
    if amount == 0 {
        Some(SipzyError::InvalidAmount)
    } else if !p.is_active {
        Some(SipzyError::PoolInactive)
    } else if creator_wallet != p.creator_wallet {
        Some(SipzyError::InvalidCreatorWallet)
    } else if amount > p.total_supply {
        Some(SipzyError::InsufficientSupply)
    } else if !trade_cost_ok(
        p.pool_type,
        p.base_price as int,
        p.total_supply - amount,
        p.total_supply as int,
    ) {
        Some(SipzyError::Overflow)
    } else if gross * FEE_BASIS_POINTS > u64::MAX {
        Some(SipzyError::Overflow)
    } else if p.reserve_sol < gross {
        Some(SipzyError::InsufficientReserve)
    } else {
        None
    }
}

/// Sells `amount` tokens back to the pool.
///
/// On success the gross refund is the curve's integral over the burned
/// range, the fee is split off for the creator wallet, and supply and
/// reserve are committed together: both the net refund and the fee are
/// debited from the reserve, so the reserve must cover their sum.  On any
/// failure the pool is unchanged.  The host settles the returned amounts out
/// of the pool's escrow: `sol_amount - fee` to the trader and `fee` to the
/// creator wallet.
pub fn sell_tokens(pool: &mut Pool, trader: u64, creator_wallet: u64, amount: u64) -> (r: Result<
    TokensTraded,
    SipzyError,
>)
    ensures
        match r {
            Ok(ev) => ({
                let p = *old(pool);
                let gross = sell_gross(p, amount as int);
                let fee = fee_amount(gross, FEE_BASIS_POINTS as int);
                &&& sell_check(p, creator_wallet, amount) == None::<SipzyError>
                &&& *final(pool) == (Pool {
                    total_supply: (p.total_supply - amount) as u64,
                    reserve_sol: (p.reserve_sol - gross) as u64,
                    ..p
                })
                &&& ev == (TokensTraded {
                    trader,
                    trade_type: TradeType::Sell,
                    amount,
                    sol_amount: gross as u64,
                    fee: fee as u64,
                    new_supply: (p.total_supply - amount) as u64,
                    new_reserve: (p.reserve_sol - gross) as u64,
                })
            }),
            Err(e) => *final(pool) == *old(pool) && sell_check(*old(pool), creator_wallet, amount)
                == Some(e),
        },
{
    if amount == 0 {
        return Err(SipzyError::InvalidAmount);
    }
    if !pool.is_active {
        return Err(SipzyError::PoolInactive);
    }
    if creator_wallet != pool.creator_wallet {
        return Err(SipzyError::InvalidCreatorWallet);
    }
    if amount > pool.total_supply {
        return Err(SipzyError::InsufficientSupply);
    }
    let end_supply = pool.total_supply;
    let start_supply = end_supply - amount;
    let refund_result = match pool.pool_type {
        PoolType::Creator { slope } => calculate_linear_integral(
            start_supply,
            end_supply,
            pool.base_price,
            slope,
        ),
        PoolType::Stream { growth_rate_bps } => calculate_exponential_integral(
            start_supply,
            end_supply,
            pool.base_price,
            growth_rate_bps,
        ),
    };
    let gross_refund = match refund_result {
        Ok(c) => c,
        Err(e) => {
            return Err(e);
        },
    };
    let (creator_fee, net_refund) = match calculate_fee(gross_refund) {
        Ok(split) => split,
        Err(e) => {
            return Err(e);
        },
    };
    proof {
        lemma_fee_bounds(gross_refund as int, FEE_BASIS_POINTS as int);
    }
    let payout = net_refund + creator_fee;
    if pool.reserve_sol < payout {
        return Err(SipzyError::InsufficientReserve);
    }
    let new_reserve = pool.reserve_sol - payout;
    pool.reserve_sol = new_reserve;
    pool.total_supply = start_supply;
    Ok(
        TokensTraded {
            trader,
            trade_type: TradeType::Sell,
            amount,
            sol_amount: gross_refund,
            fee: creator_fee,
            new_supply: start_supply,
            new_reserve,
        },
    )
}

/// Deactivates the pool, barring trades until it is reactivated.  Only the
/// creator wallet may do this; any other caller is rejected with the pool
/// unchanged.
pub fn deactivate_pool(pool: &mut Pool, caller: u64) -> (r: Result<PoolStatusChanged, SipzyError>)
    ensures
        match r {
            Ok(ev) => caller == old(pool).creator_wallet && *final(pool) == (Pool {
                is_active: false,
                ..*old(pool)
            }) && ev == (PoolStatusChanged { is_active: false }),
            Err(e) => e == SipzyError::Unauthorized && caller != old(pool).creator_wallet
                && *final(pool) == *old(pool),
        },
{
    if caller != pool.creator_wallet {
        return Err(SipzyError::Unauthorized);
    }
    pool.is_active = false;
    Ok(PoolStatusChanged { is_active: false })
}

/// Reactivates the pool, permitting trades again.  Only the creator wallet
/// may do this; any other caller is rejected with the pool unchanged.
pub fn reactivate_pool(pool: &mut Pool, caller: u64) -> (r: Result<PoolStatusChanged, SipzyError>)
    ensures
        match r {
            Ok(ev) => caller == old(pool).creator_wallet && *final(pool) == (Pool {
                is_active: true,
                ..*old(pool)
            }) && ev == (PoolStatusChanged { is_active: true }),
            Err(e) => e == SipzyError::Unauthorized && caller != old(pool).creator_wallet
                && *final(pool) == *old(pool),
        },
{
    if caller != pool.creator_wallet {
        return Err(SipzyError::Unauthorized);
    }
    pool.is_active = true;
    Ok(PoolStatusChanged { is_active: true })
}

/// The value of an optional parameter, or its default.
pub open spec fn param_or(v: Option<u64>, default_value: u64) -> u64 {
    match v {
        Some(x) => x,
        None => default_value,
    }
}

/// Creates a linear (creator) pool in the active state with zero supply and
/// reserve.  The identifier, name and metadata URI are validated against
/// their maximum lengths; omitted curve parameters fall back to the creator
/// defaults.
pub fn initialize_creator_pool(
    channel_id: String,
    channel_name: String,
    metadata_uri: String,
    base_price: Option<u64>,
    slope: Option<u64>,
    creator_wallet: u64,
    authority: u64,
    created_at: i64,
) -> (r: Result<Pool, SipzyError>)
    ensures
        match r {
            Ok(p) => {
                &&& channel_id@.len() <= 32
                &&& channel_name@.len() <= 64
                &&& metadata_uri@.len() <= 200
                &&& p.pool_type == (PoolType::Creator { slope: param_or(slope, DEFAULT_CREATOR_SLOPE) })
                &&& p.identifier == channel_id
                &&& p.display_name == channel_name
                &&& p.parent_identifier@ == Seq::<char>::empty()
                &&& p.creator_wallet == creator_wallet
                &&& p.authority == authority
                &&& p.total_supply == 0
                &&& p.reserve_sol == 0
                &&& p.base_price == param_or(base_price, DEFAULT_CREATOR_BASE_PRICE)
                &&& p.metadata_uri == metadata_uri
                &&& p.created_at == created_at
                &&& p.is_active
                &&& p.wf()
            },
            Err(e) => {
                &&& (channel_id@.len() > 32 || channel_name@.len() > 64 || metadata_uri@.len()
                    > 200)
                &&& (e == SipzyError::IdentifierTooLong <==> channel_id@.len() > 32)
                &&& (e == SipzyError::NameTooLong <==> channel_id@.len() <= 32 && channel_name@.len() > 64)
                &&& (e == SipzyError::MetadataUriTooLong <==> channel_id@.len() <= 32
                    && channel_name@.len() <= 64 && metadata_uri@.len() > 200)
            },
        },
{
    if channel_id.as_str().unicode_len() > 32 {
        return Err(SipzyError::IdentifierTooLong);
    }
    if channel_name.as_str().unicode_len() > 64 {
        return Err(SipzyError::NameTooLong);
    }
    if metadata_uri.as_str().unicode_len() > 200 {
        return Err(SipzyError::MetadataUriTooLong);
    }
    let slope_value = match slope {
        Some(s) => s,
        None => DEFAULT_CREATOR_SLOPE,
    };
    let base_price_value = match base_price {
        Some(b) => b,
        None => DEFAULT_CREATOR_BASE_PRICE,
    };
    Ok(
        Pool {
            pool_type: PoolType::Creator { slope: slope_value },
            identifier: channel_id,
            display_name: channel_name,
            parent_identifier: String::new(),
            creator_wallet,
            authority,
            total_supply: 0,
            reserve_sol: 0,
            base_price: base_price_value,
            metadata_uri,
            created_at,
            is_active: true,
        },
    )
}

/// Creates an exponential (stream) pool in the active state with zero supply
/// and reserve, referencing its owning creator pool as parent.  The
/// identifiers, title and metadata URI are validated against their maximum
/// lengths; omitted curve parameters fall back to the stream defaults.
pub fn initialize_stream_pool(
    video_id: String,
    channel_id: String,
    video_title: String,
    metadata_uri: String,
    base_price: Option<u64>,
    growth_rate: Option<u64>,
    creator_wallet: u64,
    authority: u64,
    created_at: i64,
) -> (r: Result<Pool, SipzyError>)
    ensures
        match r {
            Ok(p) => {
                &&& video_id@.len() <= 32
                &&& channel_id@.len() <= 32
                &&& video_title@.len() <= 64
                &&& metadata_uri@.len() <= 200
                &&& p.pool_type == (PoolType::Stream {
                    growth_rate_bps: param_or(growth_rate, DEFAULT_STREAM_GROWTH_RATE),
                })
                &&& p.identifier == video_id
                &&& p.display_name == video_title
                &&& p.parent_identifier == channel_id
                &&& p.creator_wallet == creator_wallet
                &&& p.authority == authority
                &&& p.total_supply == 0
                &&& p.reserve_sol == 0
                &&& p.base_price == param_or(base_price, DEFAULT_STREAM_BASE_PRICE)
                &&& p.metadata_uri == metadata_uri
                &&& p.created_at == created_at
                &&& p.is_active
                &&& p.wf()
            },
            Err(e) => {
                &&& (video_id@.len() > 32 || channel_id@.len() > 32 || video_title@.len() > 64
                    || metadata_uri@.len() > 200)
                &&& (e == SipzyError::IdentifierTooLong <==> video_id@.len() > 32 || (
                video_id@.len() <= 32 && channel_id@.len() > 32))
                &&& (e == SipzyError::NameTooLong <==> video_id@.len() <= 32 && channel_id@.len()
                    <= 32 && video_title@.len() > 64)
                &&& (e == SipzyError::MetadataUriTooLong <==> video_id@.len() <= 32
                    && channel_id@.len() <= 32 && video_title@.len() <= 64 && metadata_uri@.len()
                    > 200)
            },
        },
{
    if video_id.as_str().unicode_len() > 32 {
        return Err(SipzyError::IdentifierTooLong);
    }
    if channel_id.as_str().unicode_len() > 32 {
        return Err(SipzyError::IdentifierTooLong);
    }
    if video_title.as_str().unicode_len() > 64 {
        return Err(SipzyError::NameTooLong);
    }
    if metadata_uri.as_str().unicode_len() > 200 {
        return Err(SipzyError::MetadataUriTooLong);
    }
    let growth_value = match growth_rate {
        Some(g) => g,
        None => DEFAULT_STREAM_GROWTH_RATE,
    };
    let base_price_value = match base_price {
        Some(b) => b,
        None => DEFAULT_STREAM_BASE_PRICE,
    };
    Ok(
        Pool {
            pool_type: PoolType::Stream { growth_rate_bps: growth_value },
            identifier: video_id,
            display_name: video_title,
            parent_identifier: channel_id,
            creator_wallet,
            authority,
            total_supply: 0,
            reserve_sol: 0,
            base_price: base_price_value,
            metadata_uri,
            created_at,
            is_active: true,
        },
    )
}

/// A buy that passes every check commits supply and reserve values that are
/// in range, and touches nothing else: the curve family, identifier,
/// identities and descriptive strings are exactly those of the old pool, so
/// well-formedness is preserved, and both committed quantities stay
/// non-negative `u64` values.
pub proof fn lemma_buy_commit_invariants(p: Pool, amount: u64)
    requires
        p.wf(),
        buy_check(p, p.creator_wallet, amount) == None::<SipzyError>,
    ensures
        ({
            let gross = buy_gross(p, amount as int);
            let fee = fee_amount(gross, FEE_BASIS_POINTS as int);
            let committed = Pool {
                total_supply: (p.total_supply + amount) as u64,
                reserve_sol: (p.reserve_sol + (gross - fee)) as u64,
                ..p
            };
            &&& 0 <= p.total_supply + amount <= u64::MAX
            &&& 0 <= p.reserve_sol + (gross - fee) <= u64::MAX
            &&& committed.wf()
            &&& committed.pool_type == p.pool_type
            &&& committed.identifier == p.identifier
        }),
{
    let gross = buy_gross(p, amount as int);
    lemma_trade_cost_nonneg(p.pool_type, p.base_price, p.total_supply, p.total_supply + amount);
    lemma_fee_bounds(gross, FEE_BASIS_POINTS as int);
}

/// A sell that passes every check commits supply and reserve values that are
/// in range, and touches nothing else: the burned amount never exceeds the
/// supply, the debited gross never exceeds the reserve, and the pool's
/// immutable fields and well-formedness are preserved.
pub proof fn lemma_sell_commit_invariants(p: Pool, amount: u64)
    requires
        p.wf(),
        sell_check(p, p.creator_wallet, amount) == None::<SipzyError>,
    ensures
        ({
            let gross = sell_gross(p, amount as int);
            let committed = Pool {
                total_supply: (p.total_supply - amount) as u64,
                reserve_sol: (p.reserve_sol - gross) as u64,
                ..p
            };
            &&& 0 <= p.total_supply - amount
            &&& 0 <= p.reserve_sol - gross
            &&& committed.wf()
            &&& committed.pool_type == p.pool_type
            &&& committed.identifier == p.identifier
        }),
{
    lemma_trade_cost_nonneg(
        p.pool_type,
        p.base_price,
        (p.total_supply - amount) as u64,
        p.total_supply as int,
    );
}

/// Zero-fee round trip on the linear curve: a sell of `amount` tokens
/// immediately after a buy of `amount` tokens from supply `supply` covers
/// exactly the same range, so its gross refund equals the gross cost — and
/// at a fee rate of zero basis points the net refund is that gross,
/// returning the trader precisely what the buy cost.
pub proof fn lemma_zero_fee_round_trip(base_price: u64, slope: u64, supply: u64, amount: u64)
    ensures
        ({
            let buy_cost = linear_cost(
                base_price as int,
                slope as int,
                supply as int,
                supply + amount,
            );
            let refund = linear_cost(
                base_price as int,
                slope as int,
                (supply + amount) - amount,
                supply + amount,
            );
            refund == buy_cost && refund - fee_amount(refund, 0) == buy_cost
        }),
{
    let refund = linear_cost(base_price as int, slope as int, supply as int, supply + amount);
    assert(refund * 0 == 0) by (nonlinear_arith);
}

/// Non-negative spread of a fee-charging round trip, for both curve
/// families: a sell of `amount` tokens immediately after a buy of `amount`
/// tokens from supply `supply` has a gross refund equal to the gross cost
/// the trader paid, and the net refund after the fee split never exceeds
/// that cost.
pub proof fn lemma_round_trip_spread(pool_type: PoolType, base_price: u64, supply: u64, amount: u64)
    requires
        supply + amount <= u64::MAX,
        trade_cost_ok(pool_type, base_price as int, supply as int, supply + amount),
    ensures
        ({
            let buy_cost = trade_cost(pool_type, base_price as int, supply as int, supply + amount);
            let refund = trade_cost(
                pool_type,
                base_price as int,
                (supply + amount) - amount,
                supply + amount,
            );
            refund == buy_cost && refund - fee_amount(refund, FEE_BASIS_POINTS as int) <= buy_cost
        }),
{
    let refund = trade_cost(pool_type, base_price as int, supply as int, supply + amount);
    lemma_trade_cost_nonneg(pool_type, base_price, supply, supply + amount);
    lemma_fee_bounds(refund, FEE_BASIS_POINTS as int);
}

} // verus!
