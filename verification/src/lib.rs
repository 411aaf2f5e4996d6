//! A dual bonding-curve pricing and trading library.
//!
//! Program-issued tokens are priced against a settlement-asset reserve by a
//! deterministic, state-dependent curve.  Two curve families are supported: a
//! linear curve (price grows by a fixed slope per unit of supply) and an
//! exponential curve (price compounds by a fixed rate, in basis points, per
//! unit minted).  The library computes exact point prices, exact integral
//! costs over a supply range, a deterministic fee split, and drives a pool's
//! state machine for buying, selling, quoting and lifecycle management.
//!
//! Host concerns — identity verification, persistent account storage, the
//! settlement-asset transfer itself and event delivery — are left to the
//! caller: every operation here is a synchronous computation over plain
//! values, committed atomically or not at all.

pub mod curve;
pub mod errors;
pub mod fee;
pub mod legacy;
pub mod pool;

pub use curve::{
    calculate_exponential_integral, calculate_exponential_price, calculate_linear_integral,
    calculate_linear_price, exp_power, EXP_PRECISION,
};
pub use errors::SipzyError;
pub use fee::{calculate_fee, BPS_DENOMINATOR, FEE_BASIS_POINTS};
pub use legacy::initialize_pool;
pub use pool::{
    buy_tokens, deactivate_pool, get_buy_cost, get_price, initialize_creator_pool,
    initialize_stream_pool, reactivate_pool, sell_tokens, Pool, PoolCreated, PoolStatusChanged,
    PoolType, TokensTraded, TradeType, DEFAULT_CREATOR_BASE_PRICE, DEFAULT_CREATOR_SLOPE,
    DEFAULT_STREAM_BASE_PRICE, DEFAULT_STREAM_GROWTH_RATE,
};
