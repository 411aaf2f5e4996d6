use sipzy_vault::{
    buy_tokens, deactivate_pool, get_buy_cost, get_price, initialize_creator_pool,
    initialize_stream_pool, reactivate_pool, sell_tokens, Pool, PoolType, SipzyError, TradeType,
};

const CREATOR: u64 = 11;
const AUTHORITY: u64 = 22;
const TRADER: u64 = 33;

fn creator_pool() -> Pool {
    initialize_creator_pool(
        String::from("channel"),
        String::from("A Channel"),
        String::from("ipfs://meta"),
        None,
        None,
        CREATOR,
        AUTHORITY,
        1_700_000_000,
    )
    .unwrap()
}

fn stream_pool() -> Pool {
    initialize_stream_pool(
        String::from("video"),
        String::from("channel"),
        String::from("A Video"),
        String::from("ipfs://meta"),
        None,
        None,
        CREATOR,
        AUTHORITY,
        1_700_000_000,
    )
    .unwrap()
}

#[test]
fn buy_one_token_from_empty_linear_pool() {
    let mut pool = creator_pool();
    let ev = buy_tokens(&mut pool, TRADER, CREATOR, 1).unwrap();
    assert_eq!(ev.trade_type, TradeType::Buy);
    assert_eq!(ev.amount, 1);
    assert_eq!(ev.sol_amount, 10_000_000);
    assert_eq!(ev.fee, 100_000);
    assert_eq!(ev.new_supply, 1);
    assert_eq!(ev.new_reserve, 9_900_000);
    assert_eq!(pool.total_supply, 1);
    assert_eq!(pool.reserve_sol, 9_900_000);
}

#[test]
fn buy_ten_tokens_from_empty_linear_pool() {
    let mut pool = creator_pool();
    let ev = buy_tokens(&mut pool, TRADER, CREATOR, 10).unwrap();
    assert_eq!(ev.sol_amount, 104_500_000);
    assert_eq!(ev.fee, 1_045_000);
    assert_eq!(ev.new_reserve, 103_455_000);
    assert_eq!(ev.new_supply, 10);
    assert_eq!(pool.total_supply, 10);
    assert_eq!(pool.reserve_sol, 103_455_000);
}

#[test]
fn buy_zero_tokens_fails_without_state_change() {
    let mut pool = creator_pool();
    assert_eq!(
        buy_tokens(&mut pool, TRADER, CREATOR, 0),
        Err(SipzyError::InvalidAmount)
    );
    assert_eq!(pool.total_supply, 0);
    assert_eq!(pool.reserve_sol, 0);
    assert!(pool.is_active);
}

#[test]
fn sell_beyond_supply_fails_without_state_change() {
    let mut pool = creator_pool();
    buy_tokens(&mut pool, TRADER, CREATOR, 3).unwrap();
    let reserve_before = pool.reserve_sol;
    assert_eq!(
        sell_tokens(&mut pool, TRADER, CREATOR, 5),
        Err(SipzyError::InsufficientSupply)
    );
    assert_eq!(pool.total_supply, 3);
    assert_eq!(pool.reserve_sol, reserve_before);
}

#[test]
fn sell_pays_net_refund_and_fee_from_reserve() {
    // A pool whose reserve was topped up beyond its own deposits, so that
    // the combined refund and fee are covered.
    let mut pool = creator_pool();
    pool.total_supply = 5;
    pool.reserve_sol = 60_000_000;
    let ev = sell_tokens(&mut pool, TRADER, CREATOR, 5).unwrap();
    assert_eq!(ev.trade_type, TradeType::Sell);
    assert_eq!(ev.sol_amount, 51_000_000);
    assert_eq!(ev.fee, 510_000);
    assert_eq!(ev.new_supply, 0);
    assert_eq!(ev.new_reserve, 9_000_000);
    assert_eq!(pool.total_supply, 0);
    assert_eq!(pool.reserve_sol, 9_000_000);
}

#[test]
fn round_trip_never_refunds_more_than_was_paid() {
    let mut pool = creator_pool();
    let buy = buy_tokens(&mut pool, TRADER, CREATOR, 5).unwrap();
    // Cover the spread so the sell itself can settle, then sell the same
    // amount back: the gross refund equals the gross cost, and the net
    // refund is below what the trader paid.
    pool.reserve_sol = buy.sol_amount;
    let sell = sell_tokens(&mut pool, TRADER, CREATOR, 5).unwrap();
    assert_eq!(sell.sol_amount, buy.sol_amount);
    let net_refund = sell.sol_amount - sell.fee;
    assert!(net_refund <= buy.sol_amount);
    assert_eq!(pool.total_supply, 0);
}

#[test]
fn exponential_round_trip_never_refunds_more_than_was_paid() {
    let mut pool = stream_pool();
    let buy = buy_tokens(&mut pool, TRADER, CREATOR, 7).unwrap();
    pool.reserve_sol = buy.sol_amount;
    let sell = sell_tokens(&mut pool, TRADER, CREATOR, 7).unwrap();
    assert_eq!(sell.sol_amount, buy.sol_amount);
    assert!(sell.sol_amount - sell.fee <= buy.sol_amount);
}

#[test]
fn sell_with_empty_reserve_fails() {
    let mut pool = creator_pool();
    pool.total_supply = 5;
    pool.reserve_sol = 0;
    assert_eq!(
        sell_tokens(&mut pool, TRADER, CREATOR, 1),
        Err(SipzyError::InsufficientReserve)
    );
    assert_eq!(pool.total_supply, 5);
    assert_eq!(pool.reserve_sol, 0);
}

#[test]
fn inactive_pool_rejects_trades() {
    let mut pool = creator_pool();
    deactivate_pool(&mut pool, CREATOR).unwrap();
    assert_eq!(
        buy_tokens(&mut pool, TRADER, CREATOR, 1),
        Err(SipzyError::PoolInactive)
    );
    assert_eq!(
        sell_tokens(&mut pool, TRADER, CREATOR, 1),
        Err(SipzyError::PoolInactive)
    );
    reactivate_pool(&mut pool, CREATOR).unwrap();
    assert!(buy_tokens(&mut pool, TRADER, CREATOR, 1).is_ok());
}

#[test]
fn mismatched_creator_wallet_rejects_trades() {
    let mut pool = creator_pool();
    assert_eq!(
        buy_tokens(&mut pool, TRADER, 999, 1),
        Err(SipzyError::InvalidCreatorWallet)
    );
    assert_eq!(pool.total_supply, 0);
}

#[test]
fn buy_past_supply_limit_overflows() {
    let mut pool = creator_pool();
    pool.total_supply = u64::MAX;
    assert_eq!(
        buy_tokens(&mut pool, TRADER, CREATOR, 1),
        Err(SipzyError::Overflow)
    );
    assert_eq!(pool.total_supply, u64::MAX);
}

#[test]
fn quote_price_follows_linear_curve() {
    let mut pool = creator_pool();
    assert_eq!(get_price(&pool), Ok(10_000_000));
    buy_tokens(&mut pool, TRADER, CREATOR, 1).unwrap();
    assert_eq!(get_price(&pool), Ok(10_100_000));
}

#[test]
fn quote_price_follows_exponential_curve() {
    let mut pool = stream_pool();
    assert_eq!(get_price(&pool), Ok(1_000_000));
    buy_tokens(&mut pool, TRADER, CREATOR, 1).unwrap();
    assert_eq!(get_price(&pool), Ok(1_050_000));
}

#[test]
fn quoted_buy_cost_includes_the_fee() {
    let pool = creator_pool();
    // Gross cost 104_500_000 inflated by 1%: 104_500_000 * 10100 / 10000.
    assert_eq!(get_buy_cost(&pool, 10), Ok(105_545_000));
    assert_eq!(get_buy_cost(&pool, 0), Ok(0));
}

#[test]
fn quoted_buy_cost_exponential_closed_form() {
    let pool = stream_pool();
    assert_eq!(get_buy_cost(&pool, 150), Ok(30_440_945_097));
}

#[test]
fn quotes_do_not_change_state() {
    let pool = creator_pool();
    let supply = pool.total_supply;
    let reserve = pool.reserve_sol;
    let _ = get_price(&pool);
    let _ = get_buy_cost(&pool, 10);
    assert_eq!(pool.total_supply, supply);
    assert_eq!(pool.reserve_sol, reserve);
}

#[test]
fn stream_pool_trades_on_the_exponential_curve() {
    let mut pool = stream_pool();
    assert!(matches!(
        pool.pool_type,
        PoolType::Stream {
            growth_rate_bps: 500
        }
    ));
    let ev = buy_tokens(&mut pool, TRADER, CREATOR, 3).unwrap();
    assert_eq!(ev.sol_amount, 3_152_500);
    assert_eq!(ev.fee, 31_525);
    assert_eq!(ev.new_reserve, 3_120_975);
}
