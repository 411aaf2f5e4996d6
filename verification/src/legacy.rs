//! Backward-compatible entry point for pools created before the dual-curve
//! scheme: a thin adapter over the canonical creator-pool initializer, not
//! core logic.

use crate::errors::SipzyError;
use crate::pool::{
    initialize_creator_pool, Pool, PoolType, DEFAULT_CREATOR_BASE_PRICE, DEFAULT_CREATOR_SLOPE,
};
use vstd::prelude::*;

verus! {

/// Creates a linear pool from a single identifier, reusing it as the display
/// name, with no metadata URI and the default curve parameters.
pub fn initialize_pool(youtube_id: String, creator_wallet: u64, authority: u64, created_at: i64) -> (r:
    Result<Pool, SipzyError>)
    ensures
        match r {
            Ok(p) => {
                &&& youtube_id@.len() <= 32
                &&& p.pool_type == (PoolType::Creator { slope: DEFAULT_CREATOR_SLOPE })
                &&& p.identifier@ == youtube_id@
                &&& p.display_name@ == youtube_id@
                &&& p.parent_identifier@ == Seq::<char>::empty()
                &&& p.metadata_uri@ == Seq::<char>::empty()
                &&& p.creator_wallet == creator_wallet
                &&& p.authority == authority
                &&& p.total_supply == 0
                &&& p.reserve_sol == 0
                &&& p.base_price == DEFAULT_CREATOR_BASE_PRICE
                &&& p.created_at == created_at
                &&& p.is_active
                &&& p.wf()
            },
            Err(e) => e == SipzyError::IdentifierTooLong && youtube_id@.len() > 32,
        },
{
    initialize_creator_pool(
        youtube_id.clone(),
        youtube_id,
        String::new(),
        None,
        None,
        creator_wallet,
        authority,
        created_at,
    )
}

} // verus!
