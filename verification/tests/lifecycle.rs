use sipzy_vault::{
    deactivate_pool, initialize_creator_pool, initialize_pool, initialize_stream_pool,
    reactivate_pool, Pool, PoolType, SipzyError,
};

const CREATOR: u64 = 11;
const AUTHORITY: u64 = 22;

fn init_creator(channel_id: &str, name: &str, uri: &str) -> Result<Pool, SipzyError> {
    initialize_creator_pool(
        String::from(channel_id),
        String::from(name),
        String::from(uri),
        None,
        None,
        CREATOR,
        AUTHORITY,
        1_700_000_000,
    )
}

#[test]
fn creator_pool_starts_active_and_empty_with_defaults() {
    let pool = init_creator("channel", "A Channel", "ipfs://meta").unwrap();
    assert_eq!(pool.identifier, "channel");
    assert_eq!(pool.display_name, "A Channel");
    assert_eq!(pool.parent_identifier, "");
    assert_eq!(pool.metadata_uri, "ipfs://meta");
    assert_eq!(pool.creator_wallet, CREATOR);
    assert_eq!(pool.authority, AUTHORITY);
    assert_eq!(pool.total_supply, 0);
    assert_eq!(pool.reserve_sol, 0);
    assert_eq!(pool.base_price, 10_000_000);
    assert_eq!(pool.created_at, 1_700_000_000);
    assert!(pool.is_active);
    assert!(matches!(pool.pool_type, PoolType::Creator { slope: 100_000 }));
}

#[test]
fn creator_pool_takes_explicit_curve_parameters() {
    let pool = initialize_creator_pool(
        String::from("channel"),
        String::from("A Channel"),
        String::new(),
        Some(5_000_000),
        Some(77),
        CREATOR,
        AUTHORITY,
        0,
    )
    .unwrap();
    assert_eq!(pool.base_price, 5_000_000);
    assert!(matches!(pool.pool_type, PoolType::Creator { slope: 77 }));
}

#[test]
fn overlong_identifier_is_rejected() {
    let id: String = "x".repeat(33);
    assert_eq!(
        init_creator(&id, "name", "uri").unwrap_err(),
        SipzyError::IdentifierTooLong
    );
}

#[test]
fn overlong_name_is_rejected() {
    let name: String = "x".repeat(65);
    assert_eq!(
        init_creator("channel", &name, "uri").unwrap_err(),
        SipzyError::NameTooLong
    );
}

#[test]
fn overlong_metadata_uri_is_rejected() {
    let uri: String = "x".repeat(201);
    assert_eq!(
        init_creator("channel", "name", &uri).unwrap_err(),
        SipzyError::MetadataUriTooLong
    );
}

#[test]
fn stream_pool_references_its_parent_channel() {
    let pool = initialize_stream_pool(
        String::from("video"),
        String::from("channel"),
        String::from("A Video"),
        String::from("ipfs://meta"),
        None,
        None,
        CREATOR,
        AUTHORITY,
        1_700_000_000,
    )
    .unwrap();
    assert_eq!(pool.identifier, "video");
    assert_eq!(pool.parent_identifier, "channel");
    assert_eq!(pool.display_name, "A Video");
    assert_eq!(pool.base_price, 1_000_000);
    assert!(matches!(
        pool.pool_type,
        PoolType::Stream {
            growth_rate_bps: 500
        }
    ));
    assert!(pool.is_active);
}

#[test]
fn stream_pool_rejects_overlong_identifiers() {
    let long: String = "x".repeat(33);
    assert_eq!(
        initialize_stream_pool(
            long.clone(),
            String::from("channel"),
            String::from("title"),
            String::new(),
            None,
            None,
            CREATOR,
            AUTHORITY,
            0,
        )
        .unwrap_err(),
        SipzyError::IdentifierTooLong
    );
    assert_eq!(
        initialize_stream_pool(
            String::from("video"),
            long,
            String::from("title"),
            String::new(),
            None,
            None,
            CREATOR,
            AUTHORITY,
            0,
        )
        .unwrap_err(),
        SipzyError::IdentifierTooLong
    );
}

#[test]
fn legacy_initializer_reuses_the_identifier_as_name() {
    let pool = initialize_pool(String::from("legacy-channel"), CREATOR, AUTHORITY, 7).unwrap();
    assert_eq!(pool.identifier, "legacy-channel");
    assert_eq!(pool.display_name, "legacy-channel");
    assert_eq!(pool.parent_identifier, "");
    assert_eq!(pool.metadata_uri, "");
    assert_eq!(pool.base_price, 10_000_000);
    assert!(matches!(pool.pool_type, PoolType::Creator { slope: 100_000 }));
    assert!(pool.is_active);
}

#[test]
fn legacy_initializer_validates_the_identifier() {
    let id: String = "x".repeat(33);
    assert_eq!(
        initialize_pool(id, CREATOR, AUTHORITY, 7).unwrap_err(),
        SipzyError::IdentifierTooLong
    );
}

#[test]
fn only_the_creator_may_toggle_activity() {
    let mut pool = init_creator("channel", "name", "uri").unwrap();
    assert_eq!(
        deactivate_pool(&mut pool, AUTHORITY),
        Err(SipzyError::Unauthorized)
    );
    assert!(pool.is_active);
    assert_eq!(
        reactivate_pool(&mut pool, 999),
        Err(SipzyError::Unauthorized)
    );
    assert!(pool.is_active);
}

#[test]
fn toggling_activity_reports_the_new_state() {
    let mut pool = init_creator("channel", "name", "uri").unwrap();
    let ev = deactivate_pool(&mut pool, CREATOR).unwrap();
    assert!(!ev.is_active);
    assert!(!pool.is_active);
    let ev = reactivate_pool(&mut pool, CREATOR).unwrap();
    assert!(ev.is_active);
    assert!(pool.is_active);
}

#[test]
fn created_event_mirrors_the_pool() {
    let pool = init_creator("channel", "name", "uri").unwrap();
    let ev = pool.created_event();
    assert_eq!(ev.identifier, "channel");
    assert_eq!(ev.creator_wallet, CREATOR);
    assert_eq!(ev.base_price, 10_000_000);
    assert!(matches!(ev.pool_type, PoolType::Creator { slope: 100_000 }));
}
