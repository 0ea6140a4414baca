use zeus_tokens::pools::{
    lookup_token, price_source, select_pools, select_v4_pools, sync_targets, token_registry, PoolId, PoolPick,
    PoolRecord, PriceSource,
};
use zeus_tokens::token_info::Address;

fn addr(b: u8) -> Address {
    let mut bytes = [0u8; 20];
    bytes[19] = b;
    Address { bytes }
}

fn pid(b: u8) -> PoolId {
    let mut bytes = [0u8; 32];
    bytes[31] = b;
    PoolId { bytes }
}

#[test]
fn targets_skip_the_token_itself() {
    let bases = vec![addr(1), addr(2), addr(3), addr(2)];
    assert_eq!(sync_targets(&bases, &addr(2)), vec![0, 2]);
    assert_eq!(sync_targets(&bases, &addr(9)), vec![0, 1, 2, 3]);
}

#[test]
fn registry_is_targets_then_token() {
    let bases = vec![addr(1), addr(2), addr(3)];
    let targets = sync_targets(&bases, &addr(2));
    let reg = token_registry(&bases, &targets, &addr(2));
    assert_eq!(reg, vec![addr(1), addr(3), addr(2)]);
}

#[test]
fn lookup_prefers_the_last_entry() {
    let reg = vec![addr(1), addr(2), addr(1)];
    assert_eq!(lookup_token(&reg, &addr(1)), Some(2));
    assert_eq!(lookup_token(&reg, &addr(2)), Some(1));
    assert_eq!(lookup_token(&reg, &addr(7)), None);
}

#[test]
fn pools_with_zero_address_or_unknown_tokens_are_dropped() {
    let reg = vec![addr(1), addr(3), addr(2)];
    let pools = vec![
        PoolRecord { addr: addr(10), token_a: addr(1), token_b: addr(2) },
        PoolRecord { addr: addr(0), token_a: addr(1), token_b: addr(2) },
        PoolRecord { addr: addr(11), token_a: addr(9), token_b: addr(2) },
        PoolRecord { addr: addr(12), token_a: addr(2), token_b: addr(9) },
        PoolRecord { addr: addr(13), token_a: addr(2), token_b: addr(3) },
    ];
    assert_eq!(
        select_pools(&pools, &reg),
        vec![PoolPick { pool: 0, token_a: 0, token_b: 2 }, PoolPick { pool: 4, token_a: 2, token_b: 1 }]
    );
}

#[test]
fn v4_pools_found_are_mapped_back() {
    let asked = vec![pid(1), pid(2), pid(3)];
    let found = vec![pid(3), pid(0), pid(1)];
    assert_eq!(select_v4_pools(&found, &asked), vec![2, 0]);
    assert!(pid(0).is_zero());
    assert!(!pid(4).is_zero());
}

#[test]
fn price_sources() {
    assert_eq!(price_source(true, false, false), PriceSource::Native);
    assert_eq!(price_source(false, true, true), PriceSource::Native);
    assert_eq!(price_source(false, false, true), PriceSource::Stable);
    assert_eq!(price_source(false, false, false), PriceSource::Unpriced);
}
