use zeus_tokens::chain::{dir_name_for_id, Chain};
use zeus_tokens::cleanup::{classify_status, CleanupTally, StatusAction};

#[test]
fn chain_ids() {
    assert_eq!(Chain::Ethereum.id(), 1);
    assert_eq!(Chain::Optimism.id(), 10);
    assert_eq!(Chain::BinanceSmartChain.id(), 56);
    assert_eq!(Chain::Base.id(), 8453);
    assert_eq!(Chain::Arbitrum.id(), 42161);
}

#[test]
fn chain_id_roundtrip() {
    for c in Chain::supported() {
        assert_eq!(Chain::from_id(c.id()), Some(c));
    }
    assert_eq!(Chain::from_id(2), None);
    assert_eq!(Chain::from_id(137), None);
}

#[test]
fn supported_order() {
    let ids: Vec<u64> = Chain::supported().iter().map(|c| c.id()).collect();
    assert_eq!(ids, vec![1, 10, 56, 8453, 42161]);
}

#[test]
fn chain_names() {
    assert_eq!(Chain::Ethereum.dir_name(), "ethereum");
    assert_eq!(Chain::Optimism.dir_name(), "optimism");
    assert_eq!(Chain::BinanceSmartChain.dir_name(), "binance");
    assert_eq!(Chain::Base.dir_name(), "base");
    assert_eq!(Chain::Arbitrum.dir_name(), "arbitrum");
    assert_eq!(Chain::Ethereum.rpc_env_var(), "ETHEREUM_RPC");
    assert_eq!(Chain::BinanceSmartChain.rpc_env_var(), "BINANCE_RPC");
    assert_eq!(Chain::Arbitrum.rpc_env_var(), "ARBITRUM_RPC");
    assert_eq!(dir_name_for_id(8453), Some("base"));
    assert_eq!(dir_name_for_id(3), None);
}

#[test]
fn bsc_is_detected() {
    assert!(Chain::BinanceSmartChain.is_bsc());
    assert!(!Chain::Base.is_bsc());
}

#[test]
fn status_classification() {
    assert_eq!(classify_status(&"abandoned".to_string()), StatusAction::RemoveAbandoned);
    assert_eq!(classify_status(&"spam".to_string()), StatusAction::RemoveSpam);
    assert_eq!(classify_status(&"active".to_string()), StatusAction::Keep);
    assert_eq!(classify_status(&"Spam".to_string()), StatusAction::Keep);
    assert_eq!(classify_status(&"".to_string()), StatusAction::Keep);
}

#[test]
fn tally_counts_each_token_once() {
    let mut t = CleanupTally::new();
    for s in ["active", "spam", "abandoned", "spam", "active", "active"] {
        assert!(t.has_room());
        t.record(classify_status(&s.to_string()));
    }
    assert_eq!(t, CleanupTally { active: 3, removed_abandoned: 1, removed_spam: 2 });
    let full = CleanupTally { active: u64::MAX, removed_abandoned: 0, removed_spam: 0 };
    assert!(!full.has_room());
}
