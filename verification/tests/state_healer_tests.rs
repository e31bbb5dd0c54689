use alloy_primitives::U256;
use snap_sync::state_healer::{HealingResult, MissingData, StateHealer, StateHealingConfig};
use snap_sync::state_verifier::{AccountRange, AccountState, StateData, StorageRange};
use std::time::Duration;

fn empty_state() -> StateData {
    StateData { account_ranges: vec![], storage_ranges: vec![], byte_codes: vec![], trie_nodes: vec![] }
}

fn one_account_state() -> StateData {
    StateData {
        account_ranges: vec![AccountRange {
            accounts: vec![(
                [1u8; 20],
                AccountState {
                    nonce: U256::from(1).to_be_bytes::<32>(),
                    balance: U256::from(1000).to_be_bytes::<32>(),
                    code_hash: [1u8; 32],
                    storage_root: [2u8; 32],
                },
            )],
            proof: vec![[5u8; 32]],
        }],
        storage_ranges: vec![],
        byte_codes: vec![],
        trie_nodes: vec![],
    }
}

#[test]
fn test_state_healer_creation() {
    let healer = StateHealer::new(5, Duration::from_secs(30));

    assert_eq!(healer.max_healing_attempts, 5);
    assert_eq!(healer.healing_timeout, Duration::from_secs(30));
    assert!(healer.healing_results.is_empty());
}

#[test]
fn test_detect_missing_accounts() {
    let healer = StateHealer::new(5, Duration::from_secs(30));
    let missing_accounts = healer.detect_missing_accounts(&one_account_state());
    assert!(missing_accounts.is_empty());
}

#[test]
fn test_detect_missing_storage() {
    let healer = StateHealer::new(5, Duration::from_secs(30));
    let mut state_data = empty_state();
    state_data.storage_ranges =
        vec![StorageRange { account: [1u8; 20], storage_slots: vec![([1u8; 32], [2u8; 32])], proof: vec![[6u8; 32]] }];
    let missing_storage = healer.detect_missing_storage(&state_data);
    assert!(missing_storage.is_empty());
}

#[test]
fn test_detect_missing_byte_codes() {
    let healer = StateHealer::new(5, Duration::from_secs(30));
    let mut state_data = empty_state();
    state_data.byte_codes = vec![([1u8; 32], vec![0x60, 0x60])];
    let missing_byte_codes = healer.detect_missing_byte_codes(&state_data);
    assert!(missing_byte_codes.is_empty());
}

#[test]
fn test_detect_missing_trie_nodes() {
    let healer = StateHealer::new(5, Duration::from_secs(30));
    let mut state_data = empty_state();
    state_data.trie_nodes = vec![([1u8; 32], vec![0x80, 0x01])];
    let missing_trie_nodes = healer.detect_missing_trie_nodes(&state_data);
    assert!(missing_trie_nodes.is_empty());
}

#[test]
fn test_heal_missing_data() {
    let mut healer = StateHealer::new(5, Duration::from_secs(30));
    let missing_data = MissingData {
        missing_accounts: vec![[1u8; 20]],
        missing_storage: vec![([1u8; 20], [1u8; 32])],
        missing_byte_codes: vec![[1u8; 32]],
        missing_trie_nodes: vec![[1u8; 32]],
    };

    let result = healer.heal_missing_data(missing_data);
    assert!(result.is_ok());
    let healing_result = result.unwrap();
    assert!(healing_result.is_successful);
    assert_eq!(healing_result.healed_accounts, 1);
    assert_eq!(healing_result.healed_storage_slots, 1);
    assert_eq!(healing_result.healed_byte_codes, 1);
    assert_eq!(healing_result.healed_trie_nodes, 1);
}

#[test]
fn test_verify_state_consistency() {
    let healer = StateHealer::new(5, Duration::from_secs(30));
    let is_consistent = healer.verify_state_consistency(&one_account_state());
    assert!(is_consistent);
}

fn sample() -> HealingResult {
    HealingResult {
        is_successful: true,
        healed_accounts: 5,
        healed_storage_slots: 10,
        healed_byte_codes: 3,
        healed_trie_nodes: 7,
        healing_time_ns: 100_000_000,
    }
}

#[test]
fn test_get_healing_stats() {
    let mut healer = StateHealer::new(5, Duration::from_secs(30));
    healer.healing_results.insert("test1".to_string(), sample());

    let stats = healer.get_healing_stats();
    assert_eq!(stats.total_healing_attempts, 1);
    assert_eq!(stats.successful_healing_attempts, 1);
    assert_eq!(stats.failed_healing_attempts, 0);
    assert_eq!(stats.total_healed_accounts, 5);
    assert_eq!(stats.total_healed_storage_slots, 10);
    assert_eq!(stats.total_healed_byte_codes, 3);
    assert_eq!(stats.total_healed_trie_nodes, 7);
    assert_eq!(stats.average_healing_time_ns, 100_000_000);
}

#[test]
fn test_clear_healing_results() {
    let mut healer = StateHealer::new(5, Duration::from_secs(30));
    healer.healing_results.insert("test1".to_string(), sample());

    assert_eq!(healer.healing_results.len(), 1);

    healer.clear_healing_results();

    assert_eq!(healer.healing_results.len(), 0);
}

#[test]
fn healing_config_defaults() {
    let c = StateHealingConfig::default();
    assert_eq!(c.max_healing_attempts, 5);
    assert_eq!(c.healing_timeout, Duration::from_secs(30));
    assert!(c.enable_detailed_logging);
    let h = StateHealer::with_config(c);
    assert_eq!(h.max_healing_attempts, 5);
}

#[test]
fn healing_nothing_succeeds_and_is_recorded() {
    let mut healer = StateHealer::new(1, Duration::from_secs(1));
    let r = healer
        .heal_missing_data(MissingData {
            missing_accounts: vec![],
            missing_storage: vec![],
            missing_byte_codes: vec![],
            missing_trie_nodes: vec![],
        })
        .unwrap();
    assert!(r.is_successful);
    assert_eq!(healer.healing_results.len(), 1);
    assert_eq!(healer.get_healing_stats().successful_healing_attempts, 1);
}

#[test]
fn every_healing_run_counts_as_an_attempt() {
    let mut healer = StateHealer::new(3, Duration::from_secs(10));
    let empty = || MissingData { missing_accounts: vec![], missing_storage: vec![], missing_byte_codes: vec![], missing_trie_nodes: vec![] };
    for _ in 0..5 {
        assert!(healer.heal_missing_data(empty()).is_ok());
    }
    assert_eq!(healer.get_healing_stats().total_healing_attempts, 5);
    assert_eq!(healer.healing_results.len(), 5);
}

#[test]
fn healing_stats_saturate_counts_and_average_large_times() {
    let mut healer = StateHealer::new(5, Duration::from_secs(30));
    let big = HealingResult { healed_accounts: usize::MAX, healing_time_ns: u64::MAX, ..sample() };
    healer.healing_results.insert("a".to_string(), big);
    healer.healing_results.insert("b".to_string(), big);
    healer.healing_results.insert("c".to_string(), HealingResult { is_successful: false, healing_time_ns: u64::MAX - 2, ..sample() });
    let stats = healer.get_healing_stats();
    assert_eq!(stats.total_healing_attempts, 3);
    assert_eq!(stats.successful_healing_attempts, 2);
    assert_eq!(stats.failed_healing_attempts, 1);
    assert_eq!(stats.total_healed_accounts, usize::MAX);
    assert_eq!(stats.total_healed_storage_slots, 30);
    assert_eq!(stats.average_healing_time_ns, u64::MAX - 1);
}
