use alloy_primitives::U256;
use snap_sync::state_verifier::{
    AccountRange, AccountState, StateData, StateTrie, StateVerificationConfig, StateVerifier, StorageRange,
    VerificationResult,
};
use std::time::Duration;

fn u256(v: u64) -> [u8; 32] {
    U256::from(v).to_be_bytes::<32>()
}

fn account(n: u8, nonce: u64, balance: u64, code: u8, root: u8) -> ([u8; 20], AccountState) {
    (
        [n; 20],
        AccountState { nonce: u256(nonce), balance: u256(balance), code_hash: [code; 32], storage_root: [root; 32] },
    )
}

fn new_verifier() -> StateVerifier {
    StateVerifier::new(1000, Duration::from_secs(30))
}

#[test]
fn test_state_verifier_creation() {
    let verifier = new_verifier();

    assert_eq!(verifier.max_verification_attempts, 1000);
    assert_eq!(verifier.verification_timeout, Duration::from_secs(30));
    assert!(verifier.verification_results.is_empty());
}

#[test]
fn test_verify_account_range() {
    let mut verifier = new_verifier();
    let account_range = AccountRange {
        accounts: vec![account(1, 1, 1000, 1, 2), account(2, 2, 2000, 3, 4)],
        proof: vec![[5u8; 32], [6u8; 32]],
    };

    let result = verifier.verify_account_range(account_range, [7u8; 32]);

    assert!(result.is_ok());
    let verification_result = result.unwrap();
    assert!(verification_result.is_valid);
    assert_eq!(verification_result.verified_accounts, 2);
}

#[test]
fn test_verify_storage_range() {
    let mut verifier = new_verifier();
    let storage_range = StorageRange {
        account: [1u8; 20],
        storage_slots: vec![([1u8; 32], [2u8; 32]), ([3u8; 32], [4u8; 32])],
        proof: vec![[5u8; 32], [6u8; 32]],
    };

    let result = verifier.verify_storage_range(storage_range, [7u8; 32]);

    assert!(result.is_ok());
    let verification_result = result.unwrap();
    assert!(verification_result.is_valid);
    assert_eq!(verification_result.verified_slots, 2);
}

#[test]
fn test_verify_byte_codes() {
    let mut verifier = new_verifier();
    let byte_codes = vec![([1u8; 32], vec![0x60, 0x60, 0x60, 0x60]), ([2u8; 32], vec![0x60, 0x60, 0x60, 0x60])];

    let result = verifier.verify_byte_codes(byte_codes);

    assert!(result.is_ok());
    let verification_result = result.unwrap();
    assert!(verification_result.is_valid);
    assert_eq!(verification_result.verified_codes, 2);
}

#[test]
fn test_verify_trie_nodes() {
    let mut verifier = new_verifier();
    let trie_nodes = vec![([1u8; 32], vec![0x80, 0x01]), ([2u8; 32], vec![0x80, 0x02])];

    let result = verifier.verify_trie_nodes(trie_nodes);

    assert!(result.is_ok());
    let verification_result = result.unwrap();
    assert!(verification_result.is_valid);
    assert_eq!(verification_result.verified_nodes, 2);
}

#[test]
fn test_reconstruct_state_trie() {
    let mut verifier = new_verifier();
    let state_data = StateData {
        account_ranges: vec![AccountRange { accounts: vec![account(1, 1, 1000, 1, 2)], proof: vec![[5u8; 32]] }],
        storage_ranges: vec![StorageRange {
            account: [1u8; 20],
            storage_slots: vec![([1u8; 32], [2u8; 32])],
            proof: vec![[6u8; 32]],
        }],
        byte_codes: vec![([1u8; 32], vec![0x60, 0x60])],
        trie_nodes: vec![([1u8; 32], vec![0x80, 0x01])],
    };

    let result = verifier.reconstruct_state_trie(state_data);

    assert!(result.is_ok());
    let state_trie = result.unwrap();
    assert!(!state_trie.is_empty());
    // the storage slot, the byte code and the trie node all land under the key [1; 32]: the
    // node, written last, replaces the others
    assert_eq!(state_trie.len(), 2);
}

#[test]
fn test_verify_invalid_account_range() {
    let mut verifier = new_verifier();
    let account_range = AccountRange { accounts: vec![account(1, 1, 1000, 1, 2)], proof: vec![] };

    let result = verifier.verify_account_range(account_range, [7u8; 32]);

    assert!(result.is_ok());
    let verification_result = result.unwrap();
    assert!(!verification_result.is_valid);
    assert_eq!(verification_result.verified_accounts, 0);
}

#[test]
fn test_verify_invalid_storage_range() {
    let mut verifier = new_verifier();
    let storage_range = StorageRange { account: [1u8; 20], storage_slots: vec![([1u8; 32], [2u8; 32])], proof: vec![] };

    let result = verifier.verify_storage_range(storage_range, [7u8; 32]);

    assert!(result.is_ok());
    let verification_result = result.unwrap();
    assert!(!verification_result.is_valid);
    assert_eq!(verification_result.verified_slots, 0);
}

#[test]
fn test_verify_invalid_byte_codes() {
    let mut verifier = new_verifier();
    let byte_codes = vec![([1u8; 32], vec![])];

    let result = verifier.verify_byte_codes(byte_codes);

    assert!(result.is_ok());
    let verification_result = result.unwrap();
    assert!(!verification_result.is_valid);
    assert_eq!(verification_result.verified_codes, 0);
}

#[test]
fn test_verify_invalid_trie_nodes() {
    let mut verifier = new_verifier();
    let trie_nodes = vec![([1u8; 32], vec![])];

    let result = verifier.verify_trie_nodes(trie_nodes);

    assert!(result.is_ok());
    let verification_result = result.unwrap();
    assert!(!verification_result.is_valid);
    assert_eq!(verification_result.verified_nodes, 0);
}

fn sample_result() -> VerificationResult {
    VerificationResult {
        is_valid: true,
        verified_accounts: 10,
        verified_slots: 5,
        verified_codes: 3,
        verified_nodes: 7,
        verification_time_ns: 100_000_000,
    }
}

#[test]
fn test_get_verification_stats() {
    let mut verifier = new_verifier();
    verifier.verification_results.insert("test1".to_string(), sample_result());

    let stats = verifier.get_verification_stats();
    assert_eq!(stats.total_verifications, 1);
    assert_eq!(stats.successful_verifications, 1);
    assert_eq!(stats.failed_verifications, 0);
    assert_eq!(stats.total_verified_accounts, 10);
    assert_eq!(stats.total_verified_slots, 5);
    assert_eq!(stats.total_verified_codes, 3);
    assert_eq!(stats.total_verified_nodes, 7);
    assert_eq!(stats.average_verification_time_ns, 100_000_000);
}

#[test]
fn test_clear_verification_results() {
    let mut verifier = new_verifier();
    verifier.verification_results.insert("test1".to_string(), sample_result());

    assert_eq!(verifier.verification_results.len(), 1);

    verifier.clear_verification_results();

    assert_eq!(verifier.verification_results.len(), 0);
}

#[test]
fn results_recorded_under_their_ids() {
    let mut verifier = new_verifier();
    let codes = vec![([1u8; 32], vec![1u8]), ([2u8; 32], vec![])];
    let r = verifier.verify_byte_codes(codes.clone()).unwrap();
    assert!(!r.is_valid);
    assert_eq!(r.verified_codes, 1);
    // the same list again replaces the result recorded under "byte_codes_2"
    verifier.verify_byte_codes(codes).unwrap();
    assert_eq!(verifier.verification_results.len(), 1);
    // an empty list is invalid and not recorded
    let r = verifier.verify_byte_codes(vec![]).unwrap();
    assert!(!r.is_valid);
    assert_eq!(verifier.verification_results.len(), 1);
    let stats = verifier.get_verification_stats();
    assert_eq!(stats.failed_verifications, 1);
    assert_eq!(stats.total_verified_codes, 1);
}

#[test]
fn stats_average_time() {
    let mut verifier = new_verifier();
    let mut a = sample_result();
    a.verification_time_ns = 10;
    let mut b = sample_result();
    b.verification_time_ns = 25;
    b.is_valid = false;
    verifier.verification_results.insert("a".to_string(), a);
    verifier.verification_results.insert("b".to_string(), b);
    let stats = verifier.get_verification_stats();
    assert_eq!(stats.total_verifications, 2);
    assert_eq!(stats.successful_verifications, 1);
    assert_eq!(stats.average_verification_time_ns, 17);
    assert_eq!(stats.total_verified_accounts, 20);
}

#[test]
fn empty_trie_root_is_zero() {
    let mut verifier = new_verifier();
    let ok = verifier.verify_state_root(StateTrie::new(), [0u8; 32]).unwrap();
    assert!(ok.is_valid);
    let bad = verifier.verify_state_root(StateTrie::new(), [8u8; 32]).unwrap();
    assert!(!bad.is_valid);
    assert_eq!(verifier.verification_results.len(), 1);
}

#[test]
fn config_defaults() {
    let c = StateVerificationConfig::default();
    assert_eq!(c.max_verification_attempts, 1000);
    assert_eq!(c.verification_timeout, Duration::from_secs(30));
    let v = StateVerifier::with_config(c);
    assert_eq!(v.max_verification_attempts, 1000);
}

#[test]
fn storage_range_id_uses_checksummed_address() {
    let mut verifier = new_verifier();
    let range = StorageRange { account: [0xabu8; 20], storage_slots: vec![([1u8; 32], [2u8; 32])], proof: vec![[1u8; 32]] };
    verifier.verify_storage_range(range.clone(), [0u8; 32]).unwrap();
    verifier.verify_storage_range(range, [0u8; 32]).unwrap();
    assert_eq!(verifier.verification_results.len(), 1);
}

#[test]
fn verification_results_are_recorded_under_their_ids() {
    let mut verifier = new_verifier();
    let account_range = AccountRange { accounts: vec![account(1, 1, 1000, 1, 2)], proof: vec![[5u8; 32]] };
    verifier.verify_account_range(account_range, [7u8; 32]).unwrap();
    assert!(verifier.verification_results.get("account_range_1").is_some());

    let address = [0xabu8; 20];
    let storage_range = StorageRange { account: address, storage_slots: vec![([1u8; 32], [2u8; 32])], proof: vec![[5u8; 32]] };
    verifier.verify_storage_range(storage_range, [7u8; 32]).unwrap();
    let id = format!("storage_range_{}_1", alloy_primitives::Address::from(address));
    assert!(id.starts_with("storage_range_0x"));
    assert!(verifier.verification_results.get(&id).is_some());
    assert_eq!(verifier.verification_results.len(), 2);
}

#[test]
fn test_verify_state_root() {
    let mut verifier = new_verifier();
    let mut state_trie = StateTrie::new();
    state_trie.insert([1u8; 32], vec![0x80, 0x01]);
    state_trie.insert([2u8; 32], vec![0x80, 0x02]);

    let target_state_root = [7u8; 32];
    let result = verifier.verify_state_root(state_trie, target_state_root);

    assert!(result.is_ok());
    let verification_result = result.unwrap();
    assert!(verification_result.is_valid);
    assert_eq!(verification_result.verified_accounts, 0);
    assert_eq!(verification_result.verified_slots, 0);
    assert_eq!(verification_result.verified_codes, 0);
    assert_eq!(verification_result.verified_nodes, 0);
    assert!(verifier.verification_results.get("state_root_2").is_some());
}
