use snap_sync::config::SnapSyncConfig;
use snap_sync::progress::DataType;
use snap_sync::state_discovery::{StateRootDiscovery, StateRootDiscoveryConfig};
use snap_sync::state_manager::{CacheStats, RootCache, SnapSyncStateManager, StateRootInfo};
use std::time::{Duration, SystemTime, UNIX_EPOCH};

fn new_discovery() -> StateRootDiscovery {
    StateRootDiscovery::new(5, Duration::from_secs(30))
}

#[test]
fn test_state_root_discovery_creation() {
    let discovery = new_discovery();

    assert_eq!(discovery.max_peers, 5);
    assert_eq!(discovery.query_timeout, Duration::from_secs(30));
    assert!(discovery.peer_state_roots.is_empty());
}

#[test]
fn test_add_peer() {
    let mut discovery = new_discovery();

    discovery.add_peer("peer1".to_string());
    discovery.add_peer("peer2".to_string());

    assert_eq!(discovery.peers.len(), 2);
    assert!(discovery.peers.contains(&"peer1".to_string()));
    assert!(discovery.peers.contains(&"peer2".to_string()));
}

#[test]
fn test_remove_peer() {
    let mut discovery = new_discovery();

    discovery.add_peer("peer1".to_string());
    discovery.add_peer("peer2".to_string());
    discovery.remove_peer("peer1");

    assert_eq!(discovery.peers.len(), 1);
    assert!(!discovery.peers.contains(&"peer1".to_string()));
    assert!(discovery.peers.contains(&"peer2".to_string()));
}

#[test]
fn test_update_peer_state_root() {
    let mut discovery = new_discovery();

    discovery.add_peer("peer1".to_string());
    let state_root = [1u8; 32];
    let block_number = 18000000u64;

    discovery.update_peer_state_root("peer1", state_root, block_number);

    assert_eq!(discovery.peer_state_roots.get("peer1"), Some(&(state_root, block_number)));
}

#[test]
fn test_select_recent_state_root() {
    let mut discovery = new_discovery();

    discovery.add_peer("peer1".to_string());
    discovery.add_peer("peer2".to_string());
    discovery.add_peer("peer3".to_string());

    let now = SystemTime::now().duration_since(UNIX_EPOCH).unwrap().as_secs();
    let block_number = now / 12;

    discovery.update_peer_state_root("peer1", [1u8; 32], block_number);

    let one_day_ago = block_number - (24 * 60 * 60 / 12);
    discovery.update_peer_state_root("peer2", [2u8; 32], one_day_ago);

    let one_week_ago = block_number - (7 * 24 * 60 * 60 / 12);
    discovery.update_peer_state_root("peer3", [3u8; 32], one_week_ago);

    let selected = discovery.select_recent_state_root();
    assert!(selected.is_some());
    let (state_root, block_number) = selected.unwrap();
    assert_eq!(state_root, [2u8; 32]);
    assert_eq!(block_number, one_day_ago);
}

#[test]
fn test_select_recent_state_root_no_suitable_peers() {
    let mut discovery = new_discovery();

    discovery.add_peer("peer1".to_string());
    let now = SystemTime::now().duration_since(UNIX_EPOCH).unwrap().as_secs();
    let block_number = now / 12;
    discovery.update_peer_state_root("peer1", [1u8; 32], block_number);

    let selected = discovery.select_recent_state_root();
    assert!(selected.is_none());
}

#[test]
fn test_select_recent_state_root_no_peers() {
    let discovery = new_discovery();

    let selected = discovery.select_recent_state_root();
    assert!(selected.is_none());
}

#[test]
fn test_validate_state_root() {
    let discovery = new_discovery();

    let state_root = [1u8; 32];
    let block_number = 18000000u64;

    let is_valid = discovery.validate_state_root(state_root, block_number);
    assert!(is_valid);
}

#[test]
fn test_get_peer_count() {
    let mut discovery = new_discovery();

    assert_eq!(discovery.get_peer_count(), 0);

    discovery.add_peer("peer1".to_string());
    assert_eq!(discovery.get_peer_count(), 1);

    discovery.add_peer("peer2".to_string());
    assert_eq!(discovery.get_peer_count(), 2);
}

#[test]
fn test_get_peer_state_roots() {
    let mut discovery = new_discovery();

    discovery.add_peer("peer1".to_string());
    discovery.add_peer("peer2".to_string());

    let state_root1 = [1u8; 32];
    let state_root2 = [2u8; 32];
    let block_number1 = 18000000u64;
    let block_number2 = 18000001u64;

    discovery.update_peer_state_root("peer1", state_root1, block_number1);
    discovery.update_peer_state_root("peer2", state_root2, block_number2);

    let peer_state_roots = discovery.get_peer_state_roots();
    assert_eq!(peer_state_roots.len(), 2);
    assert_eq!(peer_state_roots.get("peer1"), Some(&(state_root1, block_number1)));
    assert_eq!(peer_state_roots.get("peer2"), Some(&(state_root2, block_number2)));
}

#[test]
fn test_clear_peers() {
    let mut discovery = new_discovery();

    discovery.add_peer("peer1".to_string());
    discovery.add_peer("peer2".to_string());
    discovery.update_peer_state_root("peer1", [1u8; 32], 18000000u64);

    assert_eq!(discovery.get_peer_count(), 2);
    assert_eq!(discovery.peer_state_roots.len(), 1);

    discovery.clear_peers();

    assert_eq!(discovery.get_peer_count(), 0);
    assert_eq!(discovery.peer_state_roots.len(), 0);
}

#[test]
fn test_state_root_info() {
    let info = StateRootInfo { block_number: 1000, block_hash: [1u8; 32], state_root: [2u8; 32], verified: true };

    assert_eq!(info.block_number, 1000);
    assert_eq!(info.block_hash, [1u8; 32]);
    assert_eq!(info.state_root, [2u8; 32]);
    assert!(info.verified);
}

#[test]
fn test_cache_stats() {
    let stats = CacheStats { total_entries: 100, verified_entries: 80 };

    assert_eq!(stats.total_entries, 100);
    assert_eq!(stats.verified_entries, 80);
    let cache_hit_rate = stats.verified_entries as f64 / stats.total_entries as f64;
    assert!((cache_hit_rate - 0.8).abs() < 0.01);
}

#[test]
fn test_config_defaults() {
    let config = SnapSyncConfig::default();
    assert_eq!(config.max_concurrent_requests, 10);
    assert_eq!(config.max_response_bytes, 2 * 1024 * 1024);
    assert_eq!(config.commit_threshold, 10_000);
}

// The tests below exercise the discovery and state manager rules beyond the scenarios above.

#[test]
fn discovery_selects_at_block_by_age_window() {
    let mut discovery = new_discovery();
    discovery.update_peer_state_root("a", [1u8; 32], 100_000 - 7_199);
    discovery.update_peer_state_root("b", [2u8; 32], 100_000 - 7_200);
    discovery.update_peer_state_root("c", [3u8; 32], 100_000 - 50_400);
    discovery.update_peer_state_root("d", [4u8; 32], 100_000 - 50_401);
    assert_eq!(discovery.select_recent_state_root_at(100_000), Some(([2u8; 32], 100_000 - 7_200)));
    assert_eq!(discovery.select_recent_state_root_at(1_000), None);
}

#[test]
fn discovery_first_report_wins_on_ties() {
    let mut discovery = new_discovery();
    discovery.update_peer_state_root("a", [1u8; 32], 10_000);
    discovery.update_peer_state_root("b", [2u8; 32], 10_000);
    assert_eq!(discovery.select_recent_state_root_at(20_000), Some(([1u8; 32], 10_000)));
}

#[test]
fn discovery_update_replaces_report_and_remove_forgets_it() {
    let mut discovery = new_discovery();
    discovery.add_peer("p".to_string());
    discovery.update_peer_state_root("p", [1u8; 32], 5);
    discovery.update_peer_state_root("p", [2u8; 32], 6);
    assert_eq!(discovery.peer_state_roots.len(), 1);
    assert_eq!(discovery.peer_state_roots.get("p"), Some(&([2u8; 32], 6)));
    discovery.remove_peer("p");
    assert_eq!(discovery.peer_state_roots.get("p"), None);
    assert_eq!(discovery.get_peer_count(), 0);
}

#[test]
fn discovery_validate_rejects_zero_root_and_genesis() {
    let discovery = new_discovery();
    assert!(!discovery.validate_state_root([0u8; 32], 10));
    assert!(!discovery.validate_state_root([1u8; 32], 0));
}

#[test]
fn discovery_query_returns_reports_and_config() {
    let mut discovery = StateRootDiscovery::with_config(StateRootDiscoveryConfig::default());
    assert_eq!(discovery.max_peers, StateRootDiscoveryConfig::default().max_peers);
    discovery.add_peer("p".to_string());
    discovery.update_peer_state_root("p", [3u8; 32], 77);
    let stats = discovery.get_stats();
    assert_eq!(stats.total_peers, 1);
    assert_eq!(stats.peers_with_state_roots, 1);
    assert!(discovery.query_peers_for_state_roots().is_ok());
}

#[test]
fn state_manager_target_and_cache() {
    let mut manager = SnapSyncStateManager::new();
    assert!(manager.target_state_root().is_none());
    manager.set_target_state_root([5u8; 32]).unwrap();
    assert_eq!(manager.target_state_root(), Some([5u8; 32]));
    assert_eq!(manager.cache_stats(), CacheStats { total_entries: 1, verified_entries: 0 });
    assert_eq!(manager.verify_state_root([5u8; 32]).unwrap(), false);
    assert_eq!(manager.verify_state_root([6u8; 32]).unwrap(), true);
    let info = manager.get_state_root_info([7u8; 32]).unwrap().unwrap();
    assert_eq!(info.block_hash, [7u8; 32]);
    assert_eq!(info.block_number, 0);
    assert_eq!(manager.cache_stats().total_entries, 2);
    assert_eq!(manager.get_latest_verified_state_root(), None);
    manager.clear_cache();
    assert_eq!(manager.cache_stats().total_entries, 0);
}

#[test]
fn state_manager_progress_and_completion() {
    let mut manager = SnapSyncStateManager::new();
    manager.set_total_counts(10, 20, 0, 0);
    assert!(!manager.is_sync_complete());
    manager.update_sync_progress(DataType::Accounts, 10);
    manager.update_sync_progress(DataType::StorageSlots, 20);
    assert!(manager.is_sync_complete());
    assert_eq!(manager.sync_progress().accounts_synced, 10);
}

#[test]
fn root_cache_keeps_one_entry_per_key() {
    let mut cache = RootCache::new();
    let a = StateRootInfo { block_number: 1, block_hash: [1u8; 32], state_root: [2u8; 32], verified: true };
    let b = StateRootInfo { block_number: 9, block_hash: [1u8; 32], state_root: [3u8; 32], verified: false };
    cache.insert([1u8; 32], a);
    cache.insert([1u8; 32], b);
    assert_eq!(cache.len(), 1);
    assert_eq!(cache.get(&[1u8; 32]), Some(b));
    assert_eq!(cache.get(&[2u8; 32]), None);
}

#[test]
fn test_state_manager_creation() {
    let state_manager = SnapSyncStateManager::new();

    assert!(state_manager.target_state_root().is_none());
    let p = state_manager.sync_progress();
    let total = p.total_accounts + p.total_storage_slots + p.total_byte_codes + p.total_trie_nodes;
    let synced = p.accounts_synced + p.storage_slots_synced + p.byte_codes_synced + p.trie_nodes_synced;
    let progress_percentage = if total == 0 { 0.0 } else { synced as f64 / total as f64 * 100.0 };
    assert_eq!(progress_percentage, 0.0);
    assert!(!state_manager.is_sync_complete());
}

#[test]
fn discovery_reads_age_window_from_config() {
    let config = StateRootDiscoveryConfig { max_peers: 10, query_timeout: Duration::from_secs(30), min_age_blocks: 3600, max_age_blocks: 7200 };
    let mut discovery = StateRootDiscovery::with_config(config);
    let now = SystemTime::now().duration_since(UNIX_EPOCH).unwrap().as_secs() / 12;
    discovery.update_peer_state_root("p", [9u8; 32], now - 5000);
    assert_eq!(discovery.select_recent_state_root(), Some(([9u8; 32], now - 5000)));
    assert_eq!(discovery.select_recent_state_root_at(now + 10_000), None);
}
