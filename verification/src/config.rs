//! Snap sync configuration, as read by the stage and produced from the command line.

use vstd::prelude::*;

verus! {

/// Snap sync configuration of the node.
#[derive(Debug, Clone, Copy, PartialEq, Eq)]
pub struct SnapSyncConfig {
    /// Whether the snap sync stage runs at all.
    pub enabled: bool,
    /// Maximum number of concurrent requests.
    pub max_concurrent_requests: usize,
    /// Maximum response size in bytes.
    pub max_response_bytes: u64,
    /// Maximum number of accounts per request.
    pub max_accounts_per_request: u64,
    /// Maximum number of storage slots per request.
    pub max_storage_slots_per_request: u64,
    /// Maximum number of byte codes per request.
    pub max_byte_codes_per_request: u64,
    /// Maximum number of trie nodes per request.
    pub max_trie_nodes_per_request: u64,
    /// Number of items processed before progress is committed.
    pub commit_threshold: u64,
    /// Number of key ranges queued by one execution of the stage.
    pub max_ranges_per_execution: u64,
    /// Seconds after which a request in flight is dropped.
    pub request_timeout_seconds: u64,
    /// How often a failed request is retried.
    pub max_retry_attempts: u32,
}

/// The default configuration: enabled, 10 concurrent requests of at most 2 MiB, 1000 accounts,
/// 1000 storage slots, 100 byte codes and 1000 trie nodes per request, a commit every 10000
/// items, 10 ranges per execution, a 30 second request timeout and 3 retries.
pub open spec fn default_snap_sync_config() -> SnapSyncConfig {
    SnapSyncConfig {
        enabled: true,
        max_concurrent_requests: 10,
        max_response_bytes: 2097152,
        max_accounts_per_request: 1000,
        max_storage_slots_per_request: 1000,
        max_byte_codes_per_request: 100,
        max_trie_nodes_per_request: 1000,
        commit_threshold: 10_000,
        max_ranges_per_execution: 10,
        request_timeout_seconds: 30,
        max_retry_attempts: 3,
    }
}

impl Default for SnapSyncConfig {
    fn default() -> (c: Self)
        ensures
            c == default_snap_sync_config(),
    {
        SnapSyncConfig {
            enabled: true,
            max_concurrent_requests: 10,
            max_response_bytes: 2097152,
            max_accounts_per_request: 1000,
            max_storage_slots_per_request: 1000,
            max_byte_codes_per_request: 100,
            max_trie_nodes_per_request: 1000,
            commit_threshold: 10_000,
            max_ranges_per_execution: 10,
            request_timeout_seconds: 30,
            max_retry_attempts: 3,
        }
    }
}

} // verus!
