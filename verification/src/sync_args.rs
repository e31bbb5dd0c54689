//! Command line arguments that choose the sync mode and configure snap sync.

use vstd::prelude::*;
use crate::config::SnapSyncConfig;

verus! {

/// Sync mode for the node.
#[derive(Debug, Clone, Copy, PartialEq, Eq, Structural)]
pub enum SyncMode {
    /// Full sync - download and verify all blocks from genesis
    Full,
    /// Snap sync - fast state synchronization using snap protocol
    Snap,
    /// Checkpoint sync - sync from a trusted checkpoint
    Checkpoint,
}

impl SyncMode {
    /// The name of the mode as written on the command line.
    pub open spec fn spec_name(self) -> Seq<char> {
        match self {
            SyncMode::Full => "full"@,
            SyncMode::Snap => "snap"@,
            SyncMode::Checkpoint => "checkpoint"@,
        }
    }

    /// The name of the mode as written on the command line: `full`, `snap` or `checkpoint`.
    pub fn to_string(&self) -> (s: String)
        ensures
            s@ == self.spec_name(),
    {
        match self {
            SyncMode::Full => "full".to_owned(),
            SyncMode::Snap => "snap".to_owned(),
            SyncMode::Checkpoint => "checkpoint".to_owned(),
        }
    }
}

/// Arguments for configuring sync behavior.
#[derive(Debug, Clone, Copy, PartialEq, Eq)]
pub struct SyncArgs {
    /// Sync mode to use
    pub sync_mode: SyncMode,
    /// Enable snap sync (deprecated: use the sync mode)
    pub snap_sync: bool,
    /// Maximum number of concurrent snap sync requests
    pub snap_max_concurrent_requests: usize,
    /// Maximum response size for snap sync requests (in bytes)
    pub snap_max_response_bytes: u64,
    /// Maximum number of accounts per snap sync request
    pub snap_max_accounts_per_request: u64,
    /// Maximum number of storage slots per snap sync request
    pub snap_max_storage_slots_per_request: u64,
    /// Maximum number of byte codes per snap sync request
    pub snap_max_byte_codes_per_request: u64,
    /// Maximum number of trie nodes per snap sync request
    pub snap_max_trie_nodes_per_request: u64,
    /// Number of snap sync items to process before committing progress
    pub snap_commit_threshold: u64,
}

/// The command line defaults: full sync, 10 concurrent requests of 2 MiB, 1000 accounts,
/// 1000 storage slots, 100 byte codes and 1000 trie nodes per request, a commit every 10000
/// items.
pub open spec fn default_sync_args() -> SyncArgs {
    SyncArgs {
        sync_mode: SyncMode::Full,
        snap_sync: false,
        snap_max_concurrent_requests: 10,
        snap_max_response_bytes: 2097152,
        snap_max_accounts_per_request: 1000,
        snap_max_storage_slots_per_request: 1000,
        snap_max_byte_codes_per_request: 100,
        snap_max_trie_nodes_per_request: 1000,
        snap_commit_threshold: 10_000,
    }
}

impl Default for SyncArgs {
    fn default() -> (a: Self)
        ensures
            a == default_sync_args(),
    {
        SyncArgs {
            sync_mode: SyncMode::Full,
            snap_sync: false,
            snap_max_concurrent_requests: 10,
            snap_max_response_bytes: 2097152,
            snap_max_accounts_per_request: 1000,
            snap_max_storage_slots_per_request: 1000,
            snap_max_byte_codes_per_request: 100,
            snap_max_trie_nodes_per_request: 1000,
            snap_commit_threshold: 10_000,
        }
    }
}

impl SyncArgs {
    /// The mode in effect: the deprecated snap sync flag, when set, overrides the sync mode.
    pub open spec fn spec_effective_sync_mode(self) -> SyncMode {
        if self.snap_sync {
            SyncMode::Snap
        } else {
            self.sync_mode
        }
    }

    /// Get the effective sync mode, considering both the sync mode and the deprecated snap
    /// sync flag (which takes precedence).
    pub fn effective_sync_mode(&self) -> (m: SyncMode)
        ensures
            m == self.spec_effective_sync_mode(),
    {
        if self.snap_sync {
            SyncMode::Snap
        } else {
            self.sync_mode
        }
    }

    /// The snap sync configuration these arguments give: their limits and commit threshold,
    /// the other settings at their defaults.
    pub fn to_snap_sync_config(&self) -> (c: SnapSyncConfig)
        ensures
            c.max_concurrent_requests == self.snap_max_concurrent_requests,
            c.max_response_bytes == self.snap_max_response_bytes,
            c.max_accounts_per_request == self.snap_max_accounts_per_request,
            c.max_storage_slots_per_request == self.snap_max_storage_slots_per_request,
            c.max_byte_codes_per_request == self.snap_max_byte_codes_per_request,
            c.max_trie_nodes_per_request == self.snap_max_trie_nodes_per_request,
            c.commit_threshold == self.snap_commit_threshold,
            c.enabled == crate::config::default_snap_sync_config().enabled,
            c.max_ranges_per_execution == crate::config::default_snap_sync_config().max_ranges_per_execution,
            c.request_timeout_seconds == crate::config::default_snap_sync_config().request_timeout_seconds,
            c.max_retry_attempts == crate::config::default_snap_sync_config().max_retry_attempts,
    {
        let d = SnapSyncConfig::default();
        SnapSyncConfig {
            max_concurrent_requests: self.snap_max_concurrent_requests,
            max_response_bytes: self.snap_max_response_bytes,
            max_accounts_per_request: self.snap_max_accounts_per_request,
            max_storage_slots_per_request: self.snap_max_storage_slots_per_request,
            max_byte_codes_per_request: self.snap_max_byte_codes_per_request,
            max_trie_nodes_per_request: self.snap_max_trie_nodes_per_request,
            commit_threshold: self.snap_commit_threshold,
            ..d
        }
    }
}

/// The deprecated snap sync flag always wins: with it set the mode in effect is snap sync,
/// whatever sync mode was asked for, so two argument sets that differ only in their sync mode
/// agree; without it the mode asked for is the mode in effect.
pub proof fn lemma_snap_flag_takes_precedence(args: SyncArgs, other_mode: SyncMode)
    ensures
        args.snap_sync ==> args.spec_effective_sync_mode() == SyncMode::Snap,
        args.snap_sync ==> (SyncArgs { sync_mode: other_mode, ..args }).spec_effective_sync_mode()
            == args.spec_effective_sync_mode(),
        !args.snap_sync ==> args.spec_effective_sync_mode() == args.sync_mode,
{
}

} // verus!
