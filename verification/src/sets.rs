//! Which pipeline stages run, and in which order, for each way of syncing.

use vstd::prelude::*;

verus! {

/// Sync mode for stage selection.
#[derive(Debug, Clone, Copy, PartialEq, Eq, Structural)]
pub enum SyncMode {
    /// Full sync - download and verify all blocks from genesis
    Full,
    /// Snap sync - fast state synchronization using snap protocol
    Snap,
    /// Checkpoint sync - sync from a trusted checkpoint
    Checkpoint,
}

/// The stages of the sync pipeline.
#[derive(Debug, Clone, Copy, PartialEq, Eq, Structural)]
pub enum StageKind {
    Era,
    Headers,
    Bodies,
    SnapSync,
    SenderRecovery,
    Execution,
    PruneSenderRecovery,
    MerkleUnwind,
    AccountHashing,
    StorageHashing,
    MerkleExecute,
    TransactionLookup,
    IndexStorageHistory,
    IndexAccountHistory,
    Prune,
    Finish,
}

/// Prune distances per segment (`None`: the segment is not pruned).
#[derive(Debug, Clone, Copy, PartialEq, Eq, Default)]
pub struct PruneModes {
    pub sender_recovery: Option<u64>,
    pub transaction_lookup: Option<u64>,
    pub receipts: Option<u64>,
    pub account_history: Option<u64>,
    pub storage_history: Option<u64>,
    pub bodies_history: Option<u64>,
}

impl PruneModes {
    /// Whether no segment is pruned.
    pub open spec fn spec_is_empty(self) -> bool {
        &&& self.sender_recovery is None
        &&& self.transaction_lookup is None
        &&& self.receipts is None
        &&& self.account_history is None
        &&& self.storage_history is None
        &&& self.bodies_history is None
    }

    /// Whether no segment is pruned.
    pub fn is_empty(&self) -> (r: bool)
        ensures
            r == self.spec_is_empty(),
    {
        self.sender_recovery.is_none() && self.transaction_lookup.is_none()
            && self.receipts.is_none() && self.account_history.is_none()
            && self.storage_history.is_none() && self.bodies_history.is_none()
    }
}

/// Snap sync limits of the snap sync stage set.
#[derive(Debug, Clone, Copy, PartialEq, Eq)]
pub struct SnapSyncConfig {
    /// Maximum number of accounts per request.
    pub max_accounts_per_request: u64,
    /// Maximum number of storage slots per request.
    pub max_storage_per_request: u64,
    /// Maximum number of byte codes per request.
    pub max_bytecodes_per_request: u64,
    /// Maximum number of trie nodes per request.
    pub max_trie_nodes_per_request: u64,
    /// Seconds before a request times out.
    pub request_timeout_secs: u64,
    /// Maximum number of concurrent requests.
    pub max_concurrent_requests: u64,
}

/// The default limits: 1000 accounts, 1000 storage slots, 100 byte codes and 1000 trie nodes
/// per request, a 30 second timeout and 10 concurrent requests.
pub open spec fn default_stage_snap_sync_config() -> SnapSyncConfig {
    SnapSyncConfig {
        max_accounts_per_request: 1000,
        max_storage_per_request: 1000,
        max_bytecodes_per_request: 100,
        max_trie_nodes_per_request: 1000,
        request_timeout_secs: 30,
        max_concurrent_requests: 10,
    }
}

impl Default for SnapSyncConfig {
    fn default() -> (c: Self)
        ensures
            c == default_stage_snap_sync_config(),
    {
        SnapSyncConfig {
            max_accounts_per_request: 1000,
            max_storage_per_request: 1000,
            max_bytecodes_per_request: 100,
            max_trie_nodes_per_request: 1000,
            request_timeout_secs: 30,
            max_concurrent_requests: 10,
        }
    }
}

/// The online stages: ERA import, headers, bodies.
pub open spec fn online_plan() -> Seq<StageKind> {
    seq![StageKind::Era, StageKind::Headers, StageKind::Bodies]
}

/// The hashing stages.
pub open spec fn hashing_plan() -> Seq<StageKind> {
    seq![StageKind::MerkleUnwind, StageKind::AccountHashing, StageKind::StorageHashing, StageKind::MerkleExecute]
}

/// The history indexing stages.
pub open spec fn history_plan() -> Seq<StageKind> {
    seq![StageKind::TransactionLookup, StageKind::IndexStorageHistory, StageKind::IndexAccountHistory]
}

/// The offline stages: execution, sender recovery pruning when that segment is pruned,
/// hashing, history indexing, and pruning when any segment is pruned.
pub open spec fn offline_plan(prune: PruneModes) -> Seq<StageKind> {
    seq![StageKind::SenderRecovery, StageKind::Execution]
        + (if prune.sender_recovery is Some { seq![StageKind::PruneSenderRecovery] } else { Seq::empty() })
        + hashing_plan() + history_plan()
        + (if !prune.spec_is_empty() { seq![StageKind::Prune] } else { Seq::empty() })
}

/// The stages that follow the download in every sync mode.
pub open spec fn execution_plan(prune: PruneModes) -> Seq<StageKind> {
    seq![StageKind::SenderRecovery, StageKind::Execution, StageKind::PruneSenderRecovery]
        + hashing_plan() + history_plan()
        + (if !prune.spec_is_empty() { seq![StageKind::Prune] } else { Seq::empty() })
        + seq![StageKind::Finish]
}

/// The stages of a pipeline for a sync mode: header and body download for full sync, the snap
/// sync stage otherwise, then the execution stages.
pub open spec fn sync_mode_plan(mode: SyncMode, prune: PruneModes) -> Seq<StageKind> {
    (match mode {
        SyncMode::Full => seq![StageKind::Headers, StageKind::Bodies],
        _ => seq![StageKind::SnapSync],
    }) + execution_plan(prune)
}

/// Every sync mode runs the same stages after its download: snap and checkpoint sync put the
/// snap sync stage where full sync downloads headers and bodies, and every pipeline ends with
/// the finish stage.
pub proof fn lemma_modes_share_execution(prune: PruneModes)
    ensures
        sync_mode_plan(SyncMode::Full, prune).skip(2) == sync_mode_plan(SyncMode::Snap, prune).skip(1),
        sync_mode_plan(SyncMode::Snap, prune) == sync_mode_plan(SyncMode::Checkpoint, prune),
        sync_mode_plan(SyncMode::Full, prune).take(2) == seq![StageKind::Headers, StageKind::Bodies],
        sync_mode_plan(SyncMode::Snap, prune)[0] == StageKind::SnapSync,
        !sync_mode_plan(SyncMode::Full, prune).contains(StageKind::SnapSync),
        forall|m: SyncMode| #[trigger] sync_mode_plan(m, prune).last() == StageKind::Finish,
{
    let e = execution_plan(prune);
    assert(sync_mode_plan(SyncMode::Full, prune).skip(2) =~= e);
    assert(sync_mode_plan(SyncMode::Snap, prune).skip(1) =~= e);
    assert(sync_mode_plan(SyncMode::Full, prune).take(2) =~= seq![StageKind::Headers, StageKind::Bodies]);
    assert forall|i: int| 0 <= i < sync_mode_plan(SyncMode::Full, prune).len() implies sync_mode_plan(SyncMode::Full, prune)[i] != StageKind::SnapSync by {
        if i >= 2 {
            assert(sync_mode_plan(SyncMode::Full, prune)[i] == e[i - 2]);
        }
    }
    assert forall|m: SyncMode| #[trigger] sync_mode_plan(m, prune).last() == StageKind::Finish by {
        assert(e.last() == StageKind::Finish);
    }
}

fn push_hashing_and_history(v: &mut Vec<StageKind>)
    ensures
        final(v)@ == old(v)@ + hashing_plan() + history_plan(),
{
    v.push(StageKind::MerkleUnwind);
    v.push(StageKind::AccountHashing);
    v.push(StageKind::StorageHashing);
    v.push(StageKind::MerkleExecute);
    v.push(StageKind::TransactionLookup);
    v.push(StageKind::IndexStorageHistory);
    v.push(StageKind::IndexAccountHistory);
    assert(v@ =~= old(v)@ + hashing_plan() + history_plan());
}

/// The stages of a fully syncing node: the online stages, the offline stages, and the
/// finish stage.
pub fn default_stages(prune_modes: &PruneModes) -> (v: Vec<StageKind>)
    ensures
        v@ == online_plan() + offline_plan(*prune_modes) + seq![StageKind::Finish],
{
    let mut v: Vec<StageKind> = Vec::new();
    v.push(StageKind::Era);
    v.push(StageKind::Headers);
    v.push(StageKind::Bodies);
    let off = offline_stages(prune_modes);
    let mut off = off;
    v.append(&mut off);
    v.push(StageKind::Finish);
    assert(v@ =~= online_plan() + offline_plan(*prune_modes) + seq![StageKind::Finish]);
    v
}

/// The stages that need no network access (see [`offline_plan`]).
pub fn offline_stages(prune_modes: &PruneModes) -> (v: Vec<StageKind>)
    ensures
        v@ == offline_plan(*prune_modes),
{
    let mut v: Vec<StageKind> = Vec::new();
    v.push(StageKind::SenderRecovery);
    v.push(StageKind::Execution);
    if prune_modes.sender_recovery.is_some() {
        v.push(StageKind::PruneSenderRecovery);
    }
    push_hashing_and_history(&mut v);
    if !prune_modes.is_empty() {
        v.push(StageKind::Prune);
    }
    assert(v@ =~= offline_plan(*prune_modes));
    v
}

/// The stages that execute pre-existing blocks.
pub fn execution_stages() -> (v: Vec<StageKind>)
    ensures
        v@ == seq![StageKind::SenderRecovery, StageKind::Execution],
{
    let mut v: Vec<StageKind> = Vec::new();
    v.push(StageKind::SenderRecovery);
    v.push(StageKind::Execution);
    v
}

/// The snap sync stage set: the snap sync stage, then the finish stage.
pub fn snap_sync_stages() -> (v: Vec<StageKind>)
    ensures
        v@ == seq![StageKind::SnapSync, StageKind::Finish],
{
    let mut v: Vec<StageKind> = Vec::new();
    v.push(StageKind::SnapSync);
    v.push(StageKind::Finish);
    v
}

/// The stages selected by a sync mode (see [`sync_mode_plan`]).
pub struct SyncModeStages {
    pub sync_mode: SyncMode,
    pub prune_modes: PruneModes,
}

impl SyncModeStages {
    /// A stage selection for `sync_mode` with the given pruning.
    pub fn new(sync_mode: SyncMode, prune_modes: PruneModes) -> (s: Self)
        ensures
            s.sync_mode == sync_mode,
            s.prune_modes == prune_modes,
    {
        SyncModeStages { sync_mode, prune_modes }
    }

    /// The stages common to all sync modes, after the download.
    pub fn add_execution_stages(&self, builder: &mut Vec<StageKind>)
        ensures
            final(builder)@ == old(builder)@ + execution_plan(self.prune_modes),
    {
        let ghost start = builder@;
        builder.push(StageKind::SenderRecovery);
        builder.push(StageKind::Execution);
        builder.push(StageKind::PruneSenderRecovery);
        push_hashing_and_history(builder);
        if !self.prune_modes.is_empty() {
            builder.push(StageKind::Prune);
        }
        builder.push(StageKind::Finish);
        assert(builder@ =~= start + execution_plan(self.prune_modes));
    }

    /// The stages of the pipeline, in order.
    pub fn builder(&self) -> (v: Vec<StageKind>)
        ensures
            v@ == sync_mode_plan(self.sync_mode, self.prune_modes),
    {
        let mut v: Vec<StageKind> = Vec::new();
        match self.sync_mode {
            SyncMode::Full => {
                v.push(StageKind::Headers);
                v.push(StageKind::Bodies);
            },
            SyncMode::Snap => {
                v.push(StageKind::SnapSync);
            },
            SyncMode::Checkpoint => {
                v.push(StageKind::SnapSync);
            },
        }
        let ghost head = v@;
        self.add_execution_stages(&mut v);
        v
    }
}

} // verus!
