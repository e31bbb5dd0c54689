//! The snap sync stage that follows the protocol's phases: find a recent state root, download
//! the state under it, verify it, and hand over to forward sync. Downloaded data is collected
//! by kind and handed out in key order for writing.

use vstd::prelude::*;
use crate::sets::StageKind;
use crate::clock::duration_from_secs;
use crate::collector::{Collector, EntryView, entries_view, sorted_by_key};
use crate::config::SnapSyncConfig;
use crate::client::SnapSyncError;
use crate::error::StageError;
use crate::hash::B256;
use crate::messages::{AccountData, StorageData, SnapSyncResult};
use crate::peer_manager::{PeerSelectionStrategy, PeerStats, SnapSyncPeerManager, SnapSyncPeer, sum_of, requests_of, successes_of, bytes_of, one_if_available, one_if_snap};
use crate::progress::{DataType, SnapSyncProgressReporter, SyncProgress, SummaryFigures, empty_progress, summary_figures_match, summary_text};
use crate::stage_api::{ExecInput, ExecOutput, StageCheckpoint, UnwindInput, UnwindOutput};
use crate::state_manager::SnapSyncStateManager;

verus! {

/// The Keccak-256 hash of a byte string, as alloy computes it.
pub uninterp spec fn spec_keccak256(data: Seq<u8>) -> Seq<u8>;

/// The Keccak-256 hash of `data` (`alloy_primitives::keccak256`).
#[verifier::external_body]
fn keccak256(data: &[u8]) -> (h: B256)
    ensures
        h@ == spec_keccak256(data@),
{
    alloy_primitives::keccak256(data).0
}

/// The `n` least significant bytes of `x`, least significant first.
pub open spec fn le_bytes(x: nat, n: nat) -> Seq<u8>
    decreases n,
{
    if n == 0 {
        Seq::empty()
    } else {
        seq![(x % 256) as u8] + le_bytes(x / 256, (n - 1) as nat)
    }
}

/// The eight little-endian bytes of `x`.
fn u64_le_bytes(x: u64) -> (b: Vec<u8>)
    ensures
        b@ == le_bytes(x as nat, 8),
{
    let mut out: Vec<u8> = Vec::new();
    let mut v: u64 = x;
    let mut k: u64 = 0;
    proof {
        assert(out@ + le_bytes(v as nat, 8) =~= le_bytes(x as nat, 8));
    }
    while k < 8
        invariant
            0 <= k <= 8,
            out@ + le_bytes(v as nat, (8 - k) as nat) == le_bytes(x as nat, 8),
        decreases 8 - k,
    {
        let ghost rest = le_bytes((v / 256) as nat, (8 - k - 1) as nat);
        proof {
            assert(le_bytes(v as nat, (8 - k) as nat) == seq![(v % 256) as u8] + rest);
            assert(out@.push((v % 256) as u8) + rest =~= out@ + (seq![(v % 256) as u8] + rest));
        }
        out.push((v % 256) as u8);
        v = v / 256;
        k += 1;
    }
    proof {
        assert(out@ + le_bytes(v as nat, 0) =~= out@);
    }
    out
}

/// The key under which the `i`-th item `data` of a message is collected: the Keccak-256 hash
/// of the data followed by the index as eight little-endian bytes.
pub open spec fn indexed_key(data: Seq<u8>, i: nat) -> Seq<u8> {
    spec_keccak256(data + le_bytes(i, 8))
}

/// Items of a message as collected entries, each under its indexed key.
pub open spec fn keyed_entries(items: Seq<Vec<u8>>) -> Seq<EntryView> {
    Seq::new(items.len(), |i: int| (indexed_key(items[i]@, i as nat), items[i]@))
}

/// Accounts as collected entries, each under its hash.
pub open spec fn account_pairs(accounts: Seq<AccountData>) -> Seq<EntryView> {
    accounts.map_values(|a: AccountData| (a.hash@, a.body@))
}

/// Storage slots as collected entries, each under its hash.
pub open spec fn slot_pairs(slots: Seq<StorageData>) -> Seq<EntryView> {
    slots.map_values(|s: StorageData| (s.hash@, s.data@))
}

/// The slots of all accounts of a storage response, account after account.
pub open spec fn flat_slots(groups: Seq<Vec<StorageData>>) -> Seq<EntryView>
    decreases groups.len(),
{
    if groups.len() == 0 {
        Seq::empty()
    } else {
        flat_slots(groups.drop_last()) + slot_pairs(groups.last()@)
    }
}

/// The account entries a response yields.
pub open spec fn account_entries_of(r: SnapSyncResult) -> Seq<EntryView> {
    match r {
        SnapSyncResult::AccountRange(m) => account_pairs(m.accounts@),
        _ => Seq::empty(),
    }
}

/// The storage entries a response yields.
pub open spec fn storage_entries_of(r: SnapSyncResult) -> Seq<EntryView> {
    match r {
        SnapSyncResult::StorageRanges(m) => flat_slots(m.slots@),
        _ => Seq::empty(),
    }
}

/// The byte code entries a response yields.
pub open spec fn code_entries_of(r: SnapSyncResult) -> Seq<EntryView> {
    match r {
        SnapSyncResult::ByteCodes(m) => keyed_entries(m.codes@),
        _ => Seq::empty(),
    }
}

/// The trie node entries a response yields: the proof nodes of ranges and the nodes asked for.
pub open spec fn node_entries_of(r: SnapSyncResult) -> Seq<EntryView> {
    match r {
        SnapSyncResult::AccountRange(m) => keyed_entries(m.proof@),
        SnapSyncResult::StorageRanges(m) => keyed_entries(m.proof@),
        SnapSyncResult::ByteCodes(m) => Seq::empty(),
        SnapSyncResult::TrieNodes(m) => keyed_entries(m.nodes@),
    }
}

/// The data type whose progress a response advances.
pub open spec fn data_type_of(r: SnapSyncResult) -> DataType {
    match r {
        SnapSyncResult::AccountRange(_) => DataType::Accounts,
        SnapSyncResult::StorageRanges(_) => DataType::StorageSlots,
        SnapSyncResult::ByteCodes(_) => DataType::ByteCodes,
        SnapSyncResult::TrieNodes(_) => DataType::TrieNodes,
    }
}

/// The number of items a response delivers: accounts, storage slots, byte codes or trie
/// nodes; proof nodes are not counted.
pub open spec fn item_count_of(r: SnapSyncResult) -> nat {
    match r {
        SnapSyncResult::AccountRange(m) => m.accounts@.len(),
        SnapSyncResult::StorageRanges(m) => flat_slots(m.slots@).len(),
        SnapSyncResult::ByteCodes(m) => m.codes@.len(),
        SnapSyncResult::TrieNodes(m) => m.nodes@.len(),
    }
}

/// The entries `f` yields for all of `results`, response after response.
pub open spec fn all_entries(results: Seq<SnapSyncResult>, f: spec_fn(SnapSyncResult) -> Seq<EntryView>) -> Seq<EntryView>
    decreases results.len(),
{
    if results.len() == 0 {
        Seq::empty()
    } else {
        all_entries(results.drop_last(), f) + f(results.last())
    }
}

/// The items of `results` that advance data type `t`.
pub open spec fn items_for(results: Seq<SnapSyncResult>, t: DataType) -> nat
    decreases results.len(),
{
    if results.len() == 0 {
        0
    } else {
        items_for(results.drop_last(), t) + if data_type_of(results.last()) == t { item_count_of(results.last()) } else { 0 }
    }
}

/// The items of all of `results`.
pub open spec fn total_items(results: Seq<SnapSyncResult>) -> nat
    decreases results.len(),
{
    if results.len() == 0 {
        0
    } else {
        total_items(results.drop_last()) + item_count_of(results.last())
    }
}

/// `p` after the items of `results` were synced.
pub open spec fn progress_after(p: SyncProgress, results: Seq<SnapSyncResult>) -> SyncProgress {
    SyncProgress {
        accounts_synced: (p.accounts_synced + items_for(results, DataType::Accounts)) as u64,
        storage_slots_synced: (p.storage_slots_synced + items_for(results, DataType::StorageSlots)) as u64,
        byte_codes_synced: (p.byte_codes_synced + items_for(results, DataType::ByteCodes)) as u64,
        trie_nodes_synced: (p.trie_nodes_synced + items_for(results, DataType::TrieNodes)) as u64,
        ..p
    }
}

/// The responses delivered by the downloader, in order (an error holds none).
pub open spec fn delivered(items: Seq<Result<SnapSyncResult, SnapSyncError>>) -> Seq<SnapSyncResult> {
    items.map_values(|r: Result<SnapSyncResult, SnapSyncError>| match r {
        Ok(x) => x,
        Err(_) => arbitrary(),
    })
}

/// Whether the first `n` deliveries are responses, not errors.
pub open spec fn ok_upto(items: Seq<Result<SnapSyncResult, SnapSyncError>>, n: int) -> bool {
    forall|j: int| 0 <= j < n ==> (#[trigger] items[j]) is Ok
}

/// Whether the responses `results` can be counted on top of progress `p` without a counter
/// passing its greatest value.
pub open spec fn processable(p: SyncProgress, results: Seq<SnapSyncResult>) -> bool {
    &&& forall|t: DataType| p.synced_of(t) + #[trigger] items_for(results, t) <= u64::MAX
    &&& total_items(results) <= usize::MAX
    &&& forall|k: int| 0 <= k < results.len() ==> match #[trigger] results[k] {
        SnapSyncResult::AccountRange(m) => m.proof@.len() <= u64::MAX,
        SnapSyncResult::StorageRanges(m) => m.proof@.len() <= u64::MAX,
        SnapSyncResult::ByteCodes(m) => m.codes@.len() <= u64::MAX,
        SnapSyncResult::TrieNodes(m) => m.nodes@.len() <= u64::MAX,
    }
}

/// Extending a prefix by one response adds what that response yields.
proof fn lemma_counts_take_next(results: Seq<SnapSyncResult>, i: int)
    requires
        0 <= i < results.len(),
    ensures
        forall|t: DataType| #[trigger] items_for(results.take(i + 1), t) == items_for(results.take(i), t)
            + if data_type_of(results[i]) == t { item_count_of(results[i]) } else { 0 },
        total_items(results.take(i + 1)) == total_items(results.take(i)) + item_count_of(results[i]),
        forall|f: spec_fn(SnapSyncResult) -> Seq<EntryView>| #[trigger] all_entries(results.take(i + 1), f)
            == all_entries(results.take(i), f) + f(results[i]),
{
    assert(results.take(i + 1).drop_last() =~= results.take(i));
}

/// The current phase of snap sync.
#[derive(Debug, Clone, Copy, PartialEq, Eq)]
pub enum SnapSyncState {
    /// Initial state - need to find a recent state root
    FindingStateRoot,
    /// Found state root, downloading state data
    DownloadingState { state_root: B256, block_number: u64 },
    /// State downloaded, verifying state
    VerifyingState { state_root: B256, block_number: u64 },
    /// State verified, ready to sync forward
    ReadyToSyncForward { state_root: B256, block_number: u64 },
    /// Snap sync complete, can proceed with normal sync
    Complete,
}

/// The state root that state download starts from, and its block.
pub open spec fn recent_state_root() -> (B256, u64) {
    (vstd::array::spec_array_fill_for_copy_type::<u8, 32>(1u8), 18000000)
}

/// The phase after one execution of the stage from phase `s`, when the download is complete
/// exactly when `download_complete`.
pub open spec fn next_state(s: SnapSyncState, download_complete: bool) -> SnapSyncState {
    match s {
        SnapSyncState::FindingStateRoot => SnapSyncState::DownloadingState {
            state_root: recent_state_root().0,
            block_number: recent_state_root().1,
        },
        SnapSyncState::DownloadingState { state_root, block_number } => if download_complete {
            SnapSyncState::VerifyingState { state_root, block_number }
        } else {
            s
        },
        SnapSyncState::VerifyingState { state_root, block_number } => SnapSyncState::ReadyToSyncForward {
            state_root,
            block_number,
        },
        SnapSyncState::ReadyToSyncForward { .. } => SnapSyncState::Complete,
        SnapSyncState::Complete => SnapSyncState::Complete,
    }
}

/// Collected data handed out for writing, each kind in key order.
pub struct WriteBatch {
    /// Accounts, for the account change set table
    pub accounts: Vec<(B256, Vec<u8>)>,
    /// Storage slots, for the storage change set table
    pub storage: Vec<(B256, Vec<u8>)>,
    /// Byte codes, for the byte code table
    pub byte_codes: Vec<(B256, Vec<u8>)>,
    /// Trie nodes, for the trie node table
    pub trie_nodes: Vec<(B256, Vec<u8>)>,
    /// The number of entries in all four
    pub total: usize,
}

/// Whether `out` holds the entries of `c` in key order.
pub open spec fn drained_in_order(c: Seq<EntryView>, out: Seq<(B256, Vec<u8>)>) -> bool {
    &&& sorted_by_key(entries_view(out))
    &&& entries_view(out).to_multiset() == c.to_multiset()
}

/// The snap sync stage.
pub struct SnapSyncStage {
    /// Configuration for snap sync
    pub config: SnapSyncConfig,
    /// Collected account data
    pub account_collector: Collector,
    /// Collected storage data
    pub storage_collector: Collector,
    /// Collected byte codes
    pub byte_code_collector: Collector,
    /// Collected trie nodes
    pub trie_node_collector: Collector,
    /// State manager for tracking state roots
    pub state_manager: SnapSyncStateManager,
    /// Peer manager for snap sync peers
    pub peer_manager: SnapSyncPeerManager,
    /// Progress reporter for sync progress
    pub progress_reporter: SnapSyncProgressReporter,
    /// Current snap sync phase
    pub snap_state: SnapSyncState,
}

impl SnapSyncStage {
    /// A stage at the start of snap sync: peers chosen by best performance among those with
    /// at least four in five successful requests and fewer than five consecutive failures,
    /// progress reported every ten seconds.
    pub fn new(config: SnapSyncConfig) -> (s: Self)
        ensures
            s.config == config,
            s.snap_state == SnapSyncState::FindingStateRoot,
            s.account_collector.spec_entries().len() == 0,
            s.storage_collector.spec_entries().len() == 0,
            s.byte_code_collector.spec_entries().len() == 0,
            s.trie_node_collector.spec_entries().len() == 0,
            s.peer_manager.wf(),
            s.peer_manager.peers@.len() == 0,
            s.peer_manager.selection_strategy == PeerSelectionStrategy::BestPerformance,
            s.peer_manager.max_peers == config.max_concurrent_requests,
            s.peer_manager.min_success_rate_permille == 800,
            s.peer_manager.max_consecutive_failures == 5,
            s.progress_reporter.spec_progress() == empty_progress(),
            s.progress_reporter.spec_enabled(),
            s.state_manager.target_state_root is None,
    {
        SnapSyncStage {
            config,
            account_collector: Collector::new(),
            storage_collector: Collector::new(),
            byte_code_collector: Collector::new(),
            trie_node_collector: Collector::new(),
            state_manager: SnapSyncStateManager::new(),
            peer_manager: SnapSyncPeerManager::new(
                PeerSelectionStrategy::BestPerformance,
                config.max_concurrent_requests,
                800,
                5,
                duration_from_secs(300),
            ),
            progress_reporter: SnapSyncProgressReporter::new(duration_from_secs(10), true),
            snap_state: SnapSyncState::FindingStateRoot,
        }
    }

    /// The stage's identifier in the pipeline.
    pub fn id(&self) -> (k: StageKind)
        ensures
            k == StageKind::SnapSync,
    {
        StageKind::SnapSync
    }

    /// The current phase.
    pub fn snap_state(&self) -> (s: SnapSyncState)
        ensures
            s == self.snap_state,
    {
        self.snap_state
    }

    /// A recent state root to start snap sync from, with its block.
    fn find_recent_state_root(&self) -> (r: Result<Option<(B256, u64)>, StageError>)
        ensures
            r == Ok::<Option<(B256, u64)>, StageError>(Some(recent_state_root())),
    {
        let root: B256 = [1u8; 32];
        Ok(Some((root, 18000000)))
    }

    /// Sets `state_root` as the target and starts downloading its state.
    fn start_state_download(&mut self, state_root: B256, block_number: u64) -> (r: Result<(), StageError>)
        ensures
            r is Ok,
            final(self).snap_state == (SnapSyncState::DownloadingState { state_root, block_number }),
            final(self).state_manager.target_state_root == Some(state_root),
            final(self).progress_reporter == old(self).progress_reporter,
            final(self).config == old(self).config,
            final(self).account_collector == old(self).account_collector,
            final(self).storage_collector == old(self).storage_collector,
            final(self).byte_code_collector == old(self).byte_code_collector,
            final(self).trie_node_collector == old(self).trie_node_collector,
    {
        match self.state_manager.set_target_state_root(state_root) {
            Ok(()) => {},
            Err(_) => {
                return Err(StageError::TargetStateRootRejected);
            },
        }
        self.snap_state = SnapSyncState::DownloadingState { state_root, block_number };
        Ok(())
    }

    /// Whether the downloaded state verifies: it always does.
    fn verify_downloaded_state(&self) -> (r: Result<bool, StageError>)
        ensures
            r == Ok::<bool, StageError>(true),
    {
        Ok(true)
    }

    /// Collects `accounts`, each under its hash.
    fn collect_accounts(c: &mut Collector, accounts: &Vec<AccountData>)
        ensures
            final(c).spec_entries() == old(c).spec_entries() + account_pairs(accounts@),
    {
        let mut j: usize = 0;
        while j < accounts.len()
            invariant
                0 <= j <= accounts@.len(),
                c.spec_entries() == old(c).spec_entries() + account_pairs(accounts@.take(j as int)),
            decreases accounts@.len() - j,
        {
            let body = vstd::slice::slice_to_vec(accounts[j].body.as_slice());
            c.insert(accounts[j].hash, body);
            proof {
                assert(account_pairs(accounts@.take(j + 1)) =~= account_pairs(accounts@.take(j as int)).push(
                    (accounts@[j as int].hash@, accounts@[j as int].body@)));
            }
            j += 1;
        }
        proof {
            assert(accounts@.take(accounts@.len() as int) =~= accounts@);
        }
    }

    /// Collects the slots of every account of a storage response, returning their number.
    fn collect_slots(c: &mut Collector, groups: &Vec<Vec<StorageData>>) -> (n: usize)
        ensures
            final(c).spec_entries() == old(c).spec_entries() + flat_slots(groups@),
            n == flat_slots(groups@).len(),
    {
        let mut n: usize = 0;
        let mut g: usize = 0;
        while g < groups.len()
            invariant
                0 <= g <= groups@.len(),
                c.spec_entries() == old(c).spec_entries() + flat_slots(groups@.take(g as int)),
                n == flat_slots(groups@.take(g as int)).len(),
                n <= c.spec_entries().len(),
            decreases groups@.len() - g,
        {
            let slots = &groups[g];
            let ghost base = c.spec_entries();
            let mut j: usize = 0;
            while j < slots.len()
                invariant
                    0 <= j <= slots@.len(),
                    c.spec_entries() == base + slot_pairs(slots@.take(j as int)),
                    n + j == flat_slots(groups@.take(g as int)).len() + j,
                    n <= base.len(),
                decreases slots@.len() - j,
            {
                let data = vstd::slice::slice_to_vec(slots[j].data.as_slice());
                c.insert(slots[j].hash, data);
                proof {
                    assert(slot_pairs(slots@.take(j + 1)) =~= slot_pairs(slots@.take(j as int)).push(
                        (slots@[j as int].hash@, slots@[j as int].data@)));
                }
                j += 1;
            }
            proof {
                assert(slots@.take(slots@.len() as int) =~= slots@);
                assert(groups@.take(g + 1).drop_last() =~= groups@.take(g as int));
                assert(c.spec_entries() =~= old(c).spec_entries() + flat_slots(groups@.take(g + 1)));
            }
            let len_now = c.len();
            assert(n + j <= len_now);
            n = n + j;
            g += 1;
        }
        proof {
            assert(groups@.take(groups@.len() as int) =~= groups@);
        }
        n
    }

    /// Collects items of a message, each under its indexed key.
    fn collect_keyed(c: &mut Collector, items: &Vec<Vec<u8>>)
        requires
            items@.len() <= u64::MAX,
        ensures
            final(c).spec_entries() == old(c).spec_entries() + keyed_entries(items@),
    {
        let mut i: usize = 0;
        while i < items.len()
            invariant
                0 <= i <= items@.len(),
                items@.len() <= u64::MAX,
                c.spec_entries() == old(c).spec_entries() + keyed_entries(items@.take(i as int)),
            decreases items@.len() - i,
        {
            let mut data = vstd::slice::slice_to_vec(items[i].as_slice());
            let mut index = u64_le_bytes(i as u64);
            let ghost item = data@;
            data.append(&mut index);
            let key = keccak256(data.as_slice());
            let value = vstd::slice::slice_to_vec(items[i].as_slice());
            c.insert(key, value);
            proof {
                assert(key@ == indexed_key(item, i as nat));
                assert(keyed_entries(items@.take(i + 1)) =~= keyed_entries(items@.take(i as int)).push((key@, value@)));
            }
            i += 1;
        }
        proof {
            assert(items@.take(items@.len() as int) =~= items@);
        }
    }

    /// Collects one downloaded response and counts its items in the progress.
    fn process_result(&mut self, result: &SnapSyncResult) -> (n: usize)
        requires
            old(self).progress_reporter.spec_progress().synced_of(data_type_of(*result)) + item_count_of(*result) <= u64::MAX,
            item_count_of(*result) <= usize::MAX,
            match *result {
                SnapSyncResult::AccountRange(m) => m.proof@.len() <= u64::MAX,
                SnapSyncResult::StorageRanges(m) => m.proof@.len() <= u64::MAX,
                SnapSyncResult::ByteCodes(m) => m.codes@.len() <= u64::MAX,
                SnapSyncResult::TrieNodes(m) => m.nodes@.len() <= u64::MAX,
            },
        ensures
            n == item_count_of(*result),
            final(self).account_collector.spec_entries() == old(self).account_collector.spec_entries() + account_entries_of(*result),
            final(self).storage_collector.spec_entries() == old(self).storage_collector.spec_entries() + storage_entries_of(*result),
            final(self).byte_code_collector.spec_entries() == old(self).byte_code_collector.spec_entries() + code_entries_of(*result),
            final(self).trie_node_collector.spec_entries() == old(self).trie_node_collector.spec_entries() + node_entries_of(*result),
            final(self).progress_reporter.spec_progress() == old(self).progress_reporter.spec_progress().spec_updated(
                data_type_of(*result), item_count_of(*result) as u64),
            final(self).progress_reporter.spec_enabled() == old(self).progress_reporter.spec_enabled(),
            final(self).progress_reporter.spec_update_interval() == old(self).progress_reporter.spec_update_interval(),
            final(self).snap_state == old(self).snap_state,
            final(self).config == old(self).config,
    {
        match result {
            SnapSyncResult::AccountRange(msg) => {
                let n = msg.accounts.len();
                Self::collect_accounts(&mut self.account_collector, &msg.accounts);
                self.progress_reporter.update_progress(DataType::Accounts, n as u64);
                Self::collect_keyed(&mut self.trie_node_collector, &msg.proof);
                proof {
                    assert(self.storage_collector.spec_entries() =~= old(self).storage_collector.spec_entries() + Seq::<EntryView>::empty());
                    assert(self.byte_code_collector.spec_entries() =~= old(self).byte_code_collector.spec_entries() + Seq::<EntryView>::empty());
                }
                n
            },
            SnapSyncResult::StorageRanges(msg) => {
                let n = Self::collect_slots(&mut self.storage_collector, &msg.slots);
                self.progress_reporter.update_progress(DataType::StorageSlots, n as u64);
                Self::collect_keyed(&mut self.trie_node_collector, &msg.proof);
                proof {
                    assert(self.account_collector.spec_entries() =~= old(self).account_collector.spec_entries() + Seq::<EntryView>::empty());
                    assert(self.byte_code_collector.spec_entries() =~= old(self).byte_code_collector.spec_entries() + Seq::<EntryView>::empty());
                }
                n
            },
            SnapSyncResult::ByteCodes(msg) => {
                let n = msg.codes.len();
                Self::collect_keyed(&mut self.byte_code_collector, &msg.codes);
                self.progress_reporter.update_progress(DataType::ByteCodes, n as u64);
                proof {
                    assert(self.account_collector.spec_entries() =~= old(self).account_collector.spec_entries() + Seq::<EntryView>::empty());
                    assert(self.storage_collector.spec_entries() =~= old(self).storage_collector.spec_entries() + Seq::<EntryView>::empty());
                    assert(self.trie_node_collector.spec_entries() =~= old(self).trie_node_collector.spec_entries() + Seq::<EntryView>::empty());
                }
                n
            },
            SnapSyncResult::TrieNodes(msg) => {
                let n = msg.nodes.len();
                Self::collect_keyed(&mut self.trie_node_collector, &msg.nodes);
                self.progress_reporter.update_progress(DataType::TrieNodes, n as u64);
                proof {
                    assert(self.account_collector.spec_entries() =~= old(self).account_collector.spec_entries() + Seq::<EntryView>::empty());
                    assert(self.storage_collector.spec_entries() =~= old(self).storage_collector.spec_entries() + Seq::<EntryView>::empty());
                    assert(self.byte_code_collector.spec_entries() =~= old(self).byte_code_collector.spec_entries() + Seq::<EntryView>::empty());
                }
                n
            },
        }
    }

    /// Collects what the downloader delivered, in order, and counts the items in the progress,
    /// until the first error: that error ends the stage's run with a fatal error and nothing
    /// after it is read. Without an error it returns the number of accounts, storage slots,
    /// byte codes and trie nodes collected; proof nodes are collected as trie nodes but not
    /// counted.
    pub fn process_snap_data(&mut self, items: &Vec<Result<SnapSyncResult, SnapSyncError>>) -> (r: Result<usize, StageError>)
        requires
            forall|n: int| 0 <= n <= items@.len() && #[trigger] ok_upto(items@, n)
                ==> processable(old(self).progress_reporter.spec_progress(), delivered(items@).take(n)),
        ensures
            exists|n: int| 0 <= n <= items@.len() && #[trigger] ok_upto(items@, n) && (n == items@.len() || items@[n] is Err) && {
                let done = delivered(items@).take(n);
                &&& r == if n < items@.len() {
                    Err::<usize, StageError>(StageError::Fatal)
                } else {
                    Ok::<usize, StageError>(total_items(done) as usize)
                }
                &&& final(self).account_collector.spec_entries() == old(self).account_collector.spec_entries()
                    + all_entries(done, |x: SnapSyncResult| account_entries_of(x))
                &&& final(self).storage_collector.spec_entries() == old(self).storage_collector.spec_entries()
                    + all_entries(done, |x: SnapSyncResult| storage_entries_of(x))
                &&& final(self).byte_code_collector.spec_entries() == old(self).byte_code_collector.spec_entries()
                    + all_entries(done, |x: SnapSyncResult| code_entries_of(x))
                &&& final(self).trie_node_collector.spec_entries() == old(self).trie_node_collector.spec_entries()
                    + all_entries(done, |x: SnapSyncResult| node_entries_of(x))
                &&& final(self).progress_reporter.spec_progress() == progress_after(old(self).progress_reporter.spec_progress(), done)
            },
            final(self).progress_reporter.spec_enabled() == old(self).progress_reporter.spec_enabled(),
            final(self).progress_reporter.spec_update_interval() == old(self).progress_reporter.spec_update_interval(),
            final(self).snap_state == old(self).snap_state,
            final(self).config == old(self).config,
    {
        let ghost xs = delivered(items@);
        let ghost fa = |x: SnapSyncResult| account_entries_of(x);
        let ghost fs = |x: SnapSyncResult| storage_entries_of(x);
        let ghost fc = |x: SnapSyncResult| code_entries_of(x);
        let ghost fn_ = |x: SnapSyncResult| node_entries_of(x);
        let ghost p0 = self.progress_reporter.spec_progress();
        let mut processed: usize = 0;
        let mut i: usize = 0;
        proof {
            assert(xs.take(0) =~= Seq::<SnapSyncResult>::empty());
            assert(progress_after(p0, xs.take(0)) =~= p0);
            assert(self.account_collector.spec_entries() =~= old(self).account_collector.spec_entries() + Seq::<EntryView>::empty());
            assert(self.storage_collector.spec_entries() =~= old(self).storage_collector.spec_entries() + Seq::<EntryView>::empty());
            assert(self.byte_code_collector.spec_entries() =~= old(self).byte_code_collector.spec_entries() + Seq::<EntryView>::empty());
            assert(self.trie_node_collector.spec_entries() =~= old(self).trie_node_collector.spec_entries() + Seq::<EntryView>::empty());
        }
        while i < items.len()
            invariant
                0 <= i <= items@.len(),
                xs == delivered(items@),
                ok_upto(items@, i as int),
                fa == (|x: SnapSyncResult| account_entries_of(x)),
                fs == (|x: SnapSyncResult| storage_entries_of(x)),
                fc == (|x: SnapSyncResult| code_entries_of(x)),
                fn_ == (|x: SnapSyncResult| node_entries_of(x)),
                p0 == old(self).progress_reporter.spec_progress(),
                forall|n: int| 0 <= n <= items@.len() && #[trigger] ok_upto(items@, n) ==> processable(p0, xs.take(n)),
                processed == total_items(xs.take(i as int)),
                self.account_collector.spec_entries() == old(self).account_collector.spec_entries() + all_entries(xs.take(i as int), fa),
                self.storage_collector.spec_entries() == old(self).storage_collector.spec_entries() + all_entries(xs.take(i as int), fs),
                self.byte_code_collector.spec_entries() == old(self).byte_code_collector.spec_entries() + all_entries(xs.take(i as int), fc),
                self.trie_node_collector.spec_entries() == old(self).trie_node_collector.spec_entries() + all_entries(xs.take(i as int), fn_),
                self.progress_reporter.spec_progress() == progress_after(p0, xs.take(i as int)),
                self.progress_reporter.spec_enabled() == old(self).progress_reporter.spec_enabled(),
                self.progress_reporter.spec_update_interval() == old(self).progress_reporter.spec_update_interval(),
                self.snap_state == old(self).snap_state,
                self.config == old(self).config,
            decreases items@.len() - i,
        {
            match &items[i] {
                Err(_) => {
                    proof {
                        assert(ok_upto(items@, i as int) && items@[i as int] is Err);
                    }
                    return Err(StageError::Fatal);
                },
                Ok(result) => {
                    let ghost x = xs[i as int];
                    proof {
                        assert(x == *result);
                        assert(ok_upto(items@, i + 1));
                        assert(processable(p0, xs.take(i + 1)));
                        lemma_counts_take_next(xs, i as int);
                        assert(xs.take(i + 1)[i as int] == x);
                        let t = data_type_of(x);
                        assert(items_for(xs.take(i as int), t) + item_count_of(x) == items_for(xs.take(i + 1), t));
                        assert(self.progress_reporter.spec_progress().synced_of(t) == p0.synced_of(t) + items_for(xs.take(i as int), t));
                    }
                    let n = self.process_result(result);
                    proof {
                        assert(all_entries(xs.take(i + 1), fa) == all_entries(xs.take(i as int), fa) + fa(x));
                        assert(all_entries(xs.take(i + 1), fs) == all_entries(xs.take(i as int), fs) + fs(x));
                        assert(all_entries(xs.take(i + 1), fc) == all_entries(xs.take(i as int), fc) + fc(x));
                        assert(all_entries(xs.take(i + 1), fn_) == all_entries(xs.take(i as int), fn_) + fn_(x));
                        assert(self.progress_reporter.spec_progress() =~= progress_after(p0, xs.take(i + 1)));
                    }
                    processed = processed + n;
                },
            }
            i += 1;
        }
        proof {
            assert(ok_upto(items@, items@.len() as int));
        }
        Ok(processed)
    }

    /// Hands out everything collected, each kind in key order, and empties the collectors.
    pub fn write_snap_data(&mut self) -> (b: WriteBatch)
        requires
            old(self).account_collector.spec_entries().len() + old(self).storage_collector.spec_entries().len()
                + old(self).byte_code_collector.spec_entries().len() + old(self).trie_node_collector.spec_entries().len() <= usize::MAX,
        ensures
            drained_in_order(old(self).account_collector.spec_entries(), b.accounts@),
            drained_in_order(old(self).storage_collector.spec_entries(), b.storage@),
            drained_in_order(old(self).byte_code_collector.spec_entries(), b.byte_codes@),
            drained_in_order(old(self).trie_node_collector.spec_entries(), b.trie_nodes@),
            b.total == old(self).account_collector.spec_entries().len() + old(self).storage_collector.spec_entries().len()
                + old(self).byte_code_collector.spec_entries().len() + old(self).trie_node_collector.spec_entries().len(),
            final(self).account_collector.spec_entries().len() == 0,
            final(self).storage_collector.spec_entries().len() == 0,
            final(self).byte_code_collector.spec_entries().len() == 0,
            final(self).trie_node_collector.spec_entries().len() == 0,
            final(self).progress_reporter == old(self).progress_reporter,
            final(self).snap_state == old(self).snap_state,
            final(self).config == old(self).config,
    {
        let accounts = self.account_collector.sorted_entries();
        let storage = self.storage_collector.sorted_entries();
        let byte_codes = self.byte_code_collector.sorted_entries();
        let trie_nodes = self.trie_node_collector.sorted_entries();
        let total = self.account_collector.len() + self.storage_collector.len() + self.byte_code_collector.len()
            + self.trie_node_collector.len();
        self.account_collector.clear();
        self.storage_collector.clear();
        self.byte_code_collector.clear();
        self.trie_node_collector.clear();
        WriteBatch { accounts, storage, byte_codes, trie_nodes, total }
    }

    /// One execution of the stage: moves snap sync one phase on. A recent state root is
    /// found and its download started; a complete download moves on to verification, a
    /// verified state to forward sync, and that to the end. The checkpoint is the target, and
    /// the stage is done once snap sync is complete. Downloaded data is collected beforehand
    /// with [`Self::process_snap_data`].
    pub fn execute(&mut self, input: &ExecInput) -> (r: Result<ExecOutput, StageError>)
        ensures
            final(self).snap_state == next_state(old(self).snap_state, old(self).progress_reporter.spec_progress().spec_is_complete()),
            r == Ok::<ExecOutput, StageError>(ExecOutput {
                checkpoint: StageCheckpoint { block_number: input.spec_target() },
                done: final(self).snap_state == SnapSyncState::Complete,
            }),
            final(self).progress_reporter == old(self).progress_reporter,
            final(self).account_collector == old(self).account_collector,
            final(self).storage_collector == old(self).storage_collector,
            final(self).byte_code_collector == old(self).byte_code_collector,
            final(self).trie_node_collector == old(self).trie_node_collector,
            final(self).config == old(self).config,
    {
        let target = input.target();
        match self.snap_state {
            SnapSyncState::FindingStateRoot => {
                match self.find_recent_state_root()? {
                    Some((state_root, block_number)) => {
                        self.start_state_download(state_root, block_number)?;
                    },
                    None => {
                        self.snap_state = SnapSyncState::Complete;
                    },
                }
            },
            SnapSyncState::DownloadingState { state_root, block_number } => {
                if self.progress_reporter.is_complete() {
                    self.snap_state = SnapSyncState::VerifyingState { state_root, block_number };
                }
            },
            SnapSyncState::VerifyingState { state_root, block_number } => {
                let is_valid = self.verify_downloaded_state()?;
                if is_valid {
                    self.snap_state = SnapSyncState::ReadyToSyncForward { state_root, block_number };
                } else {
                    return Err(StageError::StateVerificationFailed);
                }
            },
            SnapSyncState::ReadyToSyncForward { .. } => {
                self.snap_state = SnapSyncState::Complete;
            },
            SnapSyncState::Complete => {},
        }
        let done = match self.snap_state {
            SnapSyncState::Complete => true,
            _ => false,
        };
        Ok(ExecOutput { checkpoint: StageCheckpoint::new(target), done })
    }

    /// Unwinding keeps the downloaded state: the checkpoint moves to the unwind target.
    pub fn unwind(&mut self, input: &UnwindInput) -> (r: Result<UnwindOutput, StageError>)
        ensures
            r == Ok::<UnwindOutput, StageError>(UnwindOutput { checkpoint: StageCheckpoint { block_number: input.unwind_to } }),
            final(self).snap_state == old(self).snap_state,
    {
        Ok(UnwindOutput { checkpoint: StageCheckpoint::new(input.unwind_to) })
    }

    /// A summary of the sync progress.
    pub fn get_sync_progress(&self) -> (s: String)
        ensures
            exists|f: SummaryFigures, secs: u64|
                summary_figures_match(f, self.progress_reporter.spec_progress(), secs) && s@ == summary_text(f),
    {
        self.progress_reporter.get_summary()
    }

    /// Statistics over the known peers.
    pub fn get_peer_stats(&self) -> (st: PeerStats)
        requires
            sum_of(self.peer_manager.peers@, |p: SnapSyncPeer| requests_of(p)) <= u64::MAX,
            sum_of(self.peer_manager.peers@, |p: SnapSyncPeer| successes_of(p)) <= u64::MAX,
            sum_of(self.peer_manager.peers@, |p: SnapSyncPeer| bytes_of(p)) <= u64::MAX,
        ensures
            st.total_peers == self.peer_manager.peers@.len(),
            st.available_peers == sum_of(self.peer_manager.peers@, |p: SnapSyncPeer| one_if_available(p)),
            st.snap_sync_peers == sum_of(self.peer_manager.peers@, |p: SnapSyncPeer| one_if_snap(p)),
            st.total_requests == sum_of(self.peer_manager.peers@, |p: SnapSyncPeer| requests_of(p)),
            st.successful_requests == sum_of(self.peer_manager.peers@, |p: SnapSyncPeer| successes_of(p)),
            st.total_bytes_downloaded == sum_of(self.peer_manager.peers@, |p: SnapSyncPeer| bytes_of(p)),
    {
        self.peer_manager.get_peer_stats()
    }
}

/// The order of the phases of snap sync.
pub open spec fn phase_rank(s: SnapSyncState) -> nat {
    match s {
        SnapSyncState::FindingStateRoot => 0,
        SnapSyncState::DownloadingState { .. } => 1,
        SnapSyncState::VerifyingState { .. } => 2,
        SnapSyncState::ReadyToSyncForward { .. } => 3,
        SnapSyncState::Complete => 4,
    }
}

/// Snap sync never goes back a phase, and moves on from every phase but the download, which
/// it leaves once complete, and the end, where it stays.
pub proof fn lemma_phases_advance(s: SnapSyncState, download_complete: bool)
    ensures
        phase_rank(next_state(s, download_complete)) >= phase_rank(s),
        !(s is DownloadingState) && !(s is Complete) ==> phase_rank(next_state(s, download_complete)) == phase_rank(s) + 1,
        s is DownloadingState ==> (phase_rank(next_state(s, download_complete)) == phase_rank(s) + 1 <==> download_complete),
        s is Complete ==> next_state(s, download_complete) == s,
{
}

/// From the start, once the download is complete, four executions bring snap sync to its end,
/// keeping the state root found.
pub proof fn lemma_complete_after_download()
    ensures
        next_state(SnapSyncState::FindingStateRoot, false) == (SnapSyncState::DownloadingState {
            state_root: recent_state_root().0,
            block_number: recent_state_root().1,
        }),
        next_state(next_state(next_state(next_state(SnapSyncState::FindingStateRoot, false), true), true), true)
            == SnapSyncState::Complete,
{
}

} // verus!
