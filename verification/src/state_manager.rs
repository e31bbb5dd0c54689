//! State root management for snap sync: the target state root, a cache of state root
//! information, and the sync progress.

use vstd::prelude::*;
use crate::hash::{B256, hash_eq};
use crate::progress::{DataType, SyncProgress, empty_progress};
use crate::results::{log_map, keys_distinct, lemma_log_map_update, lemma_log_map_contains, lemma_log_map_absent};

verus! {

/// State root information for a block.
#[derive(Debug, Clone, Copy, PartialEq, Eq)]
pub struct StateRootInfo {
    /// Block number
    pub block_number: u64,
    /// Block hash
    pub block_hash: B256,
    /// State root hash
    pub state_root: B256,
    /// Whether this state root has been verified
    pub verified: bool,
}

/// Why a state root operation failed.
#[derive(Debug, Clone, Copy)]
pub enum StateManagerError {
    /// The state root is not known to the database.
    StateRootNotFound(B256),
}

/// Cache statistics for the state manager.
#[derive(Debug, Clone, Copy, PartialEq, Eq, Structural)]
pub struct CacheStats {
    /// Total number of entries in cache
    pub total_entries: usize,
    /// Number of verified entries
    pub verified_entries: usize,
}

/// State root information keyed by hash, at most one entry per key.
pub struct RootCache {
    entries: Vec<(B256, StateRootInfo)>,
}

impl View for RootCache {
    type V = Map<Seq<u8>, StateRootInfo>;

    closed spec fn view(&self) -> Map<Seq<u8>, StateRootInfo> {
        log_map(self.spec_entries())
    }
}

impl RootCache {
    /// The entries in the order their keys were first cached.
    pub closed spec fn spec_entries(&self) -> Seq<(Seq<u8>, StateRootInfo)> {
        self.entries@.map_values(|e: (B256, StateRootInfo)| (e.0@, e.1))
    }

    /// No key is cached twice.
    #[verifier::type_invariant]
    closed spec fn keys_unique(&self) -> bool {
        keys_distinct(self.spec_entries())
    }

    /// An empty cache.
    pub fn new() -> (c: Self)
        ensures
            c@ == Map::<Seq<u8>, StateRootInfo>::empty(),
            c.spec_entries().len() == 0,
    {
        let c = RootCache { entries: Vec::new() };
        assert(c.spec_entries() =~= Seq::<(Seq<u8>, StateRootInfo)>::empty());
        c
    }

    /// The information cached under `key`, if any.
    pub fn get(&self, key: &B256) -> (r: Option<StateRootInfo>)
        ensures
            r == (if self@.contains_key(key@) { Some(self@[key@]) } else { None }),
    {
        proof {
            use_type_invariant(self);
        }
        let ghost s = self.spec_entries();
        let mut i: usize = 0;
        while i < self.entries.len()
            invariant
                0 <= i <= self.entries@.len(),
                s == self.spec_entries(),
                s.len() == self.entries@.len(),
                keys_distinct(s),
                forall|j: int| 0 <= j < i ==> (#[trigger] s[j]).0 != key@,
            decreases self.entries@.len() - i,
        {
            assert(s[i as int] == (self.entries@[i as int].0@, self.entries@[i as int].1));
            if hash_eq(&self.entries[i].0, key) {
                proof {
                    lemma_log_map_contains(s, i as int);
                }
                return Some(self.entries[i].1);
            }
            i += 1;
        }
        proof {
            lemma_log_map_absent(s, key@);
        }
        None
    }

    /// Caches `info` under `key`, replacing what was there.
    pub fn insert(&mut self, key: B256, info: StateRootInfo)
        ensures
            final(self)@ == old(self)@.insert(key@, info),
    {
        proof {
            use_type_invariant(&*self);
        }
        let ghost before = self.spec_entries();
        let ghost kv = (key@, info);
        let mut entries: Vec<(B256, StateRootInfo)> = Vec::new();
        std::mem::swap(&mut entries, &mut self.entries);
        let mut i: usize = 0;
        while i < entries.len()
            invariant
                0 <= i <= entries@.len(),
                before == entries@.map_values(|e: (B256, StateRootInfo)| (e.0@, e.1)),
                before == old(self).spec_entries(),
                keys_distinct(before),
                kv == (key@, info),
                forall|j: int| 0 <= j < i ==> (#[trigger] before[j]).0 != key@,
            decreases entries@.len() - i,
        {
            assert(before[i as int] == (entries@[i as int].0@, entries@[i as int].1));
            if hash_eq(&entries[i].0, &key) {
                entries.set(i, (key, info));
                proof {
                    let t = entries@.map_values(|e: (B256, StateRootInfo)| (e.0@, e.1));
                    assert(t =~= before.update(i as int, kv));
                    lemma_log_map_update(before, i as int, info);
                    assert forall|a: int, b: int| 0 <= a < t.len() && 0 <= b < t.len() && a != b implies
                        (#[trigger] t[a]).0 != (#[trigger] t[b]).0 by {
                        assert(t[a].0 == before[a].0);
                        assert(t[b].0 == before[b].0);
                    }
                }
                self.entries = entries;
                return;
            }
            i += 1;
        }
        entries.push((key, info));
        proof {
            let t = entries@.map_values(|e: (B256, StateRootInfo)| (e.0@, e.1));
            assert(t =~= before.push(kv));
            assert(t.drop_last() =~= before);
            assert forall|a: int, b: int| 0 <= a < t.len() && 0 <= b < t.len() && a != b implies
                (#[trigger] t[a]).0 != (#[trigger] t[b]).0 by {
                if a < before.len() {
                    assert(t[a] == before[a]);
                }
                if b < before.len() {
                    assert(t[b] == before[b]);
                }
            }
        }
        self.entries = entries;
    }

    /// The number of cached entries.
    pub fn len(&self) -> (n: usize)
        ensures
            n == self.spec_entries().len(),
    {
        self.entries.len()
    }

    /// Forgets every cached entry.
    pub fn clear(&mut self)
        ensures
            final(self)@ == Map::<Seq<u8>, StateRootInfo>::empty(),
            final(self).spec_entries().len() == 0,
    {
        let entries: Vec<(B256, StateRootInfo)> = Vec::new();
        assert(entries@.map_values(|e: (B256, StateRootInfo)| (e.0@, e.1)) =~= Seq::<(Seq<u8>, StateRootInfo)>::empty());
        self.entries = entries;
    }

    /// The entry at position `i`.
    pub fn entry_at(&self, i: usize) -> (r: (B256, StateRootInfo))
        requires
            i < self.spec_entries().len(),
        ensures
            (r.0@, r.1) == self.spec_entries()[i as int],
    {
        self.entries[i]
    }
}

/// The number of verified entries of `s`.
pub open spec fn verified_count(s: Seq<(Seq<u8>, StateRootInfo)>) -> nat
    decreases s.len(),
{
    if s.len() == 0 {
        0
    } else {
        verified_count(s.drop_last()) + if s.last().1.verified { 1nat } else { 0nat }
    }
}

/// With no verified entry counted, no entry is verified.
proof fn lemma_no_verified(s: Seq<(Seq<u8>, StateRootInfo)>, j: int)
    requires
        verified_count(s) == 0,
        0 <= j < s.len(),
    ensures
        !s[j].1.verified,
    decreases s.len(),
{
    if j < s.len() - 1 {
        lemma_no_verified(s.drop_last(), j);
        assert(s.drop_last()[j] == s[j]);
    }
}

/// Whether `r` is the state root of a verified entry of `s` with the greatest block number
/// among the verified entries.
pub open spec fn latest_verified(s: Seq<(Seq<u8>, StateRootInfo)>, r: B256) -> bool {
    exists|i: int| {
        &&& 0 <= i < s.len()
        &&& (#[trigger] s[i]).1.verified
        &&& s[i].1.state_root == r
        &&& forall|j: int| 0 <= j < s.len() && (#[trigger] s[j]).1.verified ==> s[j].1.block_number <= s[i].1.block_number
    }
}

/// The information recorded when a state root is set as the target: block zero, zero block
/// hash, not verified.
pub open spec fn target_info(state_root: B256) -> StateRootInfo {
    StateRootInfo { block_number: 0, block_hash: vstd::array::spec_array_fill_for_copy_type::<u8, 32>(0u8), state_root, verified: false }
}

/// The information of a block looked up by hash: block zero, zero state root, not verified.
pub open spec fn looked_up_info(block_hash: B256) -> StateRootInfo {
    StateRootInfo { block_number: 0, block_hash, state_root: vstd::array::spec_array_fill_for_copy_type::<u8, 32>(0u8), verified: false }
}

/// Manages state roots for snap sync operations.
pub struct SnapSyncStateManager {
    /// Cache of state root information
    pub state_root_cache: RootCache,
    /// Current sync target state root
    pub target_state_root: Option<B256>,
    /// Current sync progress
    pub sync_progress: SyncProgress,
}

impl SnapSyncStateManager {
    /// A manager with no target, an empty cache and no progress.
    pub fn new() -> (m: Self)
        ensures
            m.target_state_root is None,
            m.state_root_cache@ == Map::<Seq<u8>, StateRootInfo>::empty(),
            m.sync_progress == empty_progress(),
    {
        SnapSyncStateManager { state_root_cache: RootCache::new(), target_state_root: None, sync_progress: SyncProgress::default() }
    }

    /// The block with state root `state_root`: the lookup always finds block zero.
    fn find_block_by_state_root(&self, state_root: B256) -> (r: Result<Option<StateRootInfo>, StateManagerError>)
        ensures
            r == Ok::<Option<StateRootInfo>, StateManagerError>(Some(target_info(state_root))),
    {
        let block_hash: B256 = [0u8; 32];
        Ok(Some(StateRootInfo { block_number: 0, block_hash, state_root, verified: false }))
    }

    /// The state root information of the block with hash `block_hash`: the lookup always
    /// finds block zero.
    fn query_state_root_from_db(&self, block_hash: B256) -> (r: Result<Option<StateRootInfo>, StateManagerError>)
        ensures
            r == Ok::<Option<StateRootInfo>, StateManagerError>(Some(looked_up_info(block_hash))),
    {
        let state_root: B256 = [0u8; 32];
        Ok(Some(StateRootInfo { block_number: 0, block_hash, state_root, verified: false }))
    }

    /// Sets the target state root, caching the information of its block.
    pub fn set_target_state_root(&mut self, state_root: B256) -> (r: Result<(), StateManagerError>)
        ensures
            r is Ok,
            final(self).target_state_root == Some(state_root),
            final(self).state_root_cache@ == old(self).state_root_cache@.insert(state_root@, target_info(state_root)),
            final(self).sync_progress == old(self).sync_progress,
    {
        match self.find_block_by_state_root(state_root)? {
            Some(block_info) => {
                self.target_state_root = Some(state_root);
                self.state_root_cache.insert(state_root, block_info);
                Ok(())
            },
            None => Err(StateManagerError::StateRootNotFound(state_root)),
        }
    }

    /// The current target state root.
    pub fn target_state_root(&self) -> (r: Option<B256>)
        ensures
            r == self.target_state_root,
    {
        self.target_state_root
    }

    /// The state root information of a block: the cached entry when there is one, else the
    /// looked up information, which is then cached.
    pub fn get_state_root_info(&mut self, block_hash: B256) -> (r: Result<Option<StateRootInfo>, StateManagerError>)
        ensures
            final(self).target_state_root == old(self).target_state_root,
            final(self).sync_progress == old(self).sync_progress,
            if old(self).state_root_cache@.contains_key(block_hash@) {
                &&& r == Ok::<Option<StateRootInfo>, StateManagerError>(Some(old(self).state_root_cache@[block_hash@]))
                &&& final(self).state_root_cache@ == old(self).state_root_cache@
            } else {
                &&& r == Ok::<Option<StateRootInfo>, StateManagerError>(Some(looked_up_info(block_hash)))
                &&& final(self).state_root_cache@ == old(self).state_root_cache@.insert(block_hash@, looked_up_info(block_hash))
            },
    {
        if let Some(info) = self.state_root_cache.get(&block_hash) {
            return Ok(Some(info));
        }
        let info = self.query_state_root_from_db(block_hash)?;
        if let Some(i) = info {
            self.state_root_cache.insert(block_hash, i);
        }
        Ok(info)
    }

    /// Whether a state root is verified: the cached flag when it is cached, else whether the
    /// lookup finds it, which it always does.
    pub fn verify_state_root(&mut self, state_root: B256) -> (r: Result<bool, StateManagerError>)
        ensures
            final(self).state_root_cache@ == old(self).state_root_cache@,
            final(self).target_state_root == old(self).target_state_root,
            final(self).sync_progress == old(self).sync_progress,
            r == Ok::<bool, StateManagerError>(if old(self).state_root_cache@.contains_key(state_root@) {
                old(self).state_root_cache@[state_root@].verified
            } else {
                true
            }),
    {
        if let Some(info) = self.state_root_cache.get(&state_root) {
            return Ok(info.verified);
        }
        let is_valid = self.query_state_root_from_db(state_root)?.is_some();
        Ok(is_valid)
    }

    /// The sync progress.
    pub fn sync_progress(&self) -> (p: SyncProgress)
        ensures
            p == self.sync_progress,
    {
        self.sync_progress
    }

    /// Records `count` more synced items of `data_type`.
    pub fn update_sync_progress(&mut self, data_type: DataType, count: u64)
        requires
            old(self).sync_progress.synced_of(data_type) + count <= u64::MAX,
        ensures
            final(self).sync_progress == old(self).sync_progress.spec_updated(data_type, count),
            final(self).state_root_cache@ == old(self).state_root_cache@,
            final(self).target_state_root == old(self).target_state_root,
    {
        self.sync_progress.update_progress(data_type, count);
    }

    /// Sets the totals to sync per data type; the synced counts stay.
    pub fn set_total_counts(&mut self, accounts: u64, storage_slots: u64, byte_codes: u64, trie_nodes: u64)
        ensures
            final(self).sync_progress == (SyncProgress {
                total_accounts: accounts,
                total_storage_slots: storage_slots,
                total_byte_codes: byte_codes,
                total_trie_nodes: trie_nodes,
                ..old(self).sync_progress
            }),
            final(self).state_root_cache@ == old(self).state_root_cache@,
            final(self).target_state_root == old(self).target_state_root,
    {
        self.sync_progress.total_accounts = accounts;
        self.sync_progress.total_storage_slots = storage_slots;
        self.sync_progress.total_byte_codes = byte_codes;
        self.sync_progress.total_trie_nodes = trie_nodes;
    }

    /// Whether the sync has started, with something to sync, and every data type has synced
    /// at least its total. A manager that was never given totals is not complete.
    pub fn is_sync_complete(&self) -> (r: bool)
        ensures
            r == (self.sync_progress.spec_total_items() > 0 && self.sync_progress.spec_is_complete()),
    {
        let p = self.sync_progress;
        let started = p.total_accounts > 0 || p.total_storage_slots > 0 || p.total_byte_codes > 0
            || p.total_trie_nodes > 0;
        started && p.is_complete()
    }

    /// The state root of the verified cached entry with the greatest block number, the last
    /// such entry on ties; `None` when no cached entry is verified.
    pub fn get_latest_verified_state_root(&self) -> (r: Option<B256>)
        ensures
            r is None <==> verified_count(self.state_root_cache.spec_entries()) == 0,
            r matches Some(root) ==> latest_verified(self.state_root_cache.spec_entries(), root),
    {
        let ghost s = self.state_root_cache.spec_entries();
        let n = self.state_root_cache.len();
        let mut best: Option<(u64, B256)> = None;
        let mut i: usize = 0;
        while i < n
            invariant
                n == s.len(),
                s == self.state_root_cache.spec_entries(),
                0 <= i <= n,
                best is None <==> verified_count(s.take(i as int)) == 0,
                best matches Some(b) ==> exists|k: int| {
                    &&& 0 <= k < i
                    &&& (#[trigger] s[k]).1.verified
                    &&& s[k].1.state_root == b.1
                    &&& s[k].1.block_number == b.0
                    &&& forall|j: int| 0 <= j < i && (#[trigger] s[j]).1.verified ==> s[j].1.block_number <= b.0
                },
            decreases n - i,
        {
            proof {
                assert(s.take(i + 1).drop_last() =~= s.take(i as int));
            }
            let (_, info) = self.state_root_cache.entry_at(i);
            let ghost prev = best;
            if info.verified {
                match best {
                    Some(b) => {
                        if info.block_number >= b.0 {
                            best = Some((info.block_number, info.state_root));
                        }
                    },
                    None => {
                        best = Some((info.block_number, info.state_root));
                    },
                }
            }
            proof {
                assert(s[i as int].1 == info);
                if best != prev {
                    assert forall|j: int| 0 <= j < i + 1 && (#[trigger] s[j]).1.verified implies s[j].1.block_number <= info.block_number by {
                        if j < i {
                            if prev is None {
                                assert(verified_count(s.take(i as int)) == 0);
                                lemma_no_verified(s.take(i as int), j);
                                assert(s.take(i as int)[j] == s[j]);
                            }
                        }
                    }
                } else if let Some(b) = best {
                    let k = choose|k: int| {
                        &&& 0 <= k < i
                        &&& (#[trigger] s[k]).1.verified
                        &&& s[k].1.state_root == b.1
                        &&& s[k].1.block_number == b.0
                        &&& forall|j: int| 0 <= j < i && (#[trigger] s[j]).1.verified ==> s[j].1.block_number <= b.0
                    };
                    assert(0 <= k < i + 1 && s[k].1.verified);
                }
            }
            i += 1;
        }
        proof {
            assert(s.take(n as int) =~= s);
        }
        match best {
            Some(b) => Some(b.1),
            None => None,
        }
    }

    /// Forgets every cached entry.
    pub fn clear_cache(&mut self)
        ensures
            final(self).state_root_cache@ == Map::<Seq<u8>, StateRootInfo>::empty(),
            final(self).target_state_root == old(self).target_state_root,
            final(self).sync_progress == old(self).sync_progress,
    {
        self.state_root_cache.clear();
    }

    /// The number of cached entries and of verified ones.
    pub fn cache_stats(&self) -> (st: CacheStats)
        ensures
            st.total_entries == self.state_root_cache.spec_entries().len(),
            st.verified_entries == verified_count(self.state_root_cache.spec_entries()),
    {
        let ghost s = self.state_root_cache.spec_entries();
        let n = self.state_root_cache.len();
        let mut verified: usize = 0;
        let mut i: usize = 0;
        while i < n
            invariant
                n == s.len(),
                s == self.state_root_cache.spec_entries(),
                0 <= i <= n,
                verified <= i,
                verified == verified_count(s.take(i as int)),
            decreases n - i,
        {
            proof {
                assert(s.take(i + 1).drop_last() =~= s.take(i as int));
            }
            let (_, info) = self.state_root_cache.entry_at(i);
            if info.verified {
                verified = verified + 1;
            }
            i += 1;
        }
        proof {
            assert(s.take(n as int) =~= s);
        }
        CacheStats { total_entries: n, verified_entries: verified }
    }
}

} // verus!
