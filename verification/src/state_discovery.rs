//! Discovery of a state root to snap sync from: peers report the state roots they hold, and
//! the most recent one that is old enough, but not too old, is chosen.

use vstd::prelude::*;
use std::time::Duration;
use crate::clock::{duration_as_secs, duration_from_secs, since_unix_epoch, system_time_now};
use crate::hash::{B256, be_value, hash_is_zero};
use crate::results::{ResultLog, log_map, log_recorded};

verus! {

/// Configuration for state root discovery.
#[derive(Debug, Clone, Copy)]
pub struct StateRootDiscoveryConfig {
    /// Maximum number of peers to query
    pub max_peers: usize,
    /// Timeout for peer queries
    pub query_timeout: Duration,
    /// Minimum age for state root (in blocks)
    pub min_age_blocks: u64,
    /// Maximum age for state root (in blocks)
    pub max_age_blocks: u64,
}

impl Default for StateRootDiscoveryConfig {
    /// Ten peers, a thirty second timeout, and state roots between a day (7200 blocks) and a
    /// week (50400 blocks) old.
    fn default() -> (c: Self)
        ensures
            c.max_peers == 10,
            c.min_age_blocks == 7200,
            c.max_age_blocks == 50400,
    {
        StateRootDiscoveryConfig {
            max_peers: 10,
            query_timeout: duration_from_secs(30),
            min_age_blocks: 7200,
            max_age_blocks: 50400,
        }
    }
}

/// Statistics for state root discovery.
#[derive(Debug, Clone, Copy)]
pub struct StateRootDiscoveryStats {
    /// Total number of peers
    pub total_peers: usize,
    /// Number of peers that have reported state roots
    pub peers_with_state_roots: usize,
    /// Maximum number of peers
    pub max_peers: usize,
    /// Query timeout
    pub query_timeout: Duration,
}

/// Why a state root query failed.
#[derive(Debug, Clone, Copy, PartialEq, Eq, Structural)]
pub enum DiscoveryError {
    /// The system clock reads a time before the Unix epoch.
    ClockBeforeEpoch,
}


/// The age of block `block_number` at block `current_block`, zero for a later block.
pub open spec fn age(current_block: u64, block_number: u64) -> int {
    if current_block >= block_number { current_block - block_number } else { 0 }
}

/// Whether a state root of block `block_number` may be chosen at block `current_block`: its
/// age lies in the window `(youngest, oldest)`.
pub open spec fn suitable(window: (u64, u64), current_block: u64, block_number: u64) -> bool {
    window.0 <= age(current_block, block_number) <= window.1
}

/// The reported roots of `s`, with the peers that reported them.
pub open spec fn reported(s: Seq<(Seq<char>, (B256, u64))>) -> Seq<(B256, u64)> {
    s.map_values(|e: (Seq<char>, (B256, u64))| e.1)
}

/// Whether `r` is a suitable report of `reports` with the greatest block number among the
/// suitable ones, and the first suitable report with that block number.
pub open spec fn most_recent_suitable(reports: Seq<(B256, u64)>, window: (u64, u64), current_block: u64, r: (B256, u64)) -> bool {
    &&& exists|i: int| 0 <= i < reports.len() && #[trigger] reports[i] == r
        && forall|j: int| 0 <= j < i && suitable(window, current_block, (#[trigger] reports[j]).1) ==> reports[j].1 < r.1
    &&& suitable(window, current_block, r.1)
    &&& forall|i: int| 0 <= i < reports.len() && suitable(window, current_block, (#[trigger] reports[i]).1) ==> reports[i].1 <= r.1
}

/// Whether `r` is what selecting among the reports `s` at block `current_block` gives: `None`
/// when no report is suitable, else the most recent suitable report.
pub open spec fn selection_at(s: Seq<(Seq<char>, (B256, u64))>, window: (u64, u64), current_block: u64, r: Option<(B256, u64)>) -> bool {
    &&& (r is None <==> forall|i: int| 0 <= i < s.len() ==> !suitable(window, current_block, (#[trigger] s[i]).1.1))
    &&& (r matches Some(x) ==> most_recent_suitable(reported(s), window, current_block, x))
}

/// The ids of `peers`.
pub open spec fn peer_ids(peers: Seq<String>) -> Seq<Seq<char>> {
    peers.map_values(|p: String| p@)
}

/// Whether the reports `after` are the reports `before` with answers recorded for some of the
/// peers `ids`: a report of another peer is untouched, no report is dropped, and each report
/// that changed holds the state root peers answer with.
pub open spec fn answers_recorded(before: Map<Seq<char>, (B256, u64)>, after: Map<Seq<char>, (B256, u64)>, ids: Seq<Seq<char>>) -> bool {
    &&& forall|k: Seq<char>| #[trigger] before.contains_key(k) ==> after.contains_key(k)
    &&& forall|k: Seq<char>| #[trigger] after.contains_key(k) && !(before.contains_key(k) && after[k] == before[k])
        ==> ids.contains(k) && after[k].0 == vstd::array::spec_array_fill_for_copy_type::<u8, 32>(1u8)
}

/// The block number of the chain head by the clock: the seconds since the Unix epoch over
/// twelve, one block every twelve seconds.
fn current_block_number() -> (r: Result<u64, DiscoveryError>)
    ensures
        r matches Ok(b) ==> b <= u64::MAX / 12,
{
    match since_unix_epoch(&system_time_now()) {
        Some(d) => Ok(duration_as_secs(&d) / 12),
        None => Err(DiscoveryError::ClockBeforeEpoch),
    }
}

/// Queries peers for recent state roots and selects one to snap sync from.
pub struct StateRootDiscovery {
    /// Maximum number of peers to query
    pub max_peers: usize,
    /// Timeout for peer queries
    pub query_timeout: Duration,
    /// The peers to query, in the order they were added
    pub peers: Vec<String>,
    /// The state root and block number each peer reported, by peer id
    pub peer_state_roots: ResultLog<(B256, u64)>,
    /// Youngest age, in blocks, of a state root that may be chosen
    pub min_age_blocks: u64,
    /// Oldest age, in blocks, of a state root that may be chosen
    pub max_age_blocks: u64,
}

impl StateRootDiscovery {
    /// The window `(youngest, oldest)` of ages, in blocks, of a state root that may be chosen.
    pub open spec fn age_window(&self) -> (u64, u64) {
        (self.min_age_blocks, self.max_age_blocks)
    }

    /// A discovery with no peers, choosing state roots between a day (7200 blocks) and a week
    /// (50400 blocks) old.
    pub fn new(max_peers: usize, query_timeout: Duration) -> (d: Self)
        ensures
            d.max_peers == max_peers,
            d.query_timeout == query_timeout,
            d.peers@.len() == 0,
            d.peer_state_roots.spec_entries().len() == 0,
            d.age_window() == (7200u64, 50400u64),
    {
        StateRootDiscovery {
            max_peers,
            query_timeout,
            peers: Vec::new(),
            peer_state_roots: ResultLog::new(),
            min_age_blocks: 7200,
            max_age_blocks: 50400,
        }
    }

    /// A discovery with the peer limit, timeout and age window of `config`, and no peers.
    pub fn with_config(config: StateRootDiscoveryConfig) -> (d: Self)
        ensures
            d.max_peers == config.max_peers,
            d.query_timeout == config.query_timeout,
            d.peers@.len() == 0,
            d.peer_state_roots.spec_entries().len() == 0,
            d.age_window() == (config.min_age_blocks, config.max_age_blocks),
    {
        StateRootDiscovery {
            max_peers: config.max_peers,
            query_timeout: config.query_timeout,
            peers: Vec::new(),
            peer_state_roots: ResultLog::new(),
            min_age_blocks: config.min_age_blocks,
            max_age_blocks: config.max_age_blocks,
        }
    }

    /// Adds a peer to query, unless the peer limit is reached.
    pub fn add_peer(&mut self, peer_id: String)
        ensures
            final(self).peers@ == if old(self).peers@.len() < old(self).max_peers {
                old(self).peers@.push(peer_id)
            } else {
                old(self).peers@
            },
            final(self).peer_state_roots.spec_entries() == old(self).peer_state_roots.spec_entries(),
            final(self).max_peers == old(self).max_peers,
            final(self).query_timeout == old(self).query_timeout,
            final(self).age_window() == old(self).age_window(),
    {
        if self.peers.len() < self.max_peers {
            self.peers.push(peer_id);
        }
    }

    /// Removes every peer with id `peer_id` and the state root it reported.
    pub fn remove_peer(&mut self, peer_id: &str)
        ensures
            final(self).peers@ == old(self).peers@.filter(|p: String| p@ != peer_id@),
            final(self).peer_state_roots.spec_map() == old(self).peer_state_roots.spec_map().remove(peer_id@),
            final(self).max_peers == old(self).max_peers,
            final(self).query_timeout == old(self).query_timeout,
            final(self).age_window() == old(self).age_window(),
    {
        let id = peer_id.to_owned();
        let mut kept: Vec<String> = Vec::new();
        let mut i: usize = 0;
        while i < self.peers.len()
            invariant
                0 <= i <= self.peers@.len(),
                id@ == peer_id@,
                self.peers@ == old(self).peers@,
                kept@ == self.peers@.take(i as int).filter(|p: String| p@ != peer_id@),
            decreases self.peers@.len() - i,
        {
            proof {
                reveal(Seq::filter);
                assert(self.peers@.take(i + 1).drop_last() =~= self.peers@.take(i as int));
                assert(self.peers@.take(i + 1).last() == self.peers@[i as int]);
            }
            if self.peers[i] != id {
                kept.push(self.peers[i].clone());
            }
            i += 1;
        }
        proof {
            reveal(Seq::filter);
            assert(self.peers@.take(self.peers@.len() as int) =~= self.peers@);
        }
        self.peers = kept;
        self.peer_state_roots.remove(peer_id);
    }

    /// Records the state root and block number a peer reported, replacing an earlier report.
    pub fn update_peer_state_root(&mut self, peer_id: &str, state_root: B256, block_number: u64)
        ensures
            log_recorded(&old(self).peer_state_roots, &final(self).peer_state_roots, peer_id@, (state_root, block_number)),
            final(self).peers@ == old(self).peers@,
            final(self).max_peers == old(self).max_peers,
            final(self).query_timeout == old(self).query_timeout,
            final(self).age_window() == old(self).age_window(),
    {
        self.peer_state_roots.insert(peer_id.to_owned(), (state_root, block_number));
    }

    /// The state root a peer holds, with its block: the chain head by the clock. Fails when
    /// the clock reads a time before the Unix epoch.
    fn query_peer_for_state_root(&self, peer_id: &String) -> (r: Result<(B256, u64), DiscoveryError>)
        ensures
            r matches Ok((root, b)) ==> root == vstd::array::spec_array_fill_for_copy_type::<u8, 32>(1u8)
                && b <= u64::MAX / 12,
    {
        let state_root: B256 = [1u8; 32];
        let block_number = current_block_number()?;
        Ok((state_root, block_number))
    }

    /// Queries every peer for the state root it holds, records each answer and returns them
    /// in peer order; a peer whose query fails is skipped.
    pub fn query_peers_for_state_roots(&mut self) -> (r: Result<Vec<(B256, u64)>, DiscoveryError>)
        ensures
            r is Ok,
            final(self).peers@ == old(self).peers@,
            final(self).max_peers == old(self).max_peers,
            final(self).query_timeout == old(self).query_timeout,
            final(self).age_window() == old(self).age_window(),
            r matches Ok(v) ==> v@.len() <= old(self).peers@.len(),
            r matches Ok(v) ==> forall|j: int| 0 <= j < v@.len()
                ==> (#[trigger] v@[j]).0 == vstd::array::spec_array_fill_for_copy_type::<u8, 32>(1u8),
            answers_recorded(old(self).peer_state_roots.spec_map(), final(self).peer_state_roots.spec_map(), peer_ids(old(self).peers@)),
    {
        let mut state_roots: Vec<(B256, u64)> = Vec::new();
        let mut i: usize = 0;
        while i < self.peers.len()
            invariant
                0 <= i <= self.peers@.len(),
                self.peers@ == old(self).peers@,
                self.max_peers == old(self).max_peers,
                self.query_timeout == old(self).query_timeout,
                self.age_window() == old(self).age_window(),
                state_roots@.len() <= i,
                forall|j: int| 0 <= j < state_roots@.len()
                    ==> (#[trigger] state_roots@[j]).0 == vstd::array::spec_array_fill_for_copy_type::<u8, 32>(1u8),
                answers_recorded(old(self).peer_state_roots.spec_map(), self.peer_state_roots.spec_map(), peer_ids(old(self).peers@)),
            decreases self.peers@.len() - i,
        {
            let peer_id = self.peers[i].clone();
            let ghost before = self.peer_state_roots.spec_map();
            match self.query_peer_for_state_root(&peer_id) {
                Ok((state_root, block_number)) => {
                    self.update_peer_state_root(peer_id.as_str(), state_root, block_number);
                    proof {
                        assert(peer_ids(old(self).peers@)[i as int] == peer_id@);
                        assert(peer_ids(old(self).peers@).contains(peer_id@));
                    }
                    state_roots.push((state_root, block_number));
                },
                Err(_) => {},
            }
            i += 1;
        }
        Ok(state_roots)
    }

    /// The most recent reported state root whose age at block `current_block` lies in the age
    /// window, the first such report on ties; `None` when there is none.
    pub fn select_recent_state_root_at(&self, current_block: u64) -> (r: Option<(B256, u64)>)
        ensures
            r is None <==> forall|i: int| 0 <= i < self.peer_state_roots.spec_entries().len()
                ==> !suitable(self.age_window(), current_block, (#[trigger] self.peer_state_roots.spec_entries()[i]).1.1),
            r matches Some(x) ==> most_recent_suitable(reported(self.peer_state_roots.spec_entries()), self.age_window(), current_block, x),
    {
        let ghost s = self.peer_state_roots.spec_entries();
        let ghost rs = reported(s);
        let n = self.peer_state_roots.len();
        let mut best: Option<(B256, u64)> = None;
        let mut i: usize = 0;
        while i < n
            invariant
                n == s.len(),
                s == self.peer_state_roots.spec_entries(),
                rs == reported(s),
                0 <= i <= n,
                best is None <==> forall|j: int| 0 <= j < i ==> !suitable(self.age_window(), current_block, (#[trigger] s[j]).1.1),
                best matches Some(b) ==> {
                    &&& exists|k: int| 0 <= k < i && #[trigger] rs[k] == b
                        && forall|j: int| 0 <= j < k && suitable(self.age_window(), current_block, (#[trigger] rs[j]).1) ==> rs[j].1 < b.1
                    &&& suitable(self.age_window(), current_block, b.1)
                    &&& forall|j: int| 0 <= j < i && suitable(self.age_window(), current_block, (#[trigger] rs[j]).1) ==> rs[j].1 <= b.1
                },
            decreases n - i,
        {
            let entry = *self.peer_state_roots.result_at(i);
            assert(rs[i as int] == s[i as int].1);
            let block_number = entry.1;
            let age: u64 = if current_block >= block_number { current_block - block_number } else { 0 };
            if self.min_age_blocks <= age && age <= self.max_age_blocks {
                match best {
                    Some(b) => {
                        if block_number > b.1 {
                            best = Some(entry);
                        }
                    },
                    None => {
                        best = Some(entry);
                    },
                }
            }
            i += 1;
        }
        best
    }

    /// The most recent reported state root whose age lies in the age window by the
    /// clock read now; `None` when there is none or no root was reported.
    pub fn select_recent_state_root(&self) -> (r: Option<(B256, u64)>)
        ensures
            self.peer_state_roots.spec_entries().len() == 0 ==> r is None,
            self.peer_state_roots.spec_entries().len() > 0 ==> exists|current_block: u64|
                current_block <= u64::MAX / 12 && #[trigger] selection_at(self.peer_state_roots.spec_entries(), self.age_window(), current_block, r),
    {
        if self.peer_state_roots.is_empty() {
            return None;
        }
        let current_block = self.get_current_block_number_sync();
        let r = self.select_recent_state_root_at(current_block);
        assert(selection_at(self.peer_state_roots.spec_entries(), self.age_window(), current_block, r));
        r
    }

    /// The block number of the chain head by the clock, zero when the clock reads a time
    /// before the Unix epoch.
    fn get_current_block_number_sync(&self) -> (b: u64)
        ensures
            b <= u64::MAX / 12,
    {
        match current_block_number() {
            Ok(b) => b,
            Err(_) => 0,
        }
    }

    /// Whether a state root may be trusted: it is not zero and its block is not the genesis.
    pub fn validate_state_root(&self, state_root: B256, block_number: u64) -> (r: bool)
        ensures
            r == (be_value(state_root@) != 0 && block_number > 0),
    {
        !hash_is_zero(&state_root) && block_number > 0
    }

    /// The number of peers.
    pub fn get_peer_count(&self) -> (n: usize)
        ensures
            n == self.peers@.len(),
    {
        self.peers.len()
    }

    /// The reported state roots, by peer id.
    pub fn get_peer_state_roots(&self) -> (r: &ResultLog<(B256, u64)>)
        ensures
            *r == self.peer_state_roots,
    {
        &self.peer_state_roots
    }

    /// Forgets every peer and reported state root.
    pub fn clear_peers(&mut self)
        ensures
            final(self).peers@.len() == 0,
            final(self).peer_state_roots.spec_entries().len() == 0,
            final(self).max_peers == old(self).max_peers,
            final(self).query_timeout == old(self).query_timeout,
            final(self).age_window() == old(self).age_window(),
    {
        self.peers.clear();
        self.peer_state_roots.clear();
    }

    /// Discovery statistics.
    pub fn get_stats(&self) -> (st: StateRootDiscoveryStats)
        ensures
            st.total_peers == self.peers@.len(),
            st.peers_with_state_roots == self.peer_state_roots.spec_entries().len(),
            st.max_peers == self.max_peers,
            st.query_timeout == self.query_timeout,
    {
        StateRootDiscoveryStats {
            total_peers: self.peers.len(),
            peers_with_state_roots: self.peer_state_roots.len(),
            max_peers: self.max_peers,
            query_timeout: self.query_timeout,
        }
    }
}

} // verus!
