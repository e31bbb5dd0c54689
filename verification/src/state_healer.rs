//! Healing of downloaded state: detection of missing data, healing it item by item, and
//! statistics over the healing runs made.

use vstd::prelude::*;
use std::time::{Duration, Instant};
use crate::clock::{instant_now, elapsed_since, duration_as_nanos, duration_as_millis, duration_from_secs};
use crate::error::StageError;
use crate::hash::{Address, B256};
use crate::results::{ResultLog, numbered_id, decimal, log_recorded, log_map, lemma_present_keys_bounded, sum_values, lemma_sum_values_prefix_le, lemma_sum_values_take_next, lemma_sum_values_bounded, capped};
use crate::state_verifier::{StateData, saturate_nanos};

verus! {

/// Why state healing failed.
#[derive(Debug)]
pub enum StateHealingError {
    /// Network error during healing
    Network(String),
    /// Timeout error
    Timeout(Duration),
    /// Missing data not found
    MissingDataNotFound(String),
    /// State inconsistency detected
    StateInconsistency(String),
}

/// Configuration for state healing.
#[derive(Debug, Clone, Copy)]
pub struct StateHealingConfig {
    /// Maximum number of healing attempts
    pub max_healing_attempts: usize,
    /// Timeout for healing operations
    pub healing_timeout: Duration,
    /// Enable detailed logging
    pub enable_detailed_logging: bool,
}

impl Default for StateHealingConfig {
    /// Five attempts, a thirty second timeout, logging on.
    fn default() -> (c: Self)
        ensures
            c.max_healing_attempts == 5,
            c.enable_detailed_logging,
    {
        StateHealingConfig {
            max_healing_attempts: 5,
            healing_timeout: duration_from_secs(30),
            enable_detailed_logging: true,
        }
    }
}

/// Missing data that needs to be healed.
#[derive(Debug, Clone)]
pub struct MissingData {
    /// Missing account addresses
    pub missing_accounts: Vec<Address>,
    /// Missing storage slots (account, slot_key)
    pub missing_storage: Vec<(Address, B256)>,
    /// Missing byte code hashes
    pub missing_byte_codes: Vec<B256>,
    /// Missing trie node hashes
    pub missing_trie_nodes: Vec<B256>,
}

/// Result of a healing operation.
#[derive(Debug, Clone, Copy, PartialEq, Eq, Structural)]
pub struct HealingResult {
    /// Whether the healing was successful
    pub is_successful: bool,
    /// Number of healed accounts
    pub healed_accounts: usize,
    /// Number of healed storage slots
    pub healed_storage_slots: usize,
    /// Number of healed byte codes
    pub healed_byte_codes: usize,
    /// Number of healed trie nodes
    pub healed_trie_nodes: usize,
    /// Time taken for healing, in nanoseconds
    pub healing_time_ns: u64,
}

/// Statistics for state healing.
#[derive(Debug, Clone, Copy, PartialEq, Eq, Structural)]
pub struct HealingStats {
    /// Total number of healing attempts
    pub total_healing_attempts: usize,
    /// Number of successful healing attempts
    pub successful_healing_attempts: usize,
    /// Number of failed healing attempts
    pub failed_healing_attempts: usize,
    /// Total healed accounts
    pub total_healed_accounts: usize,
    /// Total healed storage slots
    pub total_healed_storage_slots: usize,
    /// Total healed byte codes
    pub total_healed_byte_codes: usize,
    /// Total healed trie nodes
    pub total_healed_trie_nodes: usize,
    /// Average healing time, in nanoseconds
    pub average_healing_time_ns: u64,
}

/// Success of a healing run.
pub open spec fn success_of(r: HealingResult) -> int {
    if r.is_successful { 1 } else { 0 }
}

/// Healed accounts of a run.
pub open spec fn healed_accounts_of(r: HealingResult) -> int {
    r.healed_accounts as int
}

/// Healed storage slots of a run.
pub open spec fn healed_slots_of(r: HealingResult) -> int {
    r.healed_storage_slots as int
}

/// Healed byte codes of a run.
pub open spec fn healed_codes_of(r: HealingResult) -> int {
    r.healed_byte_codes as int
}

/// Healed trie nodes of a run.
pub open spec fn healed_nodes_of(r: HealingResult) -> int {
    r.healed_trie_nodes as int
}

/// Healing time of a run.
pub open spec fn healing_time_of(r: HealingResult) -> int {
    r.healing_time_ns as int
}

/// The id of a healing attempt that took `ms` milliseconds, set apart by `k` underscores.
pub open spec fn healing_id(ms: nat, k: nat) -> Seq<char> {
    "healing_"@ + decimal(ms) + Seq::new(k, |i: int| '_')
}

/// Detects and heals missing state data, and keeps the results of its healing runs.
pub struct StateHealer {
    /// Maximum number of healing attempts
    pub max_healing_attempts: usize,
    /// Timeout for healing operations
    pub healing_timeout: Duration,
    /// Results of healing operations, by result id
    pub healing_results: ResultLog<HealingResult>,
}

impl StateHealer {
    /// A healer with no results yet.
    pub fn new(max_healing_attempts: usize, healing_timeout: Duration) -> (h: Self)
        ensures
            h.max_healing_attempts == max_healing_attempts,
            h.healing_timeout == healing_timeout,
            h.healing_results.spec_entries().len() == 0,
    {
        StateHealer { max_healing_attempts, healing_timeout, healing_results: ResultLog::new() }
    }

    /// A healer with the attempts and timeout of `config`, and no results yet.
    pub fn with_config(config: StateHealingConfig) -> (h: Self)
        ensures
            h.max_healing_attempts == config.max_healing_attempts,
            h.healing_timeout == config.healing_timeout,
            h.healing_results.spec_entries().len() == 0,
    {
        StateHealer {
            max_healing_attempts: config.max_healing_attempts,
            healing_timeout: config.healing_timeout,
            healing_results: ResultLog::new(),
        }
    }

    /// Accounts missing from `state_data`: none are detected.
    pub fn detect_missing_accounts(&self, state_data: &StateData) -> (r: Vec<Address>)
        ensures
            r@.len() == 0,
    {
        Vec::new()
    }

    /// Storage slots missing from `state_data`: none are detected.
    pub fn detect_missing_storage(&self, state_data: &StateData) -> (r: Vec<(Address, B256)>)
        ensures
            r@.len() == 0,
    {
        Vec::new()
    }

    /// Byte codes missing from `state_data`: none are detected.
    pub fn detect_missing_byte_codes(&self, state_data: &StateData) -> (r: Vec<B256>)
        ensures
            r@.len() == 0,
    {
        Vec::new()
    }

    /// Trie nodes missing from `state_data`: none are detected.
    pub fn detect_missing_trie_nodes(&self, state_data: &StateData) -> (r: Vec<B256>)
        ensures
            r@.len() == 0,
    {
        Vec::new()
    }

    /// Heals one account; the download always succeeds.
    fn heal_account(&self, account: Address) -> (r: bool)
        ensures
            r,
    {
        true
    }

    /// Heals one storage slot; the download always succeeds.
    fn heal_storage_slot(&self, account: Address, slot_key: B256) -> (r: bool)
        ensures
            r,
    {
        true
    }

    /// Heals one byte code; the download always succeeds.
    fn heal_byte_code(&self, code_hash: B256) -> (r: bool)
        ensures
            r,
    {
        true
    }

    /// Heals one trie node; the download always succeeds.
    fn heal_trie_node(&self, node_hash: B256) -> (r: bool)
        ensures
            r,
    {
        true
    }

    /// Heals every missing item, counting the healed ones per kind; the run succeeds when all
    /// are healed. The result is recorded as a new attempt under `healing_` and the
    /// milliseconds the run took (a number that depends on the clock), followed by as few
    /// underscores as keep the id apart from the ids of earlier attempts.
    pub fn heal_missing_data(&mut self, missing_data: MissingData) -> (r: Result<HealingResult, StageError>)
        ensures
            final(self).max_healing_attempts == old(self).max_healing_attempts,
            final(self).healing_timeout == old(self).healing_timeout,
            r matches Ok(res) && {
                &&& res.healed_accounts == missing_data.missing_accounts@.len()
                &&& res.healed_storage_slots == missing_data.missing_storage@.len()
                &&& res.healed_byte_codes == missing_data.missing_byte_codes@.len()
                &&& res.healed_trie_nodes == missing_data.missing_trie_nodes@.len()
                &&& res.is_successful
                &&& exists|ms: nat, k: nat| #[trigger] log_recorded(&old(self).healing_results, &final(self).healing_results,
                    healing_id(ms, k), res)
                    && !old(self).healing_results.spec_map().contains_key(healing_id(ms, k))
                    && forall|j: nat| j < k ==> old(self).healing_results.spec_map().contains_key(#[trigger] healing_id(ms, j))
                &&& final(self).healing_results.spec_entries().len() == old(self).healing_results.spec_entries().len() + 1
            },
    {
        let start = instant_now();
        let mut healed_accounts: usize = 0;
        let mut i: usize = 0;
        while i < missing_data.missing_accounts.len()
            invariant
                0 <= i <= missing_data.missing_accounts@.len(),
                healed_accounts == i,
            decreases missing_data.missing_accounts@.len() - i,
        {
            if self.heal_account(missing_data.missing_accounts[i]) {
                healed_accounts += 1;
            }
            i += 1;
        }
        let mut healed_storage_slots: usize = 0;
        let mut i: usize = 0;
        while i < missing_data.missing_storage.len()
            invariant
                0 <= i <= missing_data.missing_storage@.len(),
                healed_storage_slots == i,
            decreases missing_data.missing_storage@.len() - i,
        {
            let (account, slot_key) = missing_data.missing_storage[i];
            if self.heal_storage_slot(account, slot_key) {
                healed_storage_slots += 1;
            }
            i += 1;
        }
        let mut healed_byte_codes: usize = 0;
        let mut i: usize = 0;
        while i < missing_data.missing_byte_codes.len()
            invariant
                0 <= i <= missing_data.missing_byte_codes@.len(),
                healed_byte_codes == i,
            decreases missing_data.missing_byte_codes@.len() - i,
        {
            if self.heal_byte_code(missing_data.missing_byte_codes[i]) {
                healed_byte_codes += 1;
            }
            i += 1;
        }
        let mut healed_trie_nodes: usize = 0;
        let mut i: usize = 0;
        while i < missing_data.missing_trie_nodes.len()
            invariant
                0 <= i <= missing_data.missing_trie_nodes@.len(),
                healed_trie_nodes == i,
            decreases missing_data.missing_trie_nodes@.len() - i,
        {
            if self.heal_trie_node(missing_data.missing_trie_nodes[i]) {
                healed_trie_nodes += 1;
            }
            i += 1;
        }
        let healing_time = elapsed_since(&start);
        let is_successful = healed_accounts == missing_data.missing_accounts.len()
            && healed_storage_slots == missing_data.missing_storage.len()
            && healed_byte_codes == missing_data.missing_byte_codes.len()
            && healed_trie_nodes == missing_data.missing_trie_nodes.len();
        let result = HealingResult {
            is_successful,
            healed_accounts,
            healed_storage_slots,
            healed_byte_codes,
            healed_trie_nodes,
            healing_time_ns: saturate_nanos(duration_as_nanos(&healing_time)),
        };
        let ms = duration_as_millis(&elapsed_since(&start));
        let mut id = numbered_id("healing_", ms);
        let ghost m = self.healing_results.spec_map();
        let count = self.healing_results.len();
        let ghost n = self.healing_results.spec_entries().len();
        let mut k: usize = 0;
        proof {
            assert(id@ =~= healing_id(ms as nat, 0));
        }
        while self.healing_results.get(id.as_str()).is_some()
            invariant
                m == self.healing_results.spec_map(),
                n == self.healing_results.spec_entries().len(),
                m == log_map(self.healing_results.spec_entries()),
                id@ == healing_id(ms as nat, k as nat),
                k <= n,
                n == count,
                forall|j: nat| j < k ==> m.contains_key(#[trigger] healing_id(ms as nat, j)),
            decreases n - k,
        {
            proof {
                let c = Seq::new((k + 1) as nat, |j: int| healing_id(ms as nat, j as nat));
                assert forall|a: int, b: int| 0 <= a < c.len() && 0 <= b < c.len() && a != b implies c[a] != c[b] by {
                    assert(c[a].len() != c[b].len());
                }
                assert forall|j: int| 0 <= j < c.len() implies m.contains_key(#[trigger] c[j]) by {
                    if j < k {
                        assert(m.contains_key(healing_id(ms as nat, j as nat)));
                    }
                }
                lemma_present_keys_bounded(self.healing_results.spec_entries(), c);
            }
            id.append("_");
            proof {
                reveal_strlit("_");
                assert(id@ =~= healing_id(ms as nat, (k + 1) as nat));
            }
            k += 1;
        }
        self.healing_results.insert(id, result);
        assert(log_recorded(&old(self).healing_results, &self.healing_results, healing_id(ms as nat, k as nat), result));
        Ok(result)
    }

    /// Whether `state_data` is consistent: it always is taken to be.
    pub fn verify_state_consistency(&self, state_data: &StateData) -> (r: bool)
        ensures
            r,
    {
        true
    }

    /// Counts and totals over the recorded healing runs, with the mean healing time.
    pub fn get_healing_stats(&self) -> (st: HealingStats)
        ensures
            st.total_healing_attempts == self.healing_results.spec_entries().len(),
            st.successful_healing_attempts == sum_values(self.healing_results.spec_entries(), |r: HealingResult| success_of(r)),
            st.failed_healing_attempts == st.total_healing_attempts - st.successful_healing_attempts,
            st.total_healed_accounts == capped(sum_values(self.healing_results.spec_entries(), |r: HealingResult| healed_accounts_of(r)), usize::MAX as int),
            st.total_healed_storage_slots == capped(sum_values(self.healing_results.spec_entries(), |r: HealingResult| healed_slots_of(r)), usize::MAX as int),
            st.total_healed_byte_codes == capped(sum_values(self.healing_results.spec_entries(), |r: HealingResult| healed_codes_of(r)), usize::MAX as int),
            st.total_healed_trie_nodes == capped(sum_values(self.healing_results.spec_entries(), |r: HealingResult| healed_nodes_of(r)), usize::MAX as int),
            st.average_healing_time_ns == if st.total_healing_attempts > 0 {
                sum_values(self.healing_results.spec_entries(), |r: HealingResult| healing_time_of(r)) / (st.total_healing_attempts as int)
            } else {
                0
            },
    {
        let ghost s = self.healing_results.spec_entries();
        let ghost fv = |r: HealingResult| success_of(r);
        let ghost fa = |r: HealingResult| healed_accounts_of(r);
        let ghost fs = |r: HealingResult| healed_slots_of(r);
        let ghost fc = |r: HealingResult| healed_codes_of(r);
        let ghost fn_ = |r: HealingResult| healed_nodes_of(r);
        let ghost ft = |r: HealingResult| healing_time_of(r);
        let n = self.healing_results.len();
        let mut ok: usize = 0;
        let mut accounts: usize = 0;
        let mut slots: usize = 0;
        let mut codes: usize = 0;
        let mut nodes: usize = 0;
        let mut time: u128 = 0;
        let mut i: usize = 0;
        while i < n
            invariant
                n == s.len(),
                s == self.healing_results.spec_entries(),
                0 <= i <= n,
                fv == (|r: HealingResult| success_of(r)),
                fa == (|r: HealingResult| healed_accounts_of(r)),
                fs == (|r: HealingResult| healed_slots_of(r)),
                fc == (|r: HealingResult| healed_codes_of(r)),
                fn_ == (|r: HealingResult| healed_nodes_of(r)),
                ft == (|r: HealingResult| healing_time_of(r)),
                ok <= i,
                ok == sum_values(s.take(i as int), fv),
                accounts == capped(sum_values(s.take(i as int), fa), usize::MAX as int),
                slots == capped(sum_values(s.take(i as int), fs), usize::MAX as int),
                codes == capped(sum_values(s.take(i as int), fc), usize::MAX as int),
                nodes == capped(sum_values(s.take(i as int), fn_), usize::MAX as int),
                time == sum_values(s.take(i as int), ft),
                time <= i * (u64::MAX as int),
            decreases n - i,
        {
            proof {
                lemma_sum_values_take_next(s, fv, i as int);
                lemma_sum_values_take_next(s, fa, i as int);
                lemma_sum_values_take_next(s, fs, i as int);
                lemma_sum_values_take_next(s, fc, i as int);
                lemma_sum_values_take_next(s, fn_, i as int);
                lemma_sum_values_take_next(s, ft, i as int);
                lemma_sum_values_prefix_le(s, fa, i as int);
                lemma_sum_values_prefix_le(s, fs, i as int);
                lemma_sum_values_prefix_le(s, fc, i as int);
                lemma_sum_values_prefix_le(s, fn_, i as int);
                lemma_sum_values_bounded(s.take(i + 1), ft, u64::MAX as int);
                assert((i + 1) * (u64::MAX as int) <= u128::MAX) by (nonlinear_arith)
                    requires
                        i < n,
                        n <= usize::MAX,
                ;
            }
            let r = self.healing_results.result_at(i);
            if r.is_successful {
                ok = ok + 1;
            }
            accounts = accounts.saturating_add(r.healed_accounts);
            slots = slots.saturating_add(r.healed_storage_slots);
            codes = codes.saturating_add(r.healed_byte_codes);
            nodes = nodes.saturating_add(r.healed_trie_nodes);
            time = time + r.healing_time_ns as u128;
            i += 1;
        }
        proof {
            assert(s.take(n as int) =~= s);
        }
        let average: u64 = if n > 0 {
            let q = time / (n as u128);
            assert(q <= u64::MAX) by (nonlinear_arith)
                requires
                    q == (time as int) / (n as int),
                    time <= n * (u64::MAX as int),
                    n > 0,
            ;
            q as u64
        } else {
            0
        };
        HealingStats {
            total_healing_attempts: n,
            successful_healing_attempts: ok,
            failed_healing_attempts: n - ok,
            total_healed_accounts: accounts,
            total_healed_storage_slots: slots,
            total_healed_byte_codes: codes,
            total_healed_trie_nodes: nodes,
            average_healing_time_ns: average,
        }
    }

    /// Forgets every recorded healing run.
    pub fn clear_healing_results(&mut self)
        ensures
            final(self).max_healing_attempts == old(self).max_healing_attempts,
            final(self).healing_timeout == old(self).healing_timeout,
            final(self).healing_results.spec_entries().len() == 0,
    {
        self.healing_results.clear();
    }
}

} // verus!
