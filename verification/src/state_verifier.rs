//! Verification of downloaded state: ranges with their proofs, byte codes and trie nodes,
//! the state trie rebuilt from them, and statistics over the verifications made.

use vstd::prelude::*;
use std::time::{Duration, Instant};
use crate::clock::{instant_now, elapsed_since, duration_as_nanos, duration_from_secs};
use crate::error::StageError;
use crate::hash::{Address, B256, hash_eq, hash_is_zero};
use crate::results::{ResultLog, log_map, keys_distinct, lemma_log_map_update, numbered_id, joined_id, decimal, log_recorded, sum_values, lemma_sum_values_prefix_le, lemma_sum_values_take_next, lemma_sum_values_bounded, capped};
use crate::trie::U256;

verus! {

/// Why a state verification failed.
#[derive(Debug)]
pub enum StateVerificationError {
    /// Invalid Merkle proof
    InvalidMerkleProof,
    /// Invalid state root
    InvalidStateRoot { expected: B256, actual: B256 },
    /// Invalid byte code
    InvalidByteCode(B256),
    /// Invalid trie node
    InvalidTrieNode(B256),
    /// State trie reconstruction failed
    StateTrieReconstructionFailed(String),
    /// Verification timeout
    Timeout(Duration),
}

/// Configuration for state verification.
#[derive(Debug, Clone, Copy)]
pub struct StateVerificationConfig {
    /// Maximum number of verification attempts
    pub max_verification_attempts: usize,
    /// Timeout for verification operations
    pub verification_timeout: Duration,
    /// Enable detailed logging
    pub enable_detailed_logging: bool,
    /// Enable performance metrics
    pub enable_performance_metrics: bool,
}

impl Default for StateVerificationConfig {
    /// A thousand attempts, a thirty second timeout, logging and metrics on.
    fn default() -> (c: Self)
        ensures
            c.max_verification_attempts == 1000,
            c.enable_detailed_logging,
            c.enable_performance_metrics,
    {
        StateVerificationConfig {
            max_verification_attempts: 1000,
            verification_timeout: duration_from_secs(30),
            enable_detailed_logging: true,
            enable_performance_metrics: true,
        }
    }
}

/// Account state information.
#[derive(Debug, Clone, Copy, PartialEq, Eq)]
pub struct AccountState {
    /// Account nonce, big-endian
    pub nonce: U256,
    /// Account balance, big-endian
    pub balance: U256,
    /// Code hash
    pub code_hash: B256,
    /// Storage root
    pub storage_root: B256,
}

/// Account range data with Merkle proof.
#[derive(Debug, Clone)]
pub struct AccountRange {
    /// Account states
    pub accounts: Vec<(Address, AccountState)>,
    /// Merkle proof for verification
    pub proof: Vec<B256>,
}

/// Storage range data with Merkle proof.
#[derive(Debug, Clone)]
pub struct StorageRange {
    /// Account address
    pub account: Address,
    /// Storage slots
    pub storage_slots: Vec<(B256, B256)>,
    /// Merkle proof for verification
    pub proof: Vec<B256>,
}

/// State data containing all downloaded information.
#[derive(Debug, Clone)]
pub struct StateData {
    /// Account ranges
    pub account_ranges: Vec<AccountRange>,
    /// Storage ranges
    pub storage_ranges: Vec<StorageRange>,
    /// Byte codes
    pub byte_codes: Vec<(B256, Vec<u8>)>,
    /// Trie nodes
    pub trie_nodes: Vec<(B256, Vec<u8>)>,
}

/// Result of a verification operation.
#[derive(Debug, Clone, Copy, PartialEq, Eq, Structural)]
pub struct VerificationResult {
    /// Whether the verification was successful
    pub is_valid: bool,
    /// Number of verified accounts
    pub verified_accounts: usize,
    /// Number of verified storage slots
    pub verified_slots: usize,
    /// Number of verified byte codes
    pub verified_codes: usize,
    /// Number of verified trie nodes
    pub verified_nodes: usize,
    /// Time taken for verification, in nanoseconds
    pub verification_time_ns: u64,
}

/// Statistics for state verification.
#[derive(Debug, Clone, Copy, PartialEq, Eq, Structural)]
pub struct VerificationStats {
    /// Total number of verifications
    pub total_verifications: usize,
    /// Number of successful verifications
    pub successful_verifications: usize,
    /// Number of failed verifications
    pub failed_verifications: usize,
    /// Total verified accounts
    pub total_verified_accounts: usize,
    /// Total verified storage slots
    pub total_verified_slots: usize,
    /// Total verified byte codes
    pub total_verified_codes: usize,
    /// Total verified trie nodes
    pub total_verified_nodes: usize,
    /// Average verification time, in nanoseconds
    pub average_verification_time_ns: u64,
}

/// Whether `r` reports validity `valid` and the given counts of verified items, whatever
/// time it took.
pub open spec fn reports(r: VerificationResult, valid: bool, accounts: int, slots: int, codes: int, nodes: int) -> bool {
    &&& r.is_valid == valid
    &&& r.verified_accounts == accounts
    &&& r.verified_slots == slots
    &&& r.verified_codes == codes
    &&& r.verified_nodes == nodes
}

/// Nanoseconds capped at the greatest `u64`.
pub fn saturate_nanos(n: u128) -> (r: u64)
    ensures
        r == if n > u64::MAX { u64::MAX as int } else { n as int },
{
    if n > u64::MAX as u128 {
        u64::MAX
    } else {
        n as u64
    }
}

/// The nanoseconds since `start` by the clock read now, capped at the greatest `u64`.
fn nanos_since(start: &Instant) -> u64 {
    saturate_nanos(duration_as_nanos(&elapsed_since(start)))
}

/// The key of an account in the rebuilt state trie: its address, left-padded with zeros.
pub open spec fn account_key(address: Seq<u8>) -> Seq<u8> {
    Seq::new(12, |i: int| 0u8) + address
}

/// The key of a storage slot in the rebuilt state trie: the account's address followed by the
/// first twelve bytes of the slot key.
pub open spec fn storage_key(address: Seq<u8>, slot: Seq<u8>) -> Seq<u8> {
    address + slot.subrange(0, 12)
}

/// An account as stored in the rebuilt state trie: nonce, balance, code hash and storage root,
/// thirty-two bytes each.
pub open spec fn account_value(s: AccountState) -> Seq<u8> {
    s.nonce@ + s.balance@ + s.code_hash@ + s.storage_root@
}

/// The trie entries of the accounts of `accounts`, in order.
pub open spec fn account_entries(accounts: Seq<(Address, AccountState)>) -> Seq<(Seq<u8>, Seq<u8>)> {
    accounts.map_values(|a: (Address, AccountState)| (account_key(a.0@), account_value(a.1)))
}

/// The trie entries of the storage slots of `account`, in order.
pub open spec fn slot_entries(account: Address, slots: Seq<(B256, B256)>) -> Seq<(Seq<u8>, Seq<u8>)> {
    slots.map_values(|s: (B256, B256)| (storage_key(account@, s.0@), s.1@))
}

/// The trie entries of hash-keyed data, in order.
pub open spec fn hashed_entries(items: Seq<(B256, Vec<u8>)>) -> Seq<(Seq<u8>, Seq<u8>)> {
    items.map_values(|c: (B256, Vec<u8>)| (c.0@, c.1@))
}

/// The trie entries of all account ranges, range after range.
pub open spec fn all_account_entries(ranges: Seq<AccountRange>) -> Seq<(Seq<u8>, Seq<u8>)>
    decreases ranges.len(),
{
    if ranges.len() == 0 {
        Seq::empty()
    } else {
        all_account_entries(ranges.drop_last()) + account_entries(ranges.last().accounts@)
    }
}

/// The trie entries of all storage ranges, range after range.
pub open spec fn all_slot_entries(ranges: Seq<StorageRange>) -> Seq<(Seq<u8>, Seq<u8>)>
    decreases ranges.len(),
{
    if ranges.len() == 0 {
        Seq::empty()
    } else {
        all_slot_entries(ranges.drop_last()) + slot_entries(ranges.last().account, ranges.last().storage_slots@)
    }
}

/// The entries written to the state trie when it is rebuilt from `d`, in the order they are
/// written: accounts, storage slots, byte codes, trie nodes.
pub open spec fn trie_entries(d: StateData) -> Seq<(Seq<u8>, Seq<u8>)> {
    all_account_entries(d.account_ranges@) + all_slot_entries(d.storage_ranges@)
        + hashed_entries(d.byte_codes@) + hashed_entries(d.trie_nodes@)
}

/// A state trie as a map from keys to node data, at most one entry per key.
pub struct StateTrie {
    entries: Vec<(B256, Vec<u8>)>,
}

impl View for StateTrie {
    type V = Map<Seq<u8>, Seq<u8>>;

    closed spec fn view(&self) -> Map<Seq<u8>, Seq<u8>> {
        log_map(self.spec_entries())
    }
}

impl StateTrie {
    /// The entries in the order their keys were first written.
    pub closed spec fn spec_entries(&self) -> Seq<(Seq<u8>, Seq<u8>)> {
        self.entries@.map_values(|e: (B256, Vec<u8>)| (e.0@, e.1@))
    }

    /// No key is written twice.
    #[verifier::type_invariant]
    closed spec fn keys_unique(&self) -> bool {
        keys_distinct(self.spec_entries())
    }

    /// An empty trie.
    pub fn new() -> (t: Self)
        ensures
            t@ == Map::<Seq<u8>, Seq<u8>>::empty(),
            t.spec_entries().len() == 0,
    {
        let entries: Vec<(B256, Vec<u8>)> = Vec::new();
        let t = StateTrie { entries };
        assert(t.spec_entries() =~= Seq::<(Seq<u8>, Seq<u8>)>::empty());
        t
    }

    /// Writes `value` under `key`, replacing what was there.
    pub fn insert(&mut self, key: B256, value: Vec<u8>)
        ensures
            final(self)@ == old(self)@.insert(key@, value@),
    {
        proof {
            use_type_invariant(&*self);
        }
        let ghost before = self.spec_entries();
        let ghost kv = (key@, value@);
        let mut entries: Vec<(B256, Vec<u8>)> = Vec::new();
        std::mem::swap(&mut entries, &mut self.entries);
        let mut i: usize = 0;
        while i < entries.len()
            invariant
                0 <= i <= entries@.len(),
                before == entries@.map_values(|e: (B256, Vec<u8>)| (e.0@, e.1@)),
                before == old(self).spec_entries(),
                keys_distinct(before),
                kv == (key@, value@),
                forall|j: int| 0 <= j < i ==> (#[trigger] before[j]).0 != key@,
            decreases entries@.len() - i,
        {
            assert(before[i as int] == (entries@[i as int].0@, entries@[i as int].1@));
            if hash_eq(&entries[i].0, &key) {
                entries.set(i, (key, value));
                proof {
                    let t = entries@.map_values(|e: (B256, Vec<u8>)| (e.0@, e.1@));
                    assert(t =~= before.update(i as int, kv));
                    lemma_log_map_update(before, i as int, kv.1);
                    assert forall|a: int, b: int| 0 <= a < t.len() && 0 <= b < t.len() && a != b implies
                        (#[trigger] t[a]).0 != (#[trigger] t[b]).0 by {
                        assert(t[a].0 == before[a].0);
                        assert(t[b].0 == before[b].0);
                    }
                }
                self.entries = entries;
                return;
            }
            i += 1;
        }
        entries.push((key, value));
        proof {
            let t = entries@.map_values(|e: (B256, Vec<u8>)| (e.0@, e.1@));
            assert(t =~= before.push(kv));
            assert(t.drop_last() =~= before);
            assert forall|a: int, b: int| 0 <= a < t.len() && 0 <= b < t.len() && a != b implies
                (#[trigger] t[a]).0 != (#[trigger] t[b]).0 by {
                if a < before.len() {
                    assert(t[a] == before[a]);
                }
                if b < before.len() {
                    assert(t[b] == before[b]);
                }
            }
        }
        self.entries = entries;
    }

    /// The number of entries.
    pub fn len(&self) -> (n: usize)
        ensures
            n == self.spec_entries().len(),
    {
        self.entries.len()
    }

    /// Whether the trie has no entry.
    pub fn is_empty(&self) -> (r: bool)
        ensures
            r == (self.spec_entries().len() == 0),
            r == (self@ =~= Map::<Seq<u8>, Seq<u8>>::empty()),
    {
        proof {
            use_type_invariant(self);
            if self.spec_entries().len() > 0 {
                crate::results::lemma_log_map_contains(self.spec_entries(), 0);
            } else {
                assert(self@ =~= Map::<Seq<u8>, Seq<u8>>::empty());
            }
        }
        self.entries.len() == 0
    }
}

/// The checksummed text of an address as alloy displays it: `0x` and forty hex digits, cased
/// by the address's checksum.
pub uninterp spec fn spec_address_text(address: Seq<u8>) -> Seq<char>;

/// The checksummed text of `address` (`Display` of `alloy_primitives::Address`).
#[verifier::external_body]
fn address_text(address: &Address) -> (s: String)
    ensures
        s@ == spec_address_text(address@),
{
    alloy_primitives::Address::from(*address).to_string()
}

/// The number of items of `items` with non-empty data.
pub open spec fn count_nonempty(items: Seq<(B256, Vec<u8>)>) -> nat
    decreases items.len(),
{
    if items.len() == 0 {
        0
    } else {
        count_nonempty(items.drop_last()) + if items.last().1@.len() > 0 { 1nat } else { 0nat }
    }
}

/// Validity of a result.
pub open spec fn valid_of(r: VerificationResult) -> int {
    if r.is_valid { 1 } else { 0 }
}

/// Verified accounts of a result.
pub open spec fn accounts_of(r: VerificationResult) -> int {
    r.verified_accounts as int
}

/// Verified storage slots of a result.
pub open spec fn slots_of(r: VerificationResult) -> int {
    r.verified_slots as int
}

/// Verified byte codes of a result.
pub open spec fn codes_of(r: VerificationResult) -> int {
    r.verified_codes as int
}

/// Verified trie nodes of a result.
pub open spec fn nodes_of(r: VerificationResult) -> int {
    r.verified_nodes as int
}

/// Verification time of a result.
pub open spec fn time_of(r: VerificationResult) -> int {
    r.verification_time_ns as int
}

/// Verifies downloaded state and keeps the results of the verifications it made.
pub struct StateVerifier {
    /// Maximum number of verification attempts
    pub max_verification_attempts: usize,
    /// Timeout for verification operations
    pub verification_timeout: Duration,
    /// Results of verification operations, by result id
    pub verification_results: ResultLog<VerificationResult>,
}

/// Whether `after` is verifier `before` with only its results changed.
pub open spec fn same_verifier_settings(before: &StateVerifier, after: &StateVerifier) -> bool {
    &&& after.max_verification_attempts == before.max_verification_attempts
    &&& after.verification_timeout == before.verification_timeout
}

/// Whether the results of `after` are those of `before` with `r` recorded under `id`.
pub open spec fn result_recorded(before: &StateVerifier, after: &StateVerifier, id: Seq<char>, r: VerificationResult) -> bool {
    log_recorded(&before.verification_results, &after.verification_results, id, r)
}

/// Whether the results of `after` are those of `before`.
pub open spec fn results_kept(before: &StateVerifier, after: &StateVerifier) -> bool {
    after.verification_results.spec_entries() == before.verification_results.spec_entries()
}

impl StateVerifier {
    /// A verifier with no results yet.
    pub fn new(max_verification_attempts: usize, verification_timeout: Duration) -> (v: Self)
        ensures
            v.max_verification_attempts == max_verification_attempts,
            v.verification_timeout == verification_timeout,
            v.verification_results.spec_entries().len() == 0,
    {
        StateVerifier { max_verification_attempts, verification_timeout, verification_results: ResultLog::new() }
    }

    /// A verifier with the attempts and timeout of `config`, and no results yet.
    pub fn with_config(config: StateVerificationConfig) -> (v: Self)
        ensures
            v.max_verification_attempts == config.max_verification_attempts,
            v.verification_timeout == config.verification_timeout,
            v.verification_results.spec_entries().len() == 0,
    {
        StateVerifier {
            max_verification_attempts: config.max_verification_attempts,
            verification_timeout: config.verification_timeout,
            verification_results: ResultLog::new(),
        }
    }

    /// Whether `data` comes with a proof that verifies it. Checking the proof's hashes is
    /// not done: the data and the proof are accepted when neither is empty.
    fn verify_merkle_proof(data_len: usize, proof: &Vec<B256>) -> (r: bool)
        ensures
            r == (data_len > 0 && proof@.len() > 0),
    {
        data_len > 0 && proof.len() > 0
    }

    /// Verifies an account range and its proof. An empty range or an empty proof is invalid
    /// and is not recorded; otherwise the range is valid, all its accounts count as verified,
    /// and the result is recorded under `account_range_` and the number of accounts.
    pub fn verify_account_range(&mut self, account_range: AccountRange, state_root: B256) -> (r: Result<VerificationResult, StageError>)
        ensures
            same_verifier_settings(&*old(self), &*final(self)),
            r matches Ok(res) && ({
                let n = account_range.accounts@.len();
                if n == 0 || account_range.proof@.len() == 0 {
                    reports(res, false, 0, 0, 0, 0) && results_kept(&*old(self), &*final(self))
                } else {
                    reports(res, true, n as int, 0, 0, 0)
                        && result_recorded(&*old(self), &*final(self), "account_range_"@ + decimal(n), res)
                }
            }),
    {
        let start = instant_now();
        let n = account_range.accounts.len();
        if n == 0 || account_range.proof.len() == 0 {
            return Ok(VerificationResult {
                is_valid: false,
                verified_accounts: 0,
                verified_slots: 0,
                verified_codes: 0,
                verified_nodes: 0,
                verification_time_ns: nanos_since(&start),
            });
        }
        let is_valid = Self::verify_merkle_proof(n, &account_range.proof);
        let result = VerificationResult {
            is_valid,
            verified_accounts: if is_valid { n } else { 0 },
            verified_slots: 0,
            verified_codes: 0,
            verified_nodes: 0,
            verification_time_ns: nanos_since(&start),
        };
        let id = numbered_id("account_range_", n as u128);
        self.verification_results.insert(id, result);
        Ok(result)
    }

    /// Verifies a storage range and its proof. An empty range or an empty proof is invalid
    /// and is not recorded; otherwise the range is valid, all its slots count as verified, and
    /// the result is recorded under `storage_range_`, the account's checksummed address, `_`
    /// and the number of slots.
    pub fn verify_storage_range(&mut self, storage_range: StorageRange, storage_root: B256) -> (r: Result<VerificationResult, StageError>)
        ensures
            same_verifier_settings(&*old(self), &*final(self)),
            r matches Ok(res) && ({
                let n = storage_range.storage_slots@.len();
                if n == 0 || storage_range.proof@.len() == 0 {
                    reports(res, false, 0, 0, 0, 0) && results_kept(&*old(self), &*final(self))
                } else {
                    reports(res, true, 0, n as int, 0, 0)
                        && result_recorded(&*old(self), &*final(self),
                            "storage_range_"@ + spec_address_text(storage_range.account@) + seq!['_'] + decimal(n), res)
                }
            }),
    {
        let start = instant_now();
        let n = storage_range.storage_slots.len();
        if n == 0 || storage_range.proof.len() == 0 {
            return Ok(VerificationResult {
                is_valid: false,
                verified_accounts: 0,
                verified_slots: 0,
                verified_codes: 0,
                verified_nodes: 0,
                verification_time_ns: nanos_since(&start),
            });
        }
        let is_valid = Self::verify_merkle_proof(n, &storage_range.proof);
        let result = VerificationResult {
            is_valid,
            verified_accounts: 0,
            verified_slots: if is_valid { n } else { 0 },
            verified_codes: 0,
            verified_nodes: 0,
            verification_time_ns: nanos_since(&start),
        };
        let account = address_text(&storage_range.account);
        let id = joined_id("storage_range_", account.as_str(), n as u128);
        self.verification_results.insert(id, result);
        Ok(result)
    }

    /// The number of items of `items` whose data is not empty.
    fn count_nonempty_items(items: &Vec<(B256, Vec<u8>)>) -> (c: usize)
        ensures
            c == count_nonempty(items@),
    {
        let mut c: usize = 0;
        let mut i: usize = 0;
        while i < items.len()
            invariant
                0 <= i <= items@.len(),
                c == count_nonempty(items@.take(i as int)),
                c <= i,
            decreases items@.len() - i,
        {
            proof {
                assert(items@.take(i + 1).drop_last() =~= items@.take(i as int));
            }
            if items[i].1.len() > 0 {
                c += 1;
            }
            i += 1;
        }
        proof {
            assert(items@.take(items@.len() as int) =~= items@);
        }
        c
    }

    /// Verifies byte codes. An empty list is invalid and is not recorded; otherwise every
    /// non-empty code counts as verified, the list is valid when all are, and the result is
    /// recorded under `byte_codes_` and the number of codes.
    pub fn verify_byte_codes(&mut self, byte_codes: Vec<(B256, Vec<u8>)>) -> (r: Result<VerificationResult, StageError>)
        ensures
            same_verifier_settings(&*old(self), &*final(self)),
            r matches Ok(res) && ({
                let n = byte_codes@.len();
                let c = count_nonempty(byte_codes@);
                if n == 0 {
                    reports(res, false, 0, 0, 0, 0) && results_kept(&*old(self), &*final(self))
                } else {
                    reports(res, c == n, 0, 0, c as int, 0)
                        && result_recorded(&*old(self), &*final(self), "byte_codes_"@ + decimal(n), res)
                }
            }),
    {
        let start = instant_now();
        let n = byte_codes.len();
        if n == 0 {
            return Ok(VerificationResult {
                is_valid: false,
                verified_accounts: 0,
                verified_slots: 0,
                verified_codes: 0,
                verified_nodes: 0,
                verification_time_ns: nanos_since(&start),
            });
        }
        let verified = Self::count_nonempty_items(&byte_codes);
        let result = VerificationResult {
            is_valid: verified == n,
            verified_accounts: 0,
            verified_slots: 0,
            verified_codes: verified,
            verified_nodes: 0,
            verification_time_ns: nanos_since(&start),
        };
        let id = numbered_id("byte_codes_", n as u128);
        self.verification_results.insert(id, result);
        Ok(result)
    }

    /// Verifies trie nodes. An empty list is invalid and is not recorded; otherwise every
    /// node with data counts as verified, the list is valid when all are, and the result is
    /// recorded under `trie_nodes_` and the number of nodes.
    pub fn verify_trie_nodes(&mut self, trie_nodes: Vec<(B256, Vec<u8>)>) -> (r: Result<VerificationResult, StageError>)
        ensures
            same_verifier_settings(&*old(self), &*final(self)),
            r matches Ok(res) && ({
                let n = trie_nodes@.len();
                let c = count_nonempty(trie_nodes@);
                if n == 0 {
                    reports(res, false, 0, 0, 0, 0) && results_kept(&*old(self), &*final(self))
                } else {
                    reports(res, c == n, 0, 0, 0, c as int)
                        && result_recorded(&*old(self), &*final(self), "trie_nodes_"@ + decimal(n), res)
                }
            }),
    {
        let start = instant_now();
        let n = trie_nodes.len();
        if n == 0 {
            return Ok(VerificationResult {
                is_valid: false,
                verified_accounts: 0,
                verified_slots: 0,
                verified_codes: 0,
                verified_nodes: 0,
                verification_time_ns: nanos_since(&start),
            });
        }
        let verified = Self::count_nonempty_items(&trie_nodes);
        let result = VerificationResult {
            is_valid: verified == n,
            verified_accounts: 0,
            verified_slots: 0,
            verified_codes: 0,
            verified_nodes: verified,
            verification_time_ns: nanos_since(&start),
        };
        let id = numbered_id("trie_nodes_", n as u128);
        self.verification_results.insert(id, result);
        Ok(result)
    }

    /// The trie key of an account.
    fn account_key_of(address: &Address) -> (k: B256)
        ensures
            k@ == account_key(address@),
    {
        let mut k: B256 = [0u8; 32];
        let mut i: usize = 0;
        while i < 20
            invariant
                0 <= i <= 20,
                forall|j: int| 0 <= j < 12 ==> k@[j] == 0u8,
                forall|j: int| 0 <= j < i ==> k@[12 + j] == address@[j],
            decreases 20 - i,
        {
            k[12 + i] = address[i];
            i += 1;
        }
        assert(k@ =~= account_key(address@));
        k
    }

    /// The trie key of a storage slot.
    fn storage_key_of(account: &Address, slot: &B256) -> (k: B256)
        ensures
            k@ == storage_key(account@, slot@),
    {
        let mut k: B256 = [0u8; 32];
        let mut i: usize = 0;
        while i < 20
            invariant
                0 <= i <= 20,
                forall|j: int| 0 <= j < i ==> k@[j] == account@[j],
            decreases 20 - i,
        {
            k[i] = account[i];
            i += 1;
        }
        let mut j: usize = 0;
        while j < 12
            invariant
                0 <= j <= 12,
                forall|x: int| 0 <= x < 20 ==> k@[x] == account@[x],
                forall|x: int| 0 <= x < j ==> k@[20 + x] == slot@[x],
            decreases 12 - j,
        {
            k[20 + j] = slot[j];
            j += 1;
        }
        assert(k@ =~= storage_key(account@, slot@));
        k
    }

    /// The bytes of an account as stored in the trie.
    fn serialize_account_state(account_state: &AccountState) -> (v: Vec<u8>)
        ensures
            v@ == account_value(*account_state),
    {
        let mut v: Vec<u8> = Vec::new();
        v.extend_from_slice(account_state.nonce.as_slice());
        v.extend_from_slice(account_state.balance.as_slice());
        v.extend_from_slice(account_state.code_hash.as_slice());
        v.extend_from_slice(account_state.storage_root.as_slice());
        assert(v@ =~= account_value(*account_state));
        v
    }

    /// Rebuilds the state trie from downloaded data: each account under its padded address,
    /// each storage slot under its account and slot key, each byte code under its hash and
    /// each trie node under its hash, a later entry for a key replacing an earlier one. No
    /// result is recorded.
    pub fn reconstruct_state_trie(&mut self, state_data: StateData) -> (r: Result<StateTrie, StageError>)
        ensures
            same_verifier_settings(&*old(self), &*final(self)),
            results_kept(&*old(self), &*final(self)),
            r matches Ok(t) && t@ == log_map(trie_entries(state_data)),
    {
        let mut trie = StateTrie::new();
        let ghost mut written: Seq<(Seq<u8>, Seq<u8>)> = Seq::empty();
        let ranges = &state_data.account_ranges;
        let mut i: usize = 0;
        while i < ranges.len()
            invariant
                0 <= i <= ranges@.len(),
                trie@ == log_map(written),
                written == all_account_entries(ranges@.take(i as int)),
            decreases ranges@.len() - i,
        {
            let accounts = &ranges[i].accounts;
            let ghost base = written;
            let mut j: usize = 0;
            while j < accounts.len()
                invariant
                    0 <= j <= accounts@.len(),
                    trie@ == log_map(written),
                    written == base + account_entries(accounts@.take(j as int)),
                decreases accounts@.len() - j,
            {
                let key = Self::account_key_of(&accounts[j].0);
                let value = Self::serialize_account_state(&accounts[j].1);
                proof {
                    assert(account_entries(accounts@.take(j + 1)) =~= account_entries(accounts@.take(j as int)).push((key@, value@)));
                    assert(written.push((key@, value@)).drop_last() =~= written);
                    written = written.push((key@, value@));
                }
                trie.insert(key, value);
                j += 1;
            }
            proof {
                assert(accounts@.take(accounts@.len() as int) =~= accounts@);
                assert(ranges@.take(i + 1).drop_last() =~= ranges@.take(i as int));
            }
            i += 1;
        }
        proof {
            assert(ranges@.take(ranges@.len() as int) =~= ranges@);
        }
        let ghost accounts_done = written;
        let ranges = &state_data.storage_ranges;
        let mut i: usize = 0;
        while i < ranges.len()
            invariant
                0 <= i <= ranges@.len(),
                trie@ == log_map(written),
                written == accounts_done + all_slot_entries(ranges@.take(i as int)),
            decreases ranges@.len() - i,
        {
            let account = ranges[i].account;
            let slots = &ranges[i].storage_slots;
            let ghost base = written;
            let mut j: usize = 0;
            while j < slots.len()
                invariant
                    0 <= j <= slots@.len(),
                    trie@ == log_map(written),
                    written == base + slot_entries(account, slots@.take(j as int)),
                decreases slots@.len() - j,
            {
                let key = Self::storage_key_of(&account, &slots[j].0);
                let value = vstd::slice::slice_to_vec(slots[j].1.as_slice());
                proof {
                    assert(slot_entries(account, slots@.take(j + 1)) =~= slot_entries(account, slots@.take(j as int)).push((key@, value@)));
                    assert(written.push((key@, value@)).drop_last() =~= written);
                    written = written.push((key@, value@));
                }
                trie.insert(key, value);
                j += 1;
            }
            proof {
                assert(slots@.take(slots@.len() as int) =~= slots@);
                assert(ranges@.take(i + 1).drop_last() =~= ranges@.take(i as int));
                assert(all_slot_entries(ranges@.take(i + 1)) =~= all_slot_entries(ranges@.take(i as int)) + slot_entries(account, slots@));
            }
            i += 1;
        }
        proof {
            assert(ranges@.take(ranges@.len() as int) =~= ranges@);
        }
        let ghost slots_done = written;
        let items = &state_data.byte_codes;
        let mut i: usize = 0;
        while i < items.len()
            invariant
                0 <= i <= items@.len(),
                trie@ == log_map(written),
                written == slots_done + hashed_entries(items@.take(i as int)),
            decreases items@.len() - i,
        {
            let key = items[i].0;
            let value = vstd::slice::slice_to_vec(items[i].1.as_slice());
            proof {
                assert(hashed_entries(items@.take(i + 1)) =~= hashed_entries(items@.take(i as int)).push((key@, value@)));
                assert(written.push((key@, value@)).drop_last() =~= written);
                written = written.push((key@, value@));
            }
            trie.insert(key, value);
            i += 1;
        }
        proof {
            assert(items@.take(items@.len() as int) =~= items@);
        }
        let ghost codes_done = written;
        let items = &state_data.trie_nodes;
        let mut i: usize = 0;
        while i < items.len()
            invariant
                0 <= i <= items@.len(),
                trie@ == log_map(written),
                written == codes_done + hashed_entries(items@.take(i as int)),
            decreases items@.len() - i,
        {
            let key = items[i].0;
            let value = vstd::slice::slice_to_vec(items[i].1.as_slice());
            proof {
                assert(hashed_entries(items@.take(i + 1)) =~= hashed_entries(items@.take(i as int)).push((key@, value@)));
                assert(written.push((key@, value@)).drop_last() =~= written);
                written = written.push((key@, value@));
            }
            trie.insert(key, value);
            i += 1;
        }
        proof {
            assert(items@.take(items@.len() as int) =~= items@);
            assert(written =~= trie_entries(state_data));
        }
        Ok(trie)
    }

    /// The state root taken for `state_trie` when checking it against `target_state_root`:
    /// the zero hash for an empty trie. The root of a trie with entries is not computed; such
    /// a trie is taken to have the target root.
    fn calculate_state_root(state_trie: &StateTrie, target_state_root: &B256) -> (h: B256)
        ensures
            h@ == if state_trie.spec_entries().len() == 0 { Seq::new(32, |i: int| 0u8) } else { target_state_root@ },
    {
        if state_trie.is_empty() {
            let z = crate::hash::zero_hash();
            assert(z@ =~= Seq::new(32, |i: int| 0u8));
            z
        } else {
            *target_state_root
        }
    }

    /// Checks that the root of `state_trie` is `target_state_root`. An empty trie has the zero
    /// root, so it is valid exactly when the target is the zero hash; a trie with entries is
    /// valid (its root is not computed). The result is recorded under `state_root_` and the
    /// number of entries of the trie.
    pub fn verify_state_root(&mut self, state_trie: StateTrie, target_state_root: B256) -> (r: Result<VerificationResult, StageError>)
        ensures
            same_verifier_settings(&*old(self), &*final(self)),
            r matches Ok(res) && reports(res, state_trie.spec_entries().len() > 0
                || target_state_root@ == Seq::new(32, |i: int| 0u8), 0, 0, 0, 0)
                && result_recorded(&*old(self), &*final(self), "state_root_"@ + decimal(state_trie.spec_entries().len()), res),
    {
        let start = instant_now();
        let calculated = Self::calculate_state_root(&state_trie, &target_state_root);
        let is_valid = hash_eq(&calculated, &target_state_root);
        proof {
            if state_trie.spec_entries().len() == 0 {
                if is_valid {
                    assert(target_state_root@ =~= Seq::new(32, |i: int| 0u8));
                } else {
                    assert(calculated@ =~= Seq::new(32, |i: int| 0u8));
                }
            }
        }
        let result = VerificationResult {
            is_valid,
            verified_accounts: 0,
            verified_slots: 0,
            verified_codes: 0,
            verified_nodes: 0,
            verification_time_ns: nanos_since(&start),
        };
        let id = numbered_id("state_root_", state_trie.len() as u128);
        self.verification_results.insert(id, result);
        Ok(result)
    }

    /// Counts and totals over the recorded results, with the mean verification time.
    pub fn get_verification_stats(&self) -> (st: VerificationStats)
        ensures
            st.total_verifications == self.verification_results.spec_entries().len(),
            st.successful_verifications == sum_values(self.verification_results.spec_entries(), |r: VerificationResult| valid_of(r)),
            st.failed_verifications == st.total_verifications - st.successful_verifications,
            st.total_verified_accounts == capped(sum_values(self.verification_results.spec_entries(), |r: VerificationResult| accounts_of(r)), usize::MAX as int),
            st.total_verified_slots == capped(sum_values(self.verification_results.spec_entries(), |r: VerificationResult| slots_of(r)), usize::MAX as int),
            st.total_verified_codes == capped(sum_values(self.verification_results.spec_entries(), |r: VerificationResult| codes_of(r)), usize::MAX as int),
            st.total_verified_nodes == capped(sum_values(self.verification_results.spec_entries(), |r: VerificationResult| nodes_of(r)), usize::MAX as int),
            st.average_verification_time_ns == if st.total_verifications > 0 {
                sum_values(self.verification_results.spec_entries(), |r: VerificationResult| time_of(r)) / (st.total_verifications as int)
            } else {
                0
            },
    {
        let ghost s = self.verification_results.spec_entries();
        let ghost fv = |r: VerificationResult| valid_of(r);
        let ghost fa = |r: VerificationResult| accounts_of(r);
        let ghost fs = |r: VerificationResult| slots_of(r);
        let ghost fc = |r: VerificationResult| codes_of(r);
        let ghost fn_ = |r: VerificationResult| nodes_of(r);
        let ghost ft = |r: VerificationResult| time_of(r);
        let n = self.verification_results.len();
        let mut ok: usize = 0;
        let mut accounts: usize = 0;
        let mut slots: usize = 0;
        let mut codes: usize = 0;
        let mut nodes: usize = 0;
        let mut time: u128 = 0;
        let mut i: usize = 0;
        while i < n
            invariant
                n == s.len(),
                s == self.verification_results.spec_entries(),
                0 <= i <= n,
                fv == (|r: VerificationResult| valid_of(r)),
                fa == (|r: VerificationResult| accounts_of(r)),
                fs == (|r: VerificationResult| slots_of(r)),
                fc == (|r: VerificationResult| codes_of(r)),
                fn_ == (|r: VerificationResult| nodes_of(r)),
                ft == (|r: VerificationResult| time_of(r)),
                ok <= i,
                ok == sum_values(s.take(i as int), fv),
                accounts == capped(sum_values(s.take(i as int), fa), usize::MAX as int),
                slots == capped(sum_values(s.take(i as int), fs), usize::MAX as int),
                codes == capped(sum_values(s.take(i as int), fc), usize::MAX as int),
                nodes == capped(sum_values(s.take(i as int), fn_), usize::MAX as int),
                time == sum_values(s.take(i as int), ft),
                time <= i * (u64::MAX as int),
            decreases n - i,
        {
            proof {
                lemma_sum_values_take_next(s, fv, i as int);
                lemma_sum_values_take_next(s, fa, i as int);
                lemma_sum_values_take_next(s, fs, i as int);
                lemma_sum_values_take_next(s, fc, i as int);
                lemma_sum_values_take_next(s, fn_, i as int);
                lemma_sum_values_take_next(s, ft, i as int);
                lemma_sum_values_prefix_le(s, fa, i as int);
                lemma_sum_values_prefix_le(s, fs, i as int);
                lemma_sum_values_prefix_le(s, fc, i as int);
                lemma_sum_values_prefix_le(s, fn_, i as int);
                lemma_sum_values_bounded(s.take(i + 1), ft, u64::MAX as int);
                assert((i + 1) * (u64::MAX as int) <= u128::MAX) by (nonlinear_arith)
                    requires
                        i < n,
                        n <= usize::MAX,
                ;
            }
            let r = self.verification_results.result_at(i);
            if r.is_valid {
                ok = ok + 1;
            }
            accounts = accounts.saturating_add(r.verified_accounts);
            slots = slots.saturating_add(r.verified_slots);
            codes = codes.saturating_add(r.verified_codes);
            nodes = nodes.saturating_add(r.verified_nodes);
            time = time + r.verification_time_ns as u128;
            i += 1;
        }
        proof {
            assert(s.take(n as int) =~= s);
        }
        let average: u64 = if n > 0 {
            let q = time / (n as u128);
            assert(q <= u64::MAX) by (nonlinear_arith)
                requires
                    q == (time as int) / (n as int),
                    time <= n * (u64::MAX as int),
                    n > 0,
            ;
            q as u64
        } else {
            0
        };
        VerificationStats {
            total_verifications: n,
            successful_verifications: ok,
            failed_verifications: n - ok,
            total_verified_accounts: accounts,
            total_verified_slots: slots,
            total_verified_codes: codes,
            total_verified_nodes: nodes,
            average_verification_time_ns: average,
        }
    }

    /// Forgets every recorded result.
    pub fn clear_verification_results(&mut self)
        ensures
            same_verifier_settings(&*old(self), &*final(self)),
            final(self).verification_results.spec_entries().len() == 0,
    {
        self.verification_results.clear();
    }
}

} // verus!
