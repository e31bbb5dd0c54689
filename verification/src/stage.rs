//! The snap sync stage: walking the account key space in ranges, turning
//! ranges into requests, tracking requests in flight, and checking and
//! decoding the account ranges that come back.

use vstd::prelude::*;
use crate::sets::StageKind;
use std::sync::Arc;
use std::time::Instant;
use crate::clock::{instant_now, duration_between, duration_as_nanos};
use crate::config::SnapSyncConfig;
use crate::error::StageError;
use crate::hash::{
    B256, be_value, max_hash_value, pow256, lemma_be_value_update, lemma_be_value_bound,
    lemma_be_value_injective, max_hash, zero_hash, hash_le, hash_lt,
};
use crate::messages::{AccountData, AccountRangeMessage, GetAccountRangeMessage};
use crate::stage_api::{ExecInput, ExecOutput, StageCheckpoint, UnwindInput, UnwindOutput};
use crate::trie::{
    TrieAccount, U256, decode_trie_account, spec_decode_trie_account, verify_inclusion_proof,
    spec_inclusion_proof_verifies, proof_walk_bound, proof_walk_within_key,
};
use crate::messages::byte_lists;

verus! {

/// The hash `current + (range_size mod 256)` read big-endian, as the key walk computes it:
/// the step is truncated to its low byte, a carry out of the top byte saturates at the
/// greatest hash, and a step whose low byte is zero makes no progress.
pub open spec fn next_hash_spec(current: Seq<u8>, range_size: u64) -> Result<nat, StageError> {
    next_value_spec(be_value(current), range_size)
}

/// [`next_hash_spec`] on the integer value of the hash.
pub open spec fn next_value_spec(v: nat, range_size: u64) -> Result<nat, StageError> {
    if range_size == 0 {
        Err(StageError::ZeroRangeSize)
    } else if v + (range_size % 256) as nat > max_hash_value() {
        Ok(max_hash_value())
    } else if range_size % 256 == 0 {
        Err(StageError::NoProgress)
    } else {
        Ok(v + (range_size % 256) as nat)
    }
}

/// Advances `current` through the key space by the low byte of `range_size`, carrying from
/// the last byte towards the first.
pub fn calculate_next_hash_in_lexicographic_order(current: &B256, range_size: u64) -> (r: Result<
    B256,
    StageError,
>)
    ensures
        match (r, next_hash_spec(current@, range_size)) {
            (Ok(h), Ok(v)) => be_value(h@) == v,
            (Err(e), Err(f)) => e == f,
            _ => false,
        },
{
    if range_size == 0 {
        return Err(StageError::ZeroRangeSize);
    }
    let mut h: B256 = *current;
    let mut carry: u16 = (range_size % 256) as u16;
    let mut i: usize = 32;
    let ghost d: nat = (range_size % 256) as nat;
    proof {
        assert(pow256(0) == 1);
        assert(be_value(h@) + carry * pow256(0) == be_value(current@) + d);
    }
    while i > 0
        invariant_except_break
            0 <= i <= 32,
            carry <= 255,
            i < 32 ==> carry <= 1,
            be_value(h@) + carry * pow256((32 - i) as nat) == be_value(current@) + d,
            d == range_size % 256,
            h@.len() == 32,
            i == 32 ==> carry == d && h@ == current@,
        ensures
            carry <= 1,
            be_value(h@) + carry * pow256((32 - i) as nat) == be_value(current@) + d,
            carry == 1 ==> i == 0,
            0 <= i <= 32,
            h@.len() == 32,
            d == range_size % 256,
            i == 32 ==> carry == 0 && h@ == current@,
        decreases i,
    {
        let ghost old_h = h@;
        let sum: u16 = h[i - 1] as u16 + carry;
        let b: u8 = (sum % 256) as u8;
        h[i - 1] = b;
        proof {
            lemma_be_value_update(old_h, i - 1, b);
            assert(h@ == old_h.update(i - 1, b));
            let p = pow256((32 - i) as nat);
            let ob = old_h[i - 1];
            assert(pow256((33 - i) as nat) == 256 * p);
            assert((sum % 256) * p + (sum / 256) * (256 * p) == sum * p) by (nonlinear_arith);
            assert(sum * p == ob * p + carry * p) by (nonlinear_arith)
                requires
                    sum == ob + carry,
            ;
            assert(be_value(h@) + (sum / 256) * pow256((33 - i) as nat) == be_value(old_h) + carry * p);
        }
        carry = sum / 256;
        i -= 1;
        if carry == 0 {
            proof {
                if i == 31 && d == 0 {
                    assert(old_h[31] == b);
                    assert(h@ =~= current@);
                }
            }
            break;
        }
    }
    if carry > 0 {
        proof {
            lemma_be_value_bound(h@);
        }
        return Ok(max_hash());
    }
    proof {
        lemma_be_value_bound(h@);
    }
    if hash_le(&h, current) {
        return Err(StageError::NoProgress);
    }
    Ok(h)
}


/// The key-space step used by one range: a thousandth of the response size, clamped to
/// `[100, 10000]`.
pub open spec fn trie_range_size(max_response_bytes: u64) -> u64 {
    let estimated = max_response_bytes / 1000;
    let at_least = if estimated > 100 { estimated } else { 100 };
    if at_least < 10000 { at_least } else { 10000 }
}

/// The ranges one execution queues, starting at `cur` and taking at most `count` steps of
/// `size` through the key space, each range ending where the next begins; with the value the
/// walk stopped at.
pub open spec fn plan_ranges_spec(cur: nat, count: nat, size: u64) -> Result<(Seq<(nat, nat)>, nat), StageError>
    decreases count,
{
    if count == 0 || cur >= max_hash_value() {
        Ok((Seq::empty(), cur))
    } else {
        match next_value_spec(cur, size) {
            Err(e) => Err(e),
            Ok(n) => {
                let end = if n > max_hash_value() { max_hash_value() } else { n };
                match plan_ranges_spec(end, (count - 1) as nat, size) {
                    Err(e) => Err(e),
                    Ok((rest, fin)) => Ok((seq![(cur, end)] + rest, fin)),
                }
            },
        }
    }
}

/// Whether `ranges`, ending the walk at `fin`, tile the key space from `cur` in at most
/// `count` steps: the first range begins at `cur`, each range is non-empty, ends where the next
/// begins and does not pass the greatest key, the walk stops where the last range ends, and it
/// takes fewer than `count` steps only when it reached the greatest key.
pub open spec fn plan_tiles(cur: nat, count: nat, ranges: Seq<(nat, nat)>, fin: nat) -> bool {
    &&& ranges.len() <= count
    &&& fin <= max_hash_value()
    &&& ranges.len() == 0 ==> fin == cur
    &&& ranges.len() > 0 ==> ranges[0].0 == cur && ranges.last().1 == fin
    &&& forall|i: int| 0 <= i < ranges.len() ==> (#[trigger] ranges[i]).0 < ranges[i].1 <= max_hash_value()
    &&& forall|i: int| 0 <= i < ranges.len() - 1 ==> (#[trigger] ranges[i]).1 == ranges[i + 1].0
    &&& ranges.len() < count ==> fin == max_hash_value()
}

/// The ranges one execution plans tile the key space from where the walk starts, with no gap
/// and no overlap, and stop short of the asked number only at the greatest key.
pub proof fn lemma_plan_ranges_tile(cur: nat, count: nat, size: u64)
    requires
        cur <= max_hash_value(),
    ensures
        plan_ranges_spec(cur, count, size) matches Ok((ranges, fin)) ==> plan_tiles(cur, count, ranges, fin),
    decreases count,
{
    if count == 0 || cur >= max_hash_value() {
    } else {
        match next_value_spec(cur, size) {
            Err(e) => {},
            Ok(n) => {
                let end = if n > max_hash_value() { max_hash_value() } else { n };
                lemma_plan_ranges_tile(end, (count - 1) as nat, size);
                match plan_ranges_spec(end, (count - 1) as nat, size) {
                    Err(e) => {},
                    Ok((rest, fin)) => {
                        let ranges = seq![(cur, end)] + rest;
                        assert(ranges[0] == (cur, end));
                        assert forall|i: int| 0 <= i < ranges.len() implies (#[trigger] ranges[i]).0 < ranges[i].1 <= max_hash_value() by {
                            if i > 0 {
                                assert(ranges[i] == rest[i - 1]);
                            }
                        }
                        assert forall|i: int| 0 <= i < ranges.len() - 1 implies (#[trigger] ranges[i]).1 == ranges[i + 1].0 by {
                            assert(ranges[i + 1] == rest[i]);
                            if i > 0 {
                                assert(ranges[i] == rest[i - 1]);
                            }
                        }
                        if rest.len() > 0 {
                            assert(ranges.last() == rest.last());
                        }
                    },
                }
            },
        }
    }
}

/// The stage's view of the latest head header announced by the consensus engine.
#[derive(Debug, Clone, Copy, PartialEq, Eq)]
pub struct HeaderReceiver {
    /// State root of the latest head header.
    pub state_root: B256,
}

/// An account as stored in the hashed accounts table.
#[derive(Debug, Clone, Copy, PartialEq, Eq)]
pub struct Account {
    pub nonce: u64,
    pub balance: U256,
    pub bytecode_hash: Option<B256>,
}

/// An account to be written under its hashed address.
#[derive(Debug, Clone, Copy, PartialEq, Eq)]
pub struct HashedAccountEntry {
    pub hash: B256,
    pub account: Account,
}

/// The stored form of a decoded trie account.
pub open spec fn account_of(t: TrieAccount) -> Account {
    Account { nonce: t.nonce, balance: t.balance, bytecode_hash: Some(t.code_hash) }
}

/// The decoded entries of a list of accounts, `None` when one fails to decode.
pub open spec fn decode_accounts_spec(accounts: Seq<AccountData>) -> Option<Seq<HashedAccountEntry>>
    decreases accounts.len(),
{
    if accounts.len() == 0 {
        Some(Seq::empty())
    } else {
        match decode_accounts_spec(accounts.drop_last()) {
            None => None,
            Some(prefix) => match spec_decode_trie_account(accounts.last().body@) {
                None => None,
                Some(t) => Some(
                    prefix.push(HashedAccountEntry { hash: accounts.last().hash, account: account_of(t) }),
                ),
            },
        }
    }
}

/// Whether every account of a range is proven included under `root` by the range's proof.
pub open spec fn all_accounts_proven(root: B256, range: AccountRangeMessage) -> bool {
    forall|i: int|
        0 <= i < range.accounts@.len() ==> #[trigger] spec_inclusion_proof_verifies(
            root@,
            range.accounts@[i].hash@,
            range.accounts@[i].body@,
            range.proof.deep_view(),
        )
}

/// The outcome of checking the proof of an account range against the target state root: an
/// empty range or an empty proof passes, a missing root is an error, a proof that could walk
/// past the 64 nibbles of a key fails, and otherwise every account must be proven included.
pub open spec fn range_proof_spec(root: Option<B256>, range: AccountRangeMessage) -> Result<bool, StageError> {
    if range.accounts@.len() == 0 {
        Ok(true)
    } else if range.proof@.len() == 0 {
        Ok(true)
    } else {
        match root {
            None => Err(StageError::MissingTargetStateRoot),
            Some(r) => if proof_walk_bound(byte_lists(range.proof@)) > 64 {
                Err(StageError::ProofVerificationFailed)
            } else if all_accounts_proven(r, range) {
                Ok(true)
            } else {
                Err(StageError::ProofVerificationFailed)
            },
        }
    }
}

/// The entries written for a list of account ranges, each range checked and then decoded in
/// turn; the first failure is the result.
pub open spec fn process_ranges_spec(root: Option<B256>, ranges: Seq<AccountRangeMessage>) -> Result<Seq<HashedAccountEntry>, StageError>
    decreases ranges.len(),
{
    if ranges.len() == 0 {
        Ok(Seq::empty())
    } else {
        match process_ranges_spec(root, ranges.drop_last()) {
            Err(e) => Err(e),
            Ok(prefix) => match range_proof_spec(root, ranges.last()) {
                Err(e) => Err(e),
                Ok(_) => match decode_accounts_spec(ranges.last().accounts@) {
                    None => Err(StageError::AccountDecodeFailed),
                    Some(entries) => Ok(prefix + entries),
                },
            },
        }
    }
}

/// Whether queued ranges `q` are the planned ranges `plan` under `root`.
pub open spec fn queued_match(q: Seq<(B256, B256, B256)>, plan: Seq<(nat, nat)>, root: B256) -> bool {
    &&& q.len() == plan.len()
    &&& forall|j: int|
        0 <= j < q.len() ==> be_value((#[trigger] q[j]).0@) == plan[j].0 && be_value(q[j].1@)
            == plan[j].1 && q[j].2 == root
}

/// What one execution of the stage hands back: its output and the accounts to write.
#[derive(Debug, Clone)]
pub struct ExecStep {
    pub output: ExecOutput,
    pub accounts: Vec<HashedAccountEntry>,
}

/// How a poll of the stage begins.
#[derive(Debug, Clone)]
pub enum PollStart {
    /// The stage is ready without waiting (it is disabled).
    Ready,
    /// No target state root is known yet; the stage waits.
    Pending,
    /// These requests were created from the queued ranges and must be sent.
    Dispatch(Vec<GetAccountRangeMessage>),
}

/// Snap sync stage: downloads account ranges of the state trie from peers.
pub struct SnapSyncStage<C> {
    /// Configuration for the stage.
    pub config: SnapSyncConfig,
    /// Snap client that the stage's requests are sent through.
    pub snap_client: Arc<C>,
    /// The latest head header from the consensus engine, if subscribed.
    pub header_receiver: Option<HeaderReceiver>,
    /// Request ID counter for snap requests.
    pub request_id_counter: u64,
    /// Ids of requests in flight.
    pub pending_requests: Vec<u64>,
    /// Start times of tracked requests, by request id.
    pub request_start_times: Vec<(u64, Instant)>,
    /// Completed account ranges ready for processing.
    pub completed_ranges: Vec<AccountRangeMessage>,
    /// Ranges `(start, end, state_root)` waiting to become requests.
    pub queued_ranges: Vec<(B256, B256, B256)>,
}

impl<C> SnapSyncStage<C> {
    /// The target state root, from the latest head header.
    pub open spec fn spec_target_state_root(&self) -> Option<B256> {
        match self.header_receiver {
            Some(h) => Some(h.state_root),
            None => None,
        }
    }

    /// A stage with the given configuration and client, and no requests, ranges or header
    /// subscription.
    pub fn new(config: SnapSyncConfig, snap_client: Arc<C>) -> (s: Self)
        ensures
            s.config == config,
            s.snap_client == snap_client,
            s.header_receiver.is_none(),
            s.request_id_counter == 0,
            s.pending_requests@.len() == 0,
            s.request_start_times@.len() == 0,
            s.completed_ranges@.len() == 0,
            s.queued_ranges@.len() == 0,
    {
        SnapSyncStage {
            config,
            snap_client,
            header_receiver: None,
            request_id_counter: 0,
            pending_requests: Vec::new(),
            request_start_times: Vec::new(),
            completed_ranges: Vec::new(),
            queued_ranges: Vec::new(),
        }
    }

    /// The stage's identifier in the pipeline.
    pub fn id(&self) -> (k: StageKind)
        ensures
            k == StageKind::SnapSync,
    {
        StageKind::SnapSync
    }

    /// Subscribes the stage to head headers.
    pub fn with_header_receiver(self, receiver: HeaderReceiver) -> (s: Self)
        ensures
            s.header_receiver == Some(receiver),
            s.config == self.config,
            s.snap_client == self.snap_client,
            s.request_id_counter == self.request_id_counter,
            s.pending_requests@ == self.pending_requests@,
            s.request_start_times@ == self.request_start_times@,
            s.completed_ranges@ == self.completed_ranges@,
            s.queued_ranges@ == self.queued_ranges@,
    {
        let mut s = self;
        s.header_receiver = Some(receiver);
        s
    }

    /// The current target state root: the state root of the latest head header.
    pub fn get_target_state_root(&self) -> (r: Option<B256>)
        ensures
            r == self.spec_target_state_root(),
    {
        match &self.header_receiver {
            Some(h) => Some(h.state_root),
            None => None,
        }
    }

    /// Where the next key walk starts: the first key when no hashed account is stored, else the
    /// key after the last stored one (the greatest key stays where it is).
    pub fn get_next_sync_starting_point(
        &self,
        hashed_state_empty: bool,
        last_hashed_account: Option<B256>,
    ) -> (r: Result<B256, StageError>)
        ensures
            r is Ok,
            r matches Ok(h) ==> be_value(h@) == (if hashed_state_empty {
                0
            } else {
                let last = match last_hashed_account {
                    Some(a) => be_value(a@),
                    None => 0,
                };
                if last + 1 > max_hash_value() { max_hash_value() } else { last + 1 }
            }),
    {
        if hashed_state_empty {
            return Ok(zero_hash());
        }
        let last = match last_hashed_account {
            Some(a) => a,
            None => zero_hash(),
        };
        let next_start = calculate_next_hash_in_lexicographic_order(&last, 1)?;
        let max = max_hash();
        if hash_le(&max, &next_start) {
            return Ok(max);
        }
        Ok(next_start)
    }

    /// Creates an account range request for the current target state root (zero when there is
    /// none), numbered with the next request id.
    pub fn create_account_range_request(&mut self, starting_hash: B256, limit_hash: B256) -> (r:
        GetAccountRangeMessage)
        requires
            old(self).request_id_counter < u64::MAX,
        ensures
            final(self).request_id_counter == old(self).request_id_counter + 1,
            r.request_id == final(self).request_id_counter,
            match old(self).spec_target_state_root() {
                Some(h) => r.root_hash == h,
                None => be_value(r.root_hash@) == 0,
            },
            r.starting_hash == starting_hash,
            r.limit_hash == limit_hash,
            r.response_bytes == old(self).config.max_response_bytes,
            final(self).config == old(self).config,
            final(self).header_receiver == old(self).header_receiver,
            final(self).pending_requests@ == old(self).pending_requests@,
            final(self).request_start_times@ == old(self).request_start_times@,
            final(self).completed_ranges@ == old(self).completed_ranges@,
            final(self).queued_ranges@ == old(self).queued_ranges@,
    {
        self.request_id_counter = self.request_id_counter + 1;
        let root = match self.get_target_state_root() {
            Some(h) => h,
            None => zero_hash(),
        };
        GetAccountRangeMessage {
            request_id: self.request_id_counter,
            root_hash: root,
            starting_hash,
            limit_hash,
            response_bytes: self.config.max_response_bytes,
        }
    }

    /// Creates an account range request for an explicit state root, numbered with the next
    /// request id.
    pub fn create_account_range_request_with_state_root(
        &mut self,
        starting_hash: B256,
        limit_hash: B256,
        state_root: B256,
    ) -> (r: GetAccountRangeMessage)
        requires
            old(self).request_id_counter < u64::MAX,
        ensures
            final(self).request_id_counter == old(self).request_id_counter + 1,
            r.request_id == final(self).request_id_counter,
            r.root_hash == state_root,
            r.starting_hash == starting_hash,
            r.limit_hash == limit_hash,
            r.response_bytes == old(self).config.max_response_bytes,
            final(self).config == old(self).config,
            final(self).header_receiver == old(self).header_receiver,
            final(self).pending_requests@ == old(self).pending_requests@,
            final(self).request_start_times@ == old(self).request_start_times@,
            final(self).completed_ranges@ == old(self).completed_ranges@,
            final(self).queued_ranges@ == old(self).queued_ranges@,
    {
        self.request_id_counter = self.request_id_counter + 1;
        GetAccountRangeMessage {
            request_id: self.request_id_counter,
            root_hash: state_root,
            starting_hash,
            limit_hash,
            response_bytes: self.config.max_response_bytes,
        }
    }

    /// The next range of the key walk: from `current` to one step further, but not beyond `max`.
    pub fn calculate_next_trie_range(&self, current: B256, max: B256) -> (r: Result<
        (B256, B256),
        StageError,
    >)
        ensures
            match next_value_spec(be_value(current@), trie_range_size(self.config.max_response_bytes)) {
                Err(e) => r == Err::<(B256, B256), StageError>(e),
                Ok(n) => r matches Ok((s, e)) && s == current && be_value(e@) == (if n > be_value(
                    max@,
                ) {
                    be_value(max@)
                } else {
                    n
                }),
            },
    {
        let estimated_range_size = self.config.max_response_bytes / 1000;
        let at_least = if estimated_range_size > 100 { estimated_range_size } else { 100 };
        let range_size = if at_least < 10000 { at_least } else { 10000 };
        let next = calculate_next_hash_in_lexicographic_order(&current, range_size)?;
        let range_end = if hash_lt(&max, &next) { max } else { next };
        Ok((current, range_end))
    }

    /// Queues a range to be turned into a request by the next poll.
    pub fn queue_range_for_processing(&mut self, start: B256, end: B256, state_root: B256)
        ensures
            final(self).queued_ranges@ == old(self).queued_ranges@.push((start, end, state_root)),
            final(self).config == old(self).config,
            final(self).header_receiver == old(self).header_receiver,
            final(self).request_id_counter == old(self).request_id_counter,
            final(self).pending_requests@ == old(self).pending_requests@,
            final(self).request_start_times@ == old(self).request_start_times@,
            final(self).completed_ranges@ == old(self).completed_ranges@,
    {
        self.queued_ranges.push((start, end, state_root));
    }
}


/// A range whose proof is checked, one with accounts and proof nodes under a known target
/// root, passes only when every one of its accounts is proven included under the root, and any
/// account that is not makes it fail as a failed proof.
pub proof fn lemma_range_proof_covers_every_account(root: B256, range: AccountRangeMessage, i: int)
    requires
        range.proof@.len() > 0,
        0 <= i < range.accounts@.len(),
    ensures
        range_proof_spec(Some(root), range) == Ok::<bool, StageError>(true) ==> spec_inclusion_proof_verifies(
            root@,
            range.accounts@[i].hash@,
            range.accounts@[i].body@,
            range.proof.deep_view(),
        ),
        !spec_inclusion_proof_verifies(root@, range.accounts@[i].hash@, range.accounts@[i].body@, range.proof.deep_view())
            ==> range_proof_spec(Some(root), range) == Err::<bool, StageError>(StageError::ProofVerificationFailed),
{
}

/// The hashes of the accounts of `ranges`, range after range.
pub open spec fn range_account_hashes(ranges: Seq<AccountRangeMessage>) -> Seq<B256>
    decreases ranges.len(),
{
    if ranges.len() == 0 {
        Seq::empty()
    } else {
        range_account_hashes(ranges.drop_last()) + ranges.last().accounts@.map_values(|a: AccountData| a.hash)
    }
}

/// Decoding accounts that succeeds gives one entry per account, in order, under its hash.
pub proof fn lemma_decode_keeps_hashes(accounts: Seq<AccountData>)
    ensures
        decode_accounts_spec(accounts) matches Some(entries) ==> entries.map_values(|e: HashedAccountEntry| e.hash)
            == accounts.map_values(|a: AccountData| a.hash),
    decreases accounts.len(),
{
    if accounts.len() > 0 {
        lemma_decode_keeps_hashes(accounts.drop_last());
        if let Some(entries) = decode_accounts_spec(accounts) {
            let prefix = decode_accounts_spec(accounts.drop_last())->0;
            assert(entries.map_values(|e: HashedAccountEntry| e.hash) =~= prefix.map_values(|e: HashedAccountEntry| e.hash).push(
                accounts.last().hash,
            ));
            assert(accounts.map_values(|a: AccountData| a.hash) =~= accounts.drop_last().map_values(|a: AccountData| a.hash).push(
                accounts.last().hash,
            ));
        }
    }
}

/// Processing account ranges that succeeds gives one entry for every account of every range,
/// range after range and in the order of each range, each under the account's hash: as many
/// entries as the ranges hold accounts together.
pub proof fn lemma_processing_keeps_every_account(root: Option<B256>, ranges: Seq<AccountRangeMessage>)
    ensures
        process_ranges_spec(root, ranges) matches Ok(entries) ==> entries.map_values(|e: HashedAccountEntry| e.hash)
            == range_account_hashes(ranges) && entries.len() == range_account_hashes(ranges).len(),
    decreases ranges.len(),
{
    if ranges.len() > 0 {
        lemma_processing_keeps_every_account(root, ranges.drop_last());
        lemma_decode_keeps_hashes(ranges.last().accounts@);
        if let Ok(entries) = process_ranges_spec(root, ranges) {
            let prefix = process_ranges_spec(root, ranges.drop_last())->Ok_0;
            let last = decode_accounts_spec(ranges.last().accounts@)->0;
            assert(entries == prefix + last);
            assert(entries.map_values(|e: HashedAccountEntry| e.hash) =~= prefix.map_values(|e: HashedAccountEntry| e.hash)
                + last.map_values(|e: HashedAccountEntry| e.hash));
        }
    }
}

/// A failure in a prefix of the ranges is the failure of every longer prefix.
pub proof fn lemma_process_error_sticks(root: Option<B256>, s: Seq<AccountRangeMessage>, i: int, j: int)
    requires
        0 <= i <= j <= s.len(),
        process_ranges_spec(root, s.subrange(0, i)) is Err,
    ensures
        process_ranges_spec(root, s.subrange(0, j)) == process_ranges_spec(root, s.subrange(0, i)),
    decreases j - i,
{
    if j > i {
        lemma_process_error_sticks(root, s, i, j - 1);
        assert(s.subrange(0, j).drop_last() =~= s.subrange(0, j - 1));
    }
}

/// A failed decoding in a prefix of the accounts is a failed decoding of every longer prefix.
pub proof fn lemma_decode_none_sticks(s: Seq<AccountData>, i: int, j: int)
    requires
        0 <= i <= j <= s.len(),
        decode_accounts_spec(s.subrange(0, i)) is None,
    ensures
        decode_accounts_spec(s.subrange(0, j)) is None,
    decreases j - i,
{
    if j > i {
        lemma_decode_none_sticks(s, i, j - 1);
        assert(s.subrange(0, j).drop_last() =~= s.subrange(0, j - 1));
    }
}

/// Decodes every account of a range into the entry to be stored under its hash.
pub fn decode_accounts(accounts: &Vec<AccountData>) -> (r: Option<Vec<HashedAccountEntry>>)
    ensures
        match (r, decode_accounts_spec(accounts@)) {
            (Some(v), Some(s)) => v@ == s,
            (None, None) => true,
            _ => false,
        },
{
    let mut out: Vec<HashedAccountEntry> = Vec::new();
    let mut i: usize = 0;
    while i < accounts.len()
        invariant
            0 <= i <= accounts@.len(),
            decode_accounts_spec(accounts@.subrange(0, i as int)) == Some(out@),
        decreases accounts@.len() - i,
    {
        proof {
            assert(accounts@.subrange(0, i + 1).drop_last() =~= accounts@.subrange(0, i as int));
            assert(accounts@.subrange(0, i + 1).last() == accounts@[i as int]);
        }
        let a = &accounts[i];
        match decode_trie_account(&a.body) {
            None => {
                proof {
                    lemma_decode_none_sticks(accounts@, i + 1, accounts@.len() as int);
                    assert(accounts@.subrange(0, accounts@.len() as int) =~= accounts@);
                }
                return None;
            },
            Some(t) => {
                out.push(
                    HashedAccountEntry {
                        hash: a.hash,
                        account: Account {
                            nonce: t.nonce,
                            balance: t.balance,
                            bytecode_hash: Some(t.code_hash),
                        },
                    },
                );
            },
        }
        i += 1;
    }
    proof {
        assert(accounts@.subrange(0, i as int) =~= accounts@);
    }
    Some(out)
}

impl<C> SnapSyncStage<C> {
    /// Checks the proof of an account range against the target state root: every account of
    /// the range must be proven included. An empty range, or a range sent without proof nodes,
    /// passes unchecked.
    pub fn verify_account_range_proof(&self, account_range: &AccountRangeMessage) -> (r: Result<
        bool,
        StageError,
    >)
        ensures
            r == range_proof_spec(self.spec_target_state_root(), *account_range),
    {
        if account_range.accounts.len() == 0 {
            return Ok(true);
        }
        if account_range.proof.len() == 0 {
            return Ok(true);
        }
        let target_state_root = match self.get_target_state_root() {
            Some(r) => r,
            None => {
                return Err(StageError::MissingTargetStateRoot);
            },
        };
        if !proof_walk_within_key(&account_range.proof) {
            return Err(StageError::ProofVerificationFailed);
        }
        let mut i: usize = 0;
        while i < account_range.accounts.len()
            invariant
                0 <= i <= account_range.accounts@.len(),
                account_range.proof@.len() > 0,
                proof_walk_bound(byte_lists(account_range.proof@)) <= 64,
                self.spec_target_state_root() == Some(target_state_root),
                forall|j: int|
                    0 <= j < i ==> #[trigger] spec_inclusion_proof_verifies(
                        target_state_root@,
                        account_range.accounts@[j].hash@,
                        account_range.accounts@[j].body@,
                        account_range.proof.deep_view(),
                    ),
            decreases account_range.accounts@.len() - i,
        {
            let a = &account_range.accounts[i];
            if !verify_inclusion_proof(&target_state_root, &a.hash, &a.body, &account_range.proof) {
                proof {
                    assert(!spec_inclusion_proof_verifies(
                        target_state_root@,
                        account_range.accounts@[i as int].hash@,
                        account_range.accounts@[i as int].body@,
                        account_range.proof.deep_view(),
                    ));
                }
                return Err(StageError::ProofVerificationFailed);
            }
            i += 1;
        }
        Ok(true)
    }

    /// Checks and decodes account ranges in order, giving the entries to insert into the
    /// hashed accounts table; the first range whose proof fails or whose account fails to
    /// decode ends the processing with that error.
    pub fn process_account_ranges(&self, account_ranges: Vec<AccountRangeMessage>) -> (r: Result<
        Vec<HashedAccountEntry>,
        StageError,
    >)
        ensures
            match (r, process_ranges_spec(self.spec_target_state_root(), account_ranges@)) {
                (Ok(v), Ok(s)) => v@ == s,
                (Err(e), Err(f)) => e == f,
                _ => false,
            },
    {
        let ghost root = self.spec_target_state_root();
        let mut out: Vec<HashedAccountEntry> = Vec::new();
        let mut i: usize = 0;
        while i < account_ranges.len()
            invariant
                0 <= i <= account_ranges@.len(),
                root == self.spec_target_state_root(),
                process_ranges_spec(root, account_ranges@.subrange(0, i as int)) == Ok::<
                    Seq<HashedAccountEntry>,
                    StageError,
                >(out@),
            decreases account_ranges@.len() - i,
        {
            proof {
                assert(account_ranges@.subrange(0, i + 1).drop_last() =~= account_ranges@.subrange(
                    0,
                    i as int,
                ));
                assert(account_ranges@.subrange(0, i + 1).last() == account_ranges@[i as int]);
            }
            let range = &account_ranges[i];
            match self.verify_account_range_proof(range) {
                Err(e) => {
                    proof {
                        lemma_process_error_sticks(
                            root,
                            account_ranges@,
                            i + 1,
                            account_ranges@.len() as int,
                        );
                        assert(account_ranges@.subrange(0, account_ranges@.len() as int)
                            =~= account_ranges@);
                    }
                    return Err(e);
                },
                Ok(_) => {},
            }
            match decode_accounts(&range.accounts) {
                None => {
                    proof {
                        lemma_process_error_sticks(
                            root,
                            account_ranges@,
                            i + 1,
                            account_ranges@.len() as int,
                        );
                        assert(account_ranges@.subrange(0, account_ranges@.len() as int)
                            =~= account_ranges@);
                    }
                    return Err(StageError::AccountDecodeFailed);
                },
                Some(entries) => {
                    let mut entries = entries;
                    out.append(&mut entries);
                },
            }
            i += 1;
        }
        proof {
            assert(account_ranges@.subrange(0, i as int) =~= account_ranges@);
        }
        Ok(out)
    }
}


/// `s` without the entries tracked under `id`.
pub open spec fn without_key(s: Seq<(u64, Instant)>, id: u64) -> Seq<(u64, Instant)>
    decreases s.len(),
{
    if s.len() == 0 {
        s
    } else {
        let p = without_key(s.drop_last(), id);
        if s.last().0 != id {
            p.push(s.last())
        } else {
            p
        }
    }
}

/// `s` without the occurrences of `id`.
pub open spec fn without_id(s: Seq<u64>, id: u64) -> Seq<u64>
    decreases s.len(),
{
    if s.len() == 0 {
        s
    } else {
        let p = without_id(s.drop_last(), id);
        if s.last() != id {
            p.push(s.last())
        } else {
            p
        }
    }
}

/// The ids of tracked requests whose elapsed time exceeds `timeout_secs` seconds, in order.
pub open spec fn timed_out_spec(s: Seq<(u64, Instant)>, elapsed: Seq<u128>, timeout_secs: u64) -> Seq<u64>
    decreases s.len(),
{
    if s.len() == 0 || elapsed.len() == 0 {
        Seq::empty()
    } else {
        let p = timed_out_spec(s.drop_last(), elapsed.drop_last(), timeout_secs);
        if elapsed.last() > (timeout_secs as int) * 1_000_000_000 {
            p.push(s.last().0)
        } else {
            p
        }
    }
}

/// The requests made from queued ranges, numbered from `first_id` on.
pub open spec fn dispatched_match(
    r: Seq<GetAccountRangeMessage>,
    queued: Seq<(B256, B256, B256)>,
    first_id: int,
    response_bytes: u64,
) -> bool {
    &&& r.len() == queued.len()
    &&& forall|j: int|
        0 <= j < r.len() ==> (#[trigger] r[j]).request_id == first_id + j && r[j].starting_hash
            == queued[j].0 && r[j].limit_hash == queued[j].1 && r[j].root_hash == queued[j].2
            && r[j].response_bytes == response_bytes
}

pub proof fn lemma_without_key_absent(s: Seq<(u64, Instant)>, id: u64)
    requires
        forall|i: int| 0 <= i < s.len() ==> (#[trigger] s[i]).0 != id,
    ensures
        without_key(s, id) == s,
    decreases s.len(),
{
    if s.len() > 0 {
        lemma_without_key_absent(s.drop_last(), id);
        assert(s.drop_last().push(s.last()) =~= s);
    }
}

pub proof fn lemma_without_id_absent(s: Seq<u64>, id: u64)
    requires
        forall|i: int| 0 <= i < s.len() ==> s[i] != id,
    ensures
        without_id(s, id) == s,
    decreases s.len(),
{
    if s.len() > 0 {
        lemma_without_id_absent(s.drop_last(), id);
        assert(s.drop_last().push(s.last()) =~= s);
    }
}

pub proof fn lemma_without_id_subset(s: Seq<u64>, id: u64)
    ensures
        forall|i: int| 0 <= i < without_id(s, id).len() ==> s.contains(#[trigger] without_id(s, id)[i]),
    decreases s.len(),
{
    if s.len() > 0 {
        lemma_without_id_subset(s.drop_last(), id);
        let p = without_id(s.drop_last(), id);
        assert forall|i: int| 0 <= i < without_id(s, id).len() implies s.contains(
            #[trigger] without_id(s, id)[i],
        ) by {
            if i < p.len() {
                assert(s.drop_last().contains(p[i]));
                let k = choose|k: int| 0 <= k < s.drop_last().len() && s.drop_last()[k] == p[i];
                assert(s[k] == p[i]);
            } else {
                assert(s[s.len() - 1] == without_id(s, id)[i]);
            }
        }
    }
}

/// What an unwind of the stage hands back: its output, and whether the hashed accounts
/// table is to be cleared.
#[derive(Debug, Clone, Copy)]
pub struct UnwindStep {
    pub output: UnwindOutput,
    pub clear_hashed_accounts: bool,
}

impl<C> SnapSyncStage<C> {
    /// Stops tracking request `request_id`.
    pub fn complete_request_tracking(&mut self, request_id: u64)
        ensures
            final(self).request_start_times@ == without_key(old(self).request_start_times@, request_id),
            final(self).config == old(self).config,
            final(self).header_receiver == old(self).header_receiver,
            final(self).request_id_counter == old(self).request_id_counter,
            final(self).pending_requests@ == old(self).pending_requests@,
            final(self).completed_ranges@ == old(self).completed_ranges@,
            final(self).queued_ranges@ == old(self).queued_ranges@,
    {
        let mut kept: Vec<(u64, Instant)> = Vec::new();
        let mut i: usize = 0;
        let n = self.request_start_times.len();
        while i < n
            invariant
                0 <= i <= n,
                n == self.request_start_times@.len(),
                kept@ == without_key(self.request_start_times@.subrange(0, i as int), request_id),
            decreases n - i,
        {
            proof {
                assert(self.request_start_times@.subrange(0, i + 1).drop_last()
                    =~= self.request_start_times@.subrange(0, i as int));
            }
            let e = self.request_start_times[i];
            if e.0 != request_id {
                kept.push(e);
            }
            i += 1;
        }
        proof {
            assert(self.request_start_times@.subrange(0, n as int) =~= self.request_start_times@);
        }
        self.request_start_times = kept;
    }

    /// Starts tracking request `request_id` from the current instant, replacing any earlier
    /// tracking of it.
    pub fn start_request_tracking(&mut self, request_id: u64)
        ensures
            final(self).request_start_times@.len() > 0,
            final(self).request_start_times@.drop_last() == without_key(
                old(self).request_start_times@,
                request_id,
            ),
            final(self).request_start_times@.last().0 == request_id,
            final(self).config == old(self).config,
            final(self).header_receiver == old(self).header_receiver,
            final(self).request_id_counter == old(self).request_id_counter,
            final(self).pending_requests@ == old(self).pending_requests@,
            final(self).completed_ranges@ == old(self).completed_ranges@,
            final(self).queued_ranges@ == old(self).queued_ranges@,
    {
        self.complete_request_tracking(request_id);
        let now = instant_now();
        self.request_start_times.push((request_id, now));
    }

    /// Removes request `request_id` from the requests in flight.
    pub fn remove_pending_request(&mut self, request_id: u64)
        ensures
            final(self).pending_requests@ == without_id(old(self).pending_requests@, request_id),
            final(self).config == old(self).config,
            final(self).header_receiver == old(self).header_receiver,
            final(self).request_id_counter == old(self).request_id_counter,
            final(self).request_start_times@ == old(self).request_start_times@,
            final(self).completed_ranges@ == old(self).completed_ranges@,
            final(self).queued_ranges@ == old(self).queued_ranges@,
    {
        let mut kept: Vec<u64> = Vec::new();
        let mut i: usize = 0;
        let n = self.pending_requests.len();
        while i < n
            invariant
                0 <= i <= n,
                n == self.pending_requests@.len(),
                kept@ == without_id(self.pending_requests@.subrange(0, i as int), request_id),
            decreases n - i,
        {
            proof {
                assert(self.pending_requests@.subrange(0, i + 1).drop_last()
                    =~= self.pending_requests@.subrange(0, i as int));
            }
            let e = self.pending_requests[i];
            if e != request_id {
                kept.push(e);
            }
            i += 1;
        }
        proof {
            assert(self.pending_requests@.subrange(0, n as int) =~= self.pending_requests@);
        }
        self.pending_requests = kept;
    }

    /// Drops a request that timed out: it is neither in flight nor tracked any more.
    pub fn handle_request_timeout(&mut self, request_id: u64)
        ensures
            final(self).pending_requests@ == without_id(old(self).pending_requests@, request_id),
            final(self).request_start_times@ == without_key(old(self).request_start_times@, request_id),
            final(self).config == old(self).config,
            final(self).header_receiver == old(self).header_receiver,
            final(self).request_id_counter == old(self).request_id_counter,
            final(self).completed_ranges@ == old(self).completed_ranges@,
            final(self).queued_ranges@ == old(self).queued_ranges@,
    {
        self.remove_pending_request(request_id);
        self.complete_request_tracking(request_id);
    }

    /// The tracked requests whose elapsed time (given per tracked request, in nanoseconds)
    /// exceeds the configured timeout.
    pub fn timed_out_requests(&self, elapsed_nanos: &Vec<u128>) -> (r: Vec<u64>)
        requires
            elapsed_nanos@.len() == self.request_start_times@.len(),
        ensures
            r@ == timed_out_spec(
                self.request_start_times@,
                elapsed_nanos@,
                self.config.request_timeout_seconds,
            ),
    {
        let timeout: u128 = (self.config.request_timeout_seconds as u128) * 1_000_000_000u128;
        let mut out: Vec<u64> = Vec::new();
        let mut i: usize = 0;
        let n = self.request_start_times.len();
        while i < n
            invariant
                0 <= i <= n,
                n == self.request_start_times@.len(),
                n == elapsed_nanos@.len(),
                timeout == (self.config.request_timeout_seconds as int) * 1_000_000_000,
                out@ == timed_out_spec(
                    self.request_start_times@.subrange(0, i as int),
                    elapsed_nanos@.subrange(0, i as int),
                    self.config.request_timeout_seconds,
                ),
            decreases n - i,
        {
            proof {
                assert(self.request_start_times@.subrange(0, i + 1).drop_last()
                    =~= self.request_start_times@.subrange(0, i as int));
                assert(elapsed_nanos@.subrange(0, i + 1).drop_last() =~= elapsed_nanos@.subrange(
                    0,
                    i as int,
                ));
            }
            if elapsed_nanos[i] > timeout {
                out.push(self.request_start_times[i].0);
            }
            i += 1;
        }
        proof {
            assert(self.request_start_times@.subrange(0, n as int) =~= self.request_start_times@);
            assert(elapsed_nanos@.subrange(0, n as int) =~= elapsed_nanos@);
        }
        out
    }

    /// The tracked requests that have been in flight longer than the configured timeout, by
    /// the monotonic clock read now.
    pub fn check_timeouts(&self) -> (r: Vec<u64>)
        ensures
            exists|elapsed: Seq<u128>|
                elapsed.len() == self.request_start_times@.len() && r@ == timed_out_spec(
                    self.request_start_times@,
                    elapsed,
                    self.config.request_timeout_seconds,
                ),
    {
        let now = instant_now();
        let mut elapsed: Vec<u128> = Vec::new();
        let mut i: usize = 0;
        let n = self.request_start_times.len();
        while i < n
            invariant
                0 <= i <= n,
                n == self.request_start_times@.len(),
                elapsed@.len() == i,
            decreases n - i,
        {
            let e = &self.request_start_times[i];
            elapsed.push(duration_as_nanos(&duration_between(&e.1, &now)));
            i += 1;
        }
        self.timed_out_requests(&elapsed)
    }

    /// Whether every pending and tracked request id was issued by this stage's counter.
    pub open spec fn ids_issued(&self) -> bool {
        &&& forall|i: int|
            0 <= i < self.pending_requests@.len() ==> self.pending_requests@[i]
                <= self.request_id_counter
        &&& forall|i: int|
            0 <= i < self.request_start_times@.len() ==> (#[trigger] self.request_start_times@[i]).0
                <= self.request_id_counter
    }

    /// Turns every queued range into a request under that range's state root, numbered from
    /// the next request id on; each request is put in flight and tracked from now.
    pub fn dispatch_queued_ranges(&mut self) -> (r: Vec<GetAccountRangeMessage>)
        requires
            old(self).ids_issued(),
            old(self).request_id_counter + old(self).queued_ranges@.len() <= u64::MAX,
        ensures
            dispatched_match(
                r@,
                old(self).queued_ranges@,
                old(self).request_id_counter + 1,
                old(self).config.max_response_bytes,
            ),
            final(self).request_id_counter == old(self).request_id_counter + old(self).queued_ranges@.len(),
            final(self).queued_ranges@.len() == 0,
            final(self).pending_requests@ == old(self).pending_requests@ + r@.map_values(
                |m: GetAccountRangeMessage| m.request_id,
            ),
            final(self).request_start_times@.len() == old(self).request_start_times@.len() + r@.len(),
            final(self).request_start_times@.subrange(0, old(self).request_start_times@.len() as int)
                == old(self).request_start_times@,
            forall|j: int|
                0 <= j < r@.len() ==> (#[trigger] final(self).request_start_times@[old(
                    self,
                ).request_start_times@.len() + j]).0 == r@[j].request_id,
            final(self).ids_issued(),
            final(self).config == old(self).config,
            final(self).header_receiver == old(self).header_receiver,
            final(self).completed_ranges@ == old(self).completed_ranges@,
    {
        let mut queued: Vec<(B256, B256, B256)> = Vec::new();
        std::mem::swap(&mut queued, &mut self.queued_ranges);
        let ghost p0 = self.pending_requests@;
        let ghost t0 = self.request_start_times@;
        let ghost c0 = self.request_id_counter;
        let mut out: Vec<GetAccountRangeMessage> = Vec::new();
        let mut i: usize = 0;
        let n = queued.len();
        while i < n
            invariant
                0 <= i <= n,
                n == queued@.len(),
                c0 + n <= u64::MAX,
                self.request_id_counter == c0 + i,
                self.queued_ranges@.len() == 0,
                dispatched_match(out@, queued@.subrange(0, i as int), c0 + 1, self.config.max_response_bytes),
                self.pending_requests@ == p0 + out@.map_values(|m: GetAccountRangeMessage| m.request_id),
                self.request_start_times@.len() == t0.len() + i,
                self.request_start_times@.subrange(0, t0.len() as int) == t0,
                forall|j: int|
                    0 <= j < i ==> (#[trigger] self.request_start_times@[t0.len() + j]).0
                        == out@[j].request_id,
                self.ids_issued(),
                self.config == old(self).config,
                self.header_receiver == old(self).header_receiver,
                self.completed_ranges@ == old(self).completed_ranges@,
            decreases n - i,
        {
            let (start, end, root) = queued[i];
            let request = self.create_account_range_request_with_state_root(start, end, root);
            let id = request.request_id;
            proof {
                assert forall|k: int| 0 <= k < self.pending_requests@.len() implies self.pending_requests@[k] != id by {}
                assert forall|k: int| 0 <= k < self.request_start_times@.len() implies (
                    #[trigger] self.request_start_times@[k]).0 != id by {}
                lemma_without_key_absent(self.request_start_times@, id);
            }
            self.pending_requests.push(id);
            let ghost t_before = self.request_start_times@;
            self.start_request_tracking(id);
            proof {
                assert(self.request_start_times@ =~= t_before.push((id, self.request_start_times@.last().1)));
                assert(self.request_start_times@.subrange(0, t0.len() as int) =~= t0) by {
                    assert(t_before.subrange(0, t0.len() as int) == t0);
                }
            }
            out.push(request);
            proof {
                assert(queued@.subrange(0, i + 1).drop_last() =~= queued@.subrange(0, i as int));
                assert(out@.map_values(|m: GetAccountRangeMessage| m.request_id) =~= out@.drop_last().map_values(
                    |m: GetAccountRangeMessage| m.request_id,
                ).push(id));
                assert(self.pending_requests@ =~= p0 + out@.map_values(|m: GetAccountRangeMessage| m.request_id));
            }
            i += 1;
        }
        proof {
            assert(queued@.subrange(0, n as int) =~= queued@);
        }
        out
    }

    /// Takes in the outcome of a request that finished: a received range joins the completed
    /// ranges (a failed request leaves nothing), and the request is neither in flight nor
    /// tracked any more.
    pub fn record_response(&mut self, request_id: u64, response: Option<AccountRangeMessage>)
        ensures
            final(self).completed_ranges@ == (match response {
                Some(m) => old(self).completed_ranges@.push(m),
                None => old(self).completed_ranges@,
            }),
            final(self).pending_requests@ == without_id(old(self).pending_requests@, request_id),
            final(self).request_start_times@ == without_key(old(self).request_start_times@, request_id),
            final(self).config == old(self).config,
            final(self).header_receiver == old(self).header_receiver,
            final(self).request_id_counter == old(self).request_id_counter,
            final(self).queued_ranges@ == old(self).queued_ranges@,
    {
        match response {
            Some(m) => {
                self.completed_ranges.push(m);
            },
            None => {},
        }
        self.remove_pending_request(request_id);
        self.complete_request_tracking(request_id);
    }
}


/// Where the key walk of an execution starts (see [`SnapSyncStage::get_next_sync_starting_point`]).
pub open spec fn start_value_spec(hashed_state_empty: bool, last_hashed_account: Option<B256>) -> nat {
    if hashed_state_empty {
        0
    } else {
        let last = match last_hashed_account {
            Some(a) => be_value(a@),
            None => 0,
        };
        if last + 1 > max_hash_value() { max_hash_value() } else { last + 1 }
    }
}

/// Puts the ranges `acc` in front of a planned walk.
pub open spec fn prepend_plan(
    acc: Seq<(nat, nat)>,
    res: Result<(Seq<(nat, nat)>, nat), StageError>,
) -> Result<(Seq<(nat, nat)>, nat), StageError> {
    match res {
        Ok((rest, fin)) => Ok((acc + rest, fin)),
        Err(e) => Err(e),
    }
}

impl<C> SnapSyncStage<C> {
    /// Whether two stages hold the same state.
    pub open spec fn same_state(&self, other: &Self) -> bool {
        &&& self.config == other.config
        &&& self.snap_client == other.snap_client
        &&& self.header_receiver == other.header_receiver
        &&& self.request_id_counter == other.request_id_counter
        &&& self.pending_requests@ == other.pending_requests@
        &&& self.request_start_times@ == other.request_start_times@
        &&& self.completed_ranges@ == other.completed_ranges@
        &&& self.queued_ranges@ == other.queued_ranges@
    }

    /// One execution of the stage. Unless the target is reached or the stage is disabled, it
    /// looks for the target state root: without one there is no state to download and the
    /// stage is done at the target block. With one, it walks the key space from the starting
    /// point (computed from whether hashed accounts are stored and the last stored one), queues
    /// at most `max_ranges_per_execution` ranges under the target root, and checks and decodes
    /// the ranges completed so far into the accounts to insert. It is done, with its checkpoint
    /// at the target block, once the walk reaches the greatest key; until then the checkpoint
    /// stays where it was.
    pub fn execute(
        &mut self,
        input: ExecInput,
        hashed_state_empty: bool,
        last_hashed_account: Option<B256>,
    ) -> (r: Result<ExecStep, StageError>)
        ensures
            input.spec_checkpoint() >= input.spec_target() ==> (r matches Ok(step)
                && step.output.checkpoint.block_number == input.spec_checkpoint() && step.output.done
                && step.accounts@.len() == 0 && final(self).same_state(&*old(self))),
            input.spec_checkpoint() < input.spec_target() && !old(self).config.enabled ==> (r matches Ok(
                step,
            ) && step.output.checkpoint.block_number == input.spec_checkpoint() && step.output.done
                && step.accounts@.len() == 0 && final(self).same_state(&*old(self))),
            input.spec_checkpoint() < input.spec_target() && old(self).config.enabled
                && old(self).spec_target_state_root() is None ==> (r matches Ok(step)
                && step.output.checkpoint.block_number == input.spec_target() && step.output.done
                && step.accounts@.len() == 0 && final(self).same_state(&*old(self))),
            input.spec_checkpoint() < input.spec_target() && old(self).config.enabled
                && old(self).spec_target_state_root() is Some ==> ({
                let root = old(self).spec_target_state_root()->0;
                let plan = plan_ranges_spec(
                    start_value_spec(hashed_state_empty, last_hashed_account),
                    old(self).config.max_ranges_per_execution as nat,
                    trie_range_size(old(self).config.max_response_bytes),
                );
                match plan {
                    Err(e) => r == Err::<ExecStep, StageError>(e) && final(self).same_state(&*old(self)),
                    Ok((ranges, fin)) => {
                        &&& final(self).config == old(self).config
                        &&& final(self).header_receiver == old(self).header_receiver
                        &&& final(self).request_id_counter == old(self).request_id_counter
                        &&& final(self).pending_requests@ == old(self).pending_requests@
                        &&& final(self).request_start_times@ == old(self).request_start_times@
                        &&& final(self).completed_ranges@.len() == 0
                        &&& final(self).queued_ranges@.subrange(0, old(self).queued_ranges@.len() as int)
                            == old(self).queued_ranges@
                        &&& queued_match(
                            final(self).queued_ranges@.subrange(
                                old(self).queued_ranges@.len() as int,
                                final(self).queued_ranges@.len() as int,
                            ),
                            ranges,
                            root,
                        )
                        &&& match (r, process_ranges_spec(Some(root), old(self).completed_ranges@)) {
                            (Ok(step), Ok(entries)) => step.accounts@ == entries
                                && step.output.done == (fin >= max_hash_value())
                                && step.output.checkpoint.block_number == if fin >= max_hash_value() {
                                    input.spec_target()
                                } else {
                                    input.spec_checkpoint()
                                },
                            (Err(e), Err(f)) => e == f,
                            _ => false,
                        }
                    },
                }
            }),
    {
        if input.target_reached() {
            return Ok(ExecStep { output: ExecOutput::done(input.checkpoint()), accounts: Vec::new() });
        }
        if !self.config.enabled {
            return Ok(
                ExecStep {
                    output: ExecOutput { checkpoint: input.checkpoint(), done: true },
                    accounts: Vec::new(),
                },
            );
        }
        let target_state_root = match self.get_target_state_root() {
            Some(r) => r,
            None => {
                return Ok(
                    ExecStep {
                        output: ExecOutput { checkpoint: StageCheckpoint::new(input.target()), done: true },
                        accounts: Vec::new(),
                    },
                );
            },
        };
        let starting_hash = self.get_next_sync_starting_point(hashed_state_empty, last_hashed_account)?;
        let max = max_hash();
        let mut current = starting_hash;
        let mut planned: Vec<(B256, B256, B256)> = Vec::new();
        let ghost acc: Seq<(nat, nat)> = Seq::empty();
        let ghost size = trie_range_size(self.config.max_response_bytes);
        let ghost v0 = start_value_spec(hashed_state_empty, last_hashed_account);
        let ghost big_k = self.config.max_ranges_per_execution as nat;
        let mut k: u64 = 0;
        proof {
            assert(acc + Seq::<(nat, nat)>::empty() =~= Seq::<(nat, nat)>::empty());
            assert(Seq::<(nat, nat)>::empty() + acc =~= acc);
            match plan_ranges_spec(v0, big_k, size) {
                Ok((rest, fin)) => {
                    assert(acc + rest =~= rest);
                },
                Err(_) => {},
            }
        }
        while k < self.config.max_ranges_per_execution
            invariant_except_break
                0 <= k <= self.config.max_ranges_per_execution,
                big_k == self.config.max_ranges_per_execution,
                v0 == start_value_spec(hashed_state_empty, last_hashed_account),
                be_value(max@) == max_hash_value(),
                size == trie_range_size(self.config.max_response_bytes),
                plan_ranges_spec(v0, big_k, size) == prepend_plan(
                    acc,
                    plan_ranges_spec(be_value(current@), (big_k - k) as nat, size),
                ),
                queued_match(planned@, acc, target_state_root),
                input.spec_checkpoint() < input.spec_target(),
                self.config.enabled,
                self.same_state(&*old(self)),
                self.spec_target_state_root() == Some(target_state_root),
            ensures
                be_value(max@) == max_hash_value(),
                queued_match(planned@, acc, target_state_root),
                plan_ranges_spec(v0, big_k, size) == Ok::<(Seq<(nat, nat)>, nat), StageError>(
                    (acc, be_value(current@)),
                ),
            decreases self.config.max_ranges_per_execution - k,
        {
            if hash_le(&max, &current) {
                break;
            }
            let ghost cur_v = be_value(current@);
            let (range_start, range_end) = match self.calculate_next_trie_range(current, max) {
                Ok(p) => p,
                Err(e) => {
                    proof {
                        assert(next_value_spec(cur_v, size) == Err::<nat, StageError>(e));
                        assert(plan_ranges_spec(cur_v, (big_k - k) as nat, size) == Err::<
                            (Seq<(nat, nat)>, nat),
                            StageError,
                        >(e));
                    }
                    return Err(e);
                },
            };
            if hash_le(&max, &range_start) {
                break;
            }
            proof {
                let n = next_value_spec(cur_v, size)->Ok_0;
                let end = be_value(range_end@);
                let rest_res = plan_ranges_spec(end, (big_k - k - 1) as nat, size);
                assert(plan_ranges_spec(cur_v, (big_k - k) as nat, size) == prepend_plan(
                    seq![(cur_v, end)],
                    rest_res,
                ));
                match rest_res {
                    Ok((rest, fin)) => {
                        assert(acc + (seq![(cur_v, end)] + rest) =~= acc.push((cur_v, end)) + rest);
                    },
                    Err(_) => {},
                }
            }
            planned.push((range_start, range_end, target_state_root));
            proof {
                acc = acc.push((cur_v, be_value(range_end@)));
            }
            current = range_end;
            k += 1;
        }
        let mut planned = planned;
        self.queued_ranges.append(&mut planned);
        let mut accounts: Vec<HashedAccountEntry> = Vec::new();
        if self.completed_ranges.len() != 0 {
            let mut completed: Vec<AccountRangeMessage> = Vec::new();
            std::mem::swap(&mut completed, &mut self.completed_ranges);
            accounts = self.process_account_ranges(completed)?;
        } else {
            proof {
                assert(process_ranges_spec(Some(target_state_root), self.completed_ranges@) == Ok::<
                    Seq<HashedAccountEntry>,
                    StageError,
                >(Seq::empty()));
            }
        }
        let is_complete = hash_le(&max, &current);
        let checkpoint = if is_complete { StageCheckpoint::new(input.target()) } else { input.checkpoint() };
        Ok(ExecStep { output: ExecOutput { checkpoint, done: is_complete }, accounts })
    }
}


impl<C> SnapSyncStage<C> {
    /// The decisions a poll of the stage makes before the requests in flight are polled: a
    /// disabled stage is ready at once; without a target state root the stage waits; otherwise
    /// the queued ranges become requests to send, and requests in flight longer than the
    /// timeout are dropped.
    pub fn poll_execute_ready_start(&mut self) -> (r: PollStart)
        requires
            old(self).ids_issued(),
            old(self).request_id_counter + old(self).queued_ranges@.len() <= u64::MAX,
        ensures
            !old(self).config.enabled ==> r is Ready && final(self).same_state(&*old(self)),
            old(self).config.enabled && old(self).spec_target_state_root() is None ==> r is Pending
                && final(self).same_state(&*old(self)),
            old(self).config.enabled && old(self).spec_target_state_root() is Some ==> (r matches PollStart::Dispatch(reqs)
                && dispatched_match(
                reqs@,
                old(self).queued_ranges@,
                old(self).request_id_counter + 1,
                old(self).config.max_response_bytes,
            ) && final(self).request_id_counter == old(self).request_id_counter
                + old(self).queued_ranges@.len() && final(self).queued_ranges@.len() == 0
                && final(self).completed_ranges@ == old(self).completed_ranges@
                && final(self).config == old(self).config
                && final(self).header_receiver == old(self).header_receiver
                && final(self).ids_issued()),
    {
        if !self.config.enabled {
            return PollStart::Ready;
        }
        if self.get_target_state_root().is_none() {
            return PollStart::Pending;
        }
        let requests = self.dispatch_queued_ranges();
        let timed_out = self.check_timeouts();
        let mut i: usize = 0;
        while i < timed_out.len()
            invariant
                0 <= i <= timed_out@.len(),
                self.ids_issued(),
                self.request_id_counter == old(self).request_id_counter + old(self).queued_ranges@.len(),
                self.queued_ranges@.len() == 0,
                self.completed_ranges@ == old(self).completed_ranges@,
                self.config == old(self).config,
                self.header_receiver == old(self).header_receiver,
            decreases timed_out@.len() - i,
        {
            let ghost before = *self;
            self.handle_request_timeout(timed_out[i]);
            proof {
                lemma_without_id_subset(before.pending_requests@, timed_out@[i as int]);
                lemma_without_key_subset(before.request_start_times@, timed_out@[i as int]);
                assert forall|j: int| 0 <= j < self.pending_requests@.len() implies self.pending_requests@[j]
                    <= self.request_id_counter by {
                    assert(before.pending_requests@.contains(self.pending_requests@[j]));
                }
                assert forall|j: int| 0 <= j < self.request_start_times@.len() implies (
                    #[trigger] self.request_start_times@[j]).0 <= self.request_id_counter by {
                    assert(before.request_start_times@.contains(self.request_start_times@[j]));
                    let k = choose|k: int| 0 <= k < before.request_start_times@.len() && before.request_start_times@[k] == self.request_start_times@[j];
                    assert(before.request_start_times@[k].0 <= before.request_id_counter);
                }
            }
            i += 1;
        }
        PollStart::Dispatch(requests)
    }

    /// After the requests in flight were polled: the stage is ready once a completed range
    /// waits for processing.
    pub fn poll_execute_ready_finish(&self) -> (ready: bool)
        ensures
            ready == (self.completed_ranges@.len() > 0),
    {
        self.completed_ranges.len() != 0
    }

    /// Unwinds the stage to `input.unwind_to`: the checkpoint becomes the unwind target; an
    /// enabled stage asks for the downloaded hashed accounts to be cleared.
    pub fn unwind(&mut self, input: UnwindInput) -> (r: UnwindStep)
        ensures
            r.output.checkpoint.block_number == input.unwind_to,
            r.clear_hashed_accounts == old(self).config.enabled,
            final(self).same_state(&*old(self)),
    {
        let checkpoint = StageCheckpoint::new(input.unwind_to);
        UnwindStep { output: UnwindOutput { checkpoint }, clear_hashed_accounts: self.config.enabled }
    }
}

pub proof fn lemma_without_key_subset(s: Seq<(u64, Instant)>, id: u64)
    ensures
        forall|i: int|
            0 <= i < without_key(s, id).len() ==> s.contains(#[trigger] without_key(s, id)[i]),
    decreases s.len(),
{
    if s.len() > 0 {
        lemma_without_key_subset(s.drop_last(), id);
        let p = without_key(s.drop_last(), id);
        assert forall|i: int| 0 <= i < without_key(s, id).len() implies s.contains(
            #[trigger] without_key(s, id)[i],
        ) by {
            if i < p.len() {
                assert(s.drop_last().contains(p[i]));
                let k = choose|k: int| 0 <= k < s.drop_last().len() && s.drop_last()[k] == p[i];
                assert(s[k] == p[i]);
            } else {
                assert(s[s.len() - 1] == without_key(s, id)[i]);
            }
        }
    }
}

} // verus!
