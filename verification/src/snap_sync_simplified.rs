//! The simplified snap sync stage: downloads account ranges from the last hashed account on
//! and writes the decoded accounts under their hashes.

use vstd::prelude::*;
use crate::sets::StageKind;
use std::sync::Arc;
use crate::config::SnapSyncConfig;
use crate::error::StageError;
use crate::hash::{B256, be_value, max_hash_value, hash_le, hash_lt, zero_hash, max_hash, lemma_be_value_bound};
use crate::messages::{AccountData, AccountRangeMessage};
use crate::stage::{HashedAccountEntry, UnwindStep, decode_accounts, decode_accounts_spec};
use crate::stage_api::{ExecInput, ExecOutput, StageCheckpoint, UnwindInput, UnwindOutput};

verus! {

/// Whether the hashes of `accounts` strictly increase from above the zero hash.
pub open spec fn ascending_from_zero(accounts: Seq<AccountData>) -> bool {
    forall|i: int| 0 <= i < accounts.len() ==> be_value((#[trigger] accounts[i]).hash@) > if i == 0 { 0 } else { be_value(accounts[i - 1].hash@) }
}

/// The entries written for account ranges, each range checked for ascending hashes and then
/// decoded in turn; the first failure is the result.
#[verifier::opaque]
pub open spec fn simplified_ranges_spec(ranges: Seq<AccountRangeMessage>) -> Result<Seq<HashedAccountEntry>, StageError>
    decreases ranges.len(),
{
    if ranges.len() == 0 {
        Ok(Seq::empty())
    } else {
        match simplified_ranges_spec(ranges.drop_last()) {
            Err(e) => Err(e),
            Ok(prefix) => if !ascending_from_zero(ranges.last().accounts@) {
                Err(StageError::AccountsNotAscending)
            } else {
                match decode_accounts_spec(ranges.last().accounts@) {
                    None => Err(StageError::AccountDecodeFailed),
                    Some(entries) => Ok(prefix + entries),
                }
            },
        }
    }
}

/// What one execution of the stage outputs, and the accounts to write to the hashed
/// accounts table.
pub struct SimplifiedStep {
    /// The stage output
    pub output: ExecOutput,
    /// Accounts to write under their hashes
    pub accounts: Vec<HashedAccountEntry>,
}

/// Snap sync stage for downloading trie data ranges from peers.
pub struct SnapSyncStage<C> {
    /// Configuration for the stage
    pub config: SnapSyncConfig,
    /// Snap client for peer communication
    pub snap_client: Arc<C>,
}

impl<C> SnapSyncStage<C> {
    /// A stage with `config`, asking peers through `snap_client`.
    pub fn new(config: SnapSyncConfig, snap_client: Arc<C>) -> (s: Self)
        ensures
            s.config == config,
            s.snap_client == snap_client,
    {
        SnapSyncStage { config, snap_client }
    }

    /// The stage's identifier in the pipeline.
    pub fn id(&self) -> (k: StageKind)
        ensures
            k == StageKind::SnapSync,
    {
        StageKind::SnapSync
    }

    /// Whether the hashes of `accounts` strictly increase from above the zero hash.
    fn check_ascending(accounts: &Vec<AccountData>) -> (r: bool)
        ensures
            r == ascending_from_zero(accounts@),
    {
        let mut prev_hash = zero_hash();
        let mut i: usize = 0;
        while i < accounts.len()
            invariant
                0 <= i <= accounts@.len(),
                be_value(prev_hash@) == if i == 0 { 0 } else { be_value(accounts@[i - 1].hash@) },
                forall|k: int| 0 <= k < i ==> be_value((#[trigger] accounts@[k]).hash@) > if k == 0 { 0 } else { be_value(accounts@[k - 1].hash@) },
            decreases accounts@.len() - i,
        {
            if hash_le(&accounts[i].hash, &prev_hash) {
                return false;
            }
            prev_hash = accounts[i].hash;
            i += 1;
        }
        true
    }

    /// Checks one range for strictly ascending hashes from above the zero hash and decodes its
    /// accounts.
    fn process_range(range: &AccountRangeMessage) -> (r: Result<Vec<HashedAccountEntry>, StageError>)
        ensures
            match r {
                Ok(v) => ascending_from_zero(range.accounts@) && decode_accounts_spec(range.accounts@) == Some(v@),
                Err(e) => if !ascending_from_zero(range.accounts@) {
                    e == StageError::AccountsNotAscending
                } else {
                    decode_accounts_spec(range.accounts@) is None && e == StageError::AccountDecodeFailed
                },
            },
    {
        if !Self::check_ascending(&range.accounts) {
            return Err(StageError::AccountsNotAscending);
        }
        match decode_accounts(&range.accounts) {
            None => Err(StageError::AccountDecodeFailed),
            Some(entries) => Ok(entries),
        }
    }

    /// Checks each range for strictly ascending hashes from above the zero hash and decodes
    /// its accounts, in order; see [`simplified_ranges_spec`].
    pub fn process_account_ranges(&self, account_ranges: Vec<AccountRangeMessage>) -> (r: Result<Vec<HashedAccountEntry>, StageError>)
        ensures
            match (r, simplified_ranges_spec(account_ranges@)) {
                (Ok(v), Ok(s)) => v@ == s,
                (Err(e), Err(spec_e)) => e == spec_e,
                _ => false,
            },
    {
        let mut out: Vec<HashedAccountEntry> = Vec::new();
        let mut i: usize = 0;
        assert(simplified_ranges_spec(account_ranges@.take(0)) == Ok::<Seq<HashedAccountEntry>, StageError>(out@)) by {
            reveal(simplified_ranges_spec);
            assert(account_ranges@.take(0) =~= Seq::<AccountRangeMessage>::empty());
            assert(out@ =~= Seq::<HashedAccountEntry>::empty());
        }
        while i < account_ranges.len()
            invariant
                0 <= i <= account_ranges@.len(),
                simplified_ranges_spec(account_ranges@.take(i as int)) == Ok::<Seq<HashedAccountEntry>, StageError>(out@),
            decreases account_ranges@.len() - i,
        {
            let ghost before = out@;
            proof {
                lemma_simplified_step(account_ranges@, i as int, before);
            }
            match Self::process_range(&account_ranges[i]) {
                Err(e) => {
                    proof {
                        lemma_simplified_error_sticks(account_ranges@, i + 1);
                    }
                    return Err(e);
                },
                Ok(mut entries) => {
                    out.append(&mut entries);
                },
            }
            i += 1;
        }
        proof {
            assert(account_ranges@.take(account_ranges@.len() as int) =~= account_ranges@);
        }
        Ok(out)
    }

    /// One execution of the stage, from the hashed accounts table's state: whether it is
    /// empty and its last account. A disabled stage, or one that reached its target, is done
    /// at its checkpoint. Otherwise the download starts from the last hashed account (the zero
    /// hash for an empty table); the peer's answer holds no account yet, so nothing is written,
    /// and the stage is done when the download started from the greatest hash.
    pub fn execute(&mut self, input: &ExecInput, hashed_state_empty: bool, last_hashed_account: Option<B256>) -> (r: Result<SimplifiedStep, StageError>)
        ensures
            final(self).config == old(self).config,
            r matches Ok(step) && step.accounts@.len() == 0 && if !old(self).config.enabled || input.spec_checkpoint() >= input.spec_target() {
                step.output == (ExecOutput { checkpoint: StageCheckpoint { block_number: input.spec_checkpoint() }, done: true })
            } else {
                step.output == (ExecOutput {
                    checkpoint: StageCheckpoint { block_number: input.spec_target() },
                    done: !hashed_state_empty && (last_hashed_account matches Some(h) && be_value(h@) == max_hash_value()),
                })
            },
    {
        if !self.config.enabled || input.target_reached() {
            return Ok(SimplifiedStep { output: ExecOutput::done(input.checkpoint()), accounts: Vec::new() });
        }
        let starting_hash = if hashed_state_empty {
            zero_hash()
        } else {
            match last_hashed_account {
                Some(h) => h,
                None => zero_hash(),
            }
        };
        let mut account_ranges: Vec<AccountRangeMessage> = Vec::new();
        account_ranges.push(AccountRangeMessage { request_id: 1, accounts: Vec::new(), proof: Vec::new() });
        proof {
            reveal(simplified_ranges_spec);
            let ranges = account_ranges@;
            assert(ranges.drop_last() =~= Seq::<AccountRangeMessage>::empty());
            assert(simplified_ranges_spec(ranges.drop_last()) == Ok::<Seq<HashedAccountEntry>, StageError>(Seq::<HashedAccountEntry>::empty()));
            assert(ascending_from_zero(ranges.last().accounts@));
            assert(ranges.last().accounts@.len() == 0);
            assert(decode_accounts_spec(ranges.last().accounts@) == Some(Seq::<HashedAccountEntry>::empty()));
            assert(simplified_ranges_spec(ranges) == Ok::<Seq<HashedAccountEntry>, StageError>(Seq::<HashedAccountEntry>::empty() + Seq::<HashedAccountEntry>::empty()));
        }
        let processed = self.process_account_ranges(account_ranges)?;
        proof {
            assert(processed@ =~= Seq::<HashedAccountEntry>::empty());
            lemma_be_value_bound(starting_hash@);
        }
        let max = max_hash();
        let done = processed.len() > 0 || hash_le(&max, &starting_hash);
        Ok(SimplifiedStep { output: ExecOutput { checkpoint: StageCheckpoint::new(input.target()), done }, accounts: processed })
    }

    /// Unwinding clears the hashed accounts table; the checkpoint moves to the unwind target.
    pub fn unwind(&mut self, input: &UnwindInput) -> (r: UnwindStep)
        ensures
            r.output.checkpoint.block_number == input.unwind_to,
            r.clear_hashed_accounts,
            final(self).config == old(self).config,
    {
        UnwindStep { output: UnwindOutput { checkpoint: StageCheckpoint::new(input.unwind_to) }, clear_hashed_accounts: true }
    }

    /// Whether the stage is ready to execute: always.
    pub fn poll_execute_ready(&mut self, input: &ExecInput) -> (r: Result<(), StageError>)
        ensures
            r is Ok,
            final(self).config == old(self).config,
    {
        Ok(())
    }
}

/// Processing one more range: the result for the longer prefix from the result for the
/// shorter one.
proof fn lemma_simplified_step(ranges: Seq<AccountRangeMessage>, i: int, prefix: Seq<HashedAccountEntry>)
    requires
        0 <= i < ranges.len(),
        simplified_ranges_spec(ranges.take(i)) == Ok::<Seq<HashedAccountEntry>, StageError>(prefix),
    ensures
        simplified_ranges_spec(ranges.take(i + 1)) == if !ascending_from_zero(ranges[i].accounts@) {
            Err::<Seq<HashedAccountEntry>, StageError>(StageError::AccountsNotAscending)
        } else {
            match decode_accounts_spec(ranges[i].accounts@) {
                None => Err(StageError::AccountDecodeFailed),
                Some(entries) => Ok(prefix + entries),
            }
        },
{
    reveal(simplified_ranges_spec);
    assert(ranges.take(i + 1).drop_last() =~= ranges.take(i));
    assert(ranges.take(i + 1).last() == ranges[i]);
}

/// Once a prefix of the ranges fails, every longer prefix does.
proof fn lemma_simplified_error_sticks(ranges: Seq<AccountRangeMessage>, i: int)
    requires
        0 < i <= ranges.len(),
        simplified_ranges_spec(ranges.take(i)) is Err,
    ensures
        simplified_ranges_spec(ranges) == simplified_ranges_spec(ranges.take(i)),
    decreases ranges.len() - i,
{
    reveal(simplified_ranges_spec);
    if i < ranges.len() {
        assert(ranges.take(i + 1).drop_last() =~= ranges.take(i));
        lemma_simplified_error_sticks(ranges, i + 1);
    } else {
        assert(ranges.take(i) =~= ranges);
    }
}

} // verus!
