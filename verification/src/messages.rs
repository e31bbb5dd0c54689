//! The snap protocol request and response messages, held as plain values.

use vstd::prelude::*;
use crate::hash::B256;

verus! {

/// A request for the accounts whose hashes lie in `[starting_hash, limit_hash]` under `root_hash`.
#[derive(Debug, Clone, PartialEq, Eq)]
pub struct GetAccountRangeMessage {
    pub request_id: u64,
    pub root_hash: B256,
    pub starting_hash: B256,
    pub limit_hash: B256,
    pub response_bytes: u64,
}

/// One account of a range: its hash and its RLP-encoded body.
#[derive(Debug, Clone, PartialEq, Eq)]
pub struct AccountData {
    pub hash: B256,
    pub body: Vec<u8>,
}

/// A range of accounts with the proof nodes of its boundaries.
#[derive(Debug, Clone, PartialEq, Eq)]
pub struct AccountRangeMessage {
    pub request_id: u64,
    pub accounts: Vec<AccountData>,
    pub proof: Vec<Vec<u8>>,
}

/// A request for storage slots of several accounts.
#[derive(Debug, Clone, PartialEq, Eq)]
pub struct GetStorageRangesMessage {
    pub request_id: u64,
    pub root_hash: B256,
    pub account_hashes: Vec<B256>,
    pub starting_hash: B256,
    pub limit_hash: B256,
    pub response_bytes: u64,
}

/// One storage slot: its hashed key and its RLP-encoded value.
#[derive(Debug, Clone, PartialEq, Eq)]
pub struct StorageData {
    pub hash: B256,
    pub data: Vec<u8>,
}

/// Storage slots per requested account, with boundary proofs.
#[derive(Debug, Clone, PartialEq, Eq)]
pub struct StorageRangesMessage {
    pub request_id: u64,
    pub slots: Vec<Vec<StorageData>>,
    pub proof: Vec<Vec<u8>>,
}

/// A request for contract byte codes by code hash.
#[derive(Debug, Clone, PartialEq, Eq)]
pub struct GetByteCodesMessage {
    pub request_id: u64,
    pub hashes: Vec<B256>,
    pub response_bytes: u64,
}

/// Byte codes answering a [`GetByteCodesMessage`].
#[derive(Debug, Clone, PartialEq, Eq)]
pub struct ByteCodesMessage {
    pub request_id: u64,
    pub codes: Vec<Vec<u8>>,
}

/// A path into the account trie, optionally followed by paths into a storage trie.
#[derive(Debug, Clone, PartialEq, Eq)]
pub struct TriePath {
    pub paths: Vec<Vec<u8>>,
}

/// A request for trie nodes by path.
#[derive(Debug, Clone, PartialEq, Eq)]
pub struct GetTrieNodesMessage {
    pub request_id: u64,
    pub root_hash: B256,
    pub paths: Vec<TriePath>,
    pub response_bytes: u64,
}

/// Trie nodes answering a [`GetTrieNodesMessage`].
#[derive(Debug, Clone, PartialEq, Eq)]
pub struct TrieNodesMessage {
    pub request_id: u64,
    pub nodes: Vec<Vec<u8>>,
}

/// One response handed out by the state downloader.
#[derive(Debug, Clone, PartialEq, Eq)]
pub enum SnapSyncResult {
    /// An account range with its proof
    AccountRange(AccountRangeMessage),
    /// Storage ranges with their proof
    StorageRanges(StorageRangesMessage),
    /// Byte codes
    ByteCodes(ByteCodesMessage),
    /// Trie nodes
    TrieNodes(TrieNodesMessage),
}

/// Byte strings as sequences.
pub open spec fn byte_lists(v: Seq<Vec<u8>>) -> Seq<Seq<u8>> {
    v.map_values(|b: Vec<u8>| b@)
}

/// Accounts as their hashes and bodies.
pub open spec fn accounts_contents(v: Seq<AccountData>) -> Seq<(B256, Seq<u8>)> {
    v.map_values(|a: AccountData| (a.hash, a.body@))
}

/// Storage slots as their hashes and values.
pub open spec fn slots_contents(v: Seq<StorageData>) -> Seq<(B256, Seq<u8>)> {
    v.map_values(|d: StorageData| (d.hash, d.data@))
}

/// The slots of several accounts as their hashes and values, account by account.
pub open spec fn slot_groups_contents(v: Seq<Vec<StorageData>>) -> Seq<Seq<(B256, Seq<u8>)>> {
    v.map_values(|g: Vec<StorageData>| slots_contents(g@))
}

impl AccountRangeMessage {
    /// Whether `other` holds the same id, accounts and proof.
    pub open spec fn same_contents(&self, other: &Self) -> bool {
        &&& self.request_id == other.request_id
        &&& accounts_contents(self.accounts@) == accounts_contents(other.accounts@)
        &&& byte_lists(self.proof@) == byte_lists(other.proof@)
    }
}

impl StorageRangesMessage {
    /// Whether `other` holds the same id, slots and proof.
    pub open spec fn same_contents(&self, other: &Self) -> bool {
        &&& self.request_id == other.request_id
        &&& slot_groups_contents(self.slots@) == slot_groups_contents(other.slots@)
        &&& byte_lists(self.proof@) == byte_lists(other.proof@)
    }
}

impl ByteCodesMessage {
    /// Whether `other` holds the same id and codes.
    pub open spec fn same_contents(&self, other: &Self) -> bool {
        &&& self.request_id == other.request_id
        &&& byte_lists(self.codes@) == byte_lists(other.codes@)
    }
}

impl TrieNodesMessage {
    /// Whether `other` holds the same id and nodes.
    pub open spec fn same_contents(&self, other: &Self) -> bool {
        &&& self.request_id == other.request_id
        &&& byte_lists(self.nodes@) == byte_lists(other.nodes@)
    }
}

/// A copy of a byte string.
pub fn copy_bytes(v: &Vec<u8>) -> (c: Vec<u8>)
    ensures
        c@ == v@,
{
    let mut c: Vec<u8> = Vec::new();
    let mut i: usize = 0;
    while i < v.len()
        invariant
            0 <= i <= v@.len(),
            c@ == v@.take(i as int),
        decreases v@.len() - i,
    {
        c.push(v[i]);
        i += 1;
        assert(c@ =~= v@.take(i as int));
    }
    assert(v@.take(v@.len() as int) =~= v@);
    c
}

/// A copy of a list of byte strings.
pub fn copy_byte_lists(v: &Vec<Vec<u8>>) -> (c: Vec<Vec<u8>>)
    ensures
        byte_lists(c@) == byte_lists(v@),
{
    let mut c: Vec<Vec<u8>> = Vec::new();
    let mut i: usize = 0;
    while i < v.len()
        invariant
            0 <= i <= v@.len(),
            byte_lists(c@) == byte_lists(v@.take(i as int)),
            c@.len() == i,
        decreases v@.len() - i,
    {
        let ghost before = c@;
        c.push(copy_bytes(&v[i]));
        proof {
            assert forall|j: int| 0 <= j < i + 1 implies #[trigger] byte_lists(c@)[j] == byte_lists(v@.take(i + 1))[j] by {
                if j < i {
                    assert(c@[j] == before[j]);
                    assert(byte_lists(before)[j] == byte_lists(v@.take(i as int))[j]);
                }
            }
            assert(byte_lists(c@) =~= byte_lists(v@.take(i + 1)));
        }
        i += 1;
    }
    assert(v@.take(v@.len() as int) =~= v@);
    c
}

/// A copy of a list of accounts.
pub fn copy_accounts(v: &Vec<AccountData>) -> (c: Vec<AccountData>)
    ensures
        accounts_contents(c@) == accounts_contents(v@),
{
    let mut c: Vec<AccountData> = Vec::new();
    let mut i: usize = 0;
    while i < v.len()
        invariant
            0 <= i <= v@.len(),
            accounts_contents(c@) == accounts_contents(v@.take(i as int)),
            c@.len() == i,
        decreases v@.len() - i,
    {
        let ghost before = c@;
        c.push(AccountData { hash: v[i].hash, body: copy_bytes(&v[i].body) });
        proof {
            assert forall|j: int| 0 <= j < i + 1 implies #[trigger] accounts_contents(c@)[j] == accounts_contents(v@.take(i + 1))[j] by {
                if j < i {
                    assert(c@[j] == before[j]);
                    assert(accounts_contents(before)[j] == accounts_contents(v@.take(i as int))[j]);
                }
            }
            assert(accounts_contents(c@) =~= accounts_contents(v@.take(i + 1)));
        }
        i += 1;
    }
    assert(v@.take(v@.len() as int) =~= v@);
    c
}

/// A copy of a list of storage slots.
pub fn copy_slots(v: &Vec<StorageData>) -> (c: Vec<StorageData>)
    ensures
        slots_contents(c@) == slots_contents(v@),
{
    let mut c: Vec<StorageData> = Vec::new();
    let mut i: usize = 0;
    while i < v.len()
        invariant
            0 <= i <= v@.len(),
            slots_contents(c@) == slots_contents(v@.take(i as int)),
            c@.len() == i,
        decreases v@.len() - i,
    {
        let ghost before = c@;
        c.push(StorageData { hash: v[i].hash, data: copy_bytes(&v[i].data) });
        proof {
            assert forall|j: int| 0 <= j < i + 1 implies #[trigger] slots_contents(c@)[j] == slots_contents(v@.take(i + 1))[j] by {
                if j < i {
                    assert(c@[j] == before[j]);
                    assert(slots_contents(before)[j] == slots_contents(v@.take(i as int))[j]);
                }
            }
            assert(slots_contents(c@) =~= slots_contents(v@.take(i + 1)));
        }
        i += 1;
    }
    assert(v@.take(v@.len() as int) =~= v@);
    c
}

/// A copy of the slots of several accounts.
pub fn copy_slot_groups(v: &Vec<Vec<StorageData>>) -> (c: Vec<Vec<StorageData>>)
    ensures
        slot_groups_contents(c@) == slot_groups_contents(v@),
{
    let mut c: Vec<Vec<StorageData>> = Vec::new();
    let mut i: usize = 0;
    while i < v.len()
        invariant
            0 <= i <= v@.len(),
            slot_groups_contents(c@) == slot_groups_contents(v@.take(i as int)),
            c@.len() == i,
        decreases v@.len() - i,
    {
        let ghost before = c@;
        c.push(copy_slots(&v[i]));
        proof {
            assert forall|j: int| 0 <= j < i + 1 implies #[trigger] slot_groups_contents(c@)[j] == slot_groups_contents(v@.take(i + 1))[j] by {
                if j < i {
                    assert(c@[j] == before[j]);
                    assert(slot_groups_contents(before)[j] == slot_groups_contents(v@.take(i as int))[j]);
                }
            }
            assert(slot_groups_contents(c@) =~= slot_groups_contents(v@.take(i + 1)));
        }
        i += 1;
    }
    assert(v@.take(v@.len() as int) =~= v@);
    c
}

} // verus!
