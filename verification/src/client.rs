//! The client side of snap sync: what a client answering snap requests provides, and a
//! downloader that walks the account trie through one.

use vstd::prelude::*;
use std::sync::Arc;
use crate::hash::{Address, B256, be_value, max_hash_value, lemma_be_value_bound, zero_hash, hash_lt};
use crate::messages::{
    AccountRangeMessage, ByteCodesMessage, GetAccountRangeMessage, GetByteCodesMessage, GetStorageRangesMessage,
    GetTrieNodesMessage, StorageRangesMessage, TrieNodesMessage, AccountData,
};
use crate::trie::{TrieAccount, U256, decode_trie_account, spec_decode_trie_account};

verus! {

/// Why a request to a peer failed.
#[derive(Debug, Clone, Copy, PartialEq, Eq, Structural)]
pub enum RequestError {
    /// The peer did not answer in time
    Timeout,
    /// The connection to the peer was lost
    ConnectionDropped,
    /// The peer's answer was not usable
    BadResponse,
}

/// Why a read from or write to the local state failed.
#[derive(Debug, Clone, Copy, PartialEq, Eq, Structural)]
pub enum ProviderError {
    /// The database could not be read or written
    Database,
}

/// A block header, as far as snap sync reads it.
#[derive(Debug, Clone, Copy, PartialEq, Eq)]
pub struct Header {
    /// Block number
    pub number: u64,
    /// State root after the block
    pub state_root: B256,
}

/// A storage slot of an account.
#[derive(Debug, Clone, Copy, PartialEq, Eq)]
pub struct StorageEntry {
    /// Slot key
    pub key: B256,
    /// Slot value, big-endian
    pub value: U256,
}

/// Reads the local chain state.
pub trait StateProvider {
    /// The header of the block with hash `hash`, if known.
    fn header_by_hash(&self, hash: B256) -> Result<Option<Header>, ProviderError>;
}

/// Writes downloaded state.
pub trait StateWriter {
    /// Writes an account.
    fn write_account(&self, address: Address, account: TrieAccount) -> Result<(), ProviderError>;

    /// Writes a storage slot of an account.
    fn write_storage(&self, address: Address, entry: StorageEntry) -> Result<(), ProviderError>;
}

/// Reports how many peers a client is connected to.
pub trait DownloadClient {
    /// The number of connected peers.
    fn num_connected_peers(&self) -> usize;
}

/// A client capable of downloading state data via the snap protocol.
pub trait SnapSyncClient {
    /// The state provider type
    type StateProvider: StateProvider;
    /// The state writer type
    type StateWriter: StateWriter;

    /// Whether `answer` is an answer this client may give to the account range request
    /// `request`.
    spec fn may_answer_account_range(&self, request: GetAccountRangeMessage, answer: AccountRangeMessage) -> bool;

    /// Fetches account range data
    fn get_account_range(&self, request: GetAccountRangeMessage) -> (r: Result<AccountRangeMessage, RequestError>)
        ensures
            r matches Ok(m) ==> self.may_answer_account_range(request, m),
    ;

    /// Fetches storage range data for multiple accounts
    fn get_storage_ranges(&self, request: GetStorageRangesMessage) -> Result<StorageRangesMessage, RequestError>;

    /// Fetches bytecode data for given code hashes
    fn get_bytecodes(&self, request: GetByteCodesMessage) -> Result<ByteCodesMessage, RequestError>;

    /// Fetches trie node data for given paths
    fn get_trie_nodes(&self, request: GetTrieNodesMessage) -> Result<TrieNodesMessage, RequestError>;

    /// Returns the state provider
    fn state_provider(&self) -> &Self::StateProvider;

    /// Returns the state writer
    fn state_writer(&self) -> &Self::StateWriter;
}

/// Why a snap sync download failed.
#[derive(Debug, Clone, Copy, PartialEq, Eq)]
pub enum SnapSyncError {
    /// Block not found
    BlockNotFound(B256),
    /// A request to a peer failed
    Network(RequestError),
    /// Reading the local state failed
    StateProvider(ProviderError),
    /// An account or storage slot could not be decoded
    Rlp,
    /// A range answer did not move past the hash it was asked from
    NoProgress,
    /// A counter would pass its greatest value
    CounterOverflow,
}

/// The accounts of `data` decoded, under their hashes, when every body decodes.
pub open spec fn decoded_accounts(data: Seq<AccountData>) -> Option<Seq<(Seq<u8>, TrieAccount)>>
    decreases data.len(),
{
    if data.len() == 0 {
        Some(Seq::empty())
    } else {
        match (decoded_accounts(data.drop_last()), spec_decode_trie_account(data.last().body@)) {
            (Some(rest), Some(a)) => Some(rest.push((data.last().hash@, a))),
            _ => None,
        }
    }
}

/// The outcome of one account range answer to a request from `cursor`: `None` when it holds
/// no account (the end of the trie), the decoded accounts and the hash to continue from
/// otherwise. It fails when a body does not decode, or when the last hash is not past the
/// cursor.
pub open spec fn account_range_outcome(data: Seq<AccountData>, cursor: Seq<u8>) -> Result<Option<(Seq<(Seq<u8>, TrieAccount)>, Seq<u8>)>, SnapSyncError> {
    if data.len() == 0 {
        Ok(None)
    } else {
        match decoded_accounts(data) {
            None => Err(SnapSyncError::Rlp),
            Some(accounts) => if be_value(data.last().hash@) <= be_value(cursor) {
                Err(SnapSyncError::NoProgress)
            } else {
                Ok(Some((accounts, data.last().hash@)))
            },
        }
    }
}

/// The views of decoded accounts.
pub open spec fn accounts_view(v: Seq<(B256, TrieAccount)>) -> Seq<(Seq<u8>, TrieAccount)> {
    v.map_values(|a: (B256, TrieAccount)| (a.0@, a.1))
}

/// Decodes one account range answer to a request from `cursor`; see
/// [`account_range_outcome`].
pub fn decode_account_range(response: &AccountRangeMessage, cursor: &B256) -> (r: Result<Option<(Vec<(B256, TrieAccount)>, B256)>, SnapSyncError>)
    ensures
        match (r, account_range_outcome(response.accounts@, cursor@)) {
            (Ok(None), Ok(None)) => true,
            (Ok(Some((accounts, next))), Ok(Some((spec_accounts, spec_next)))) => accounts_view(accounts@) == spec_accounts && next@ == spec_next,
            (Err(e), Err(spec_e)) => e == spec_e,
            _ => false,
        },
{
    let data = &response.accounts;
    if data.len() == 0 {
        return Ok(None);
    }
    let mut accounts: Vec<(B256, TrieAccount)> = Vec::new();
    let mut i: usize = 0;
    while i < data.len()
        invariant
            0 <= i <= data@.len(),
            data@ == response.accounts@,
            decoded_accounts(data@.take(i as int)) == Some(accounts_view(accounts@)),
        decreases data@.len() - i,
    {
        proof {
            assert(data@.take(i + 1).drop_last() =~= data@.take(i as int));
            assert(data@.take(i + 1).last() == data@[i as int]);
        }
        match decode_trie_account(&data[i].body) {
            Some(a) => {
                accounts.push((data[i].hash, a));
                proof {
                    assert(accounts_view(accounts@) =~= accounts_view(accounts@.drop_last()).push((data@[i as int].hash@, a)));
                    assert(accounts@.drop_last() =~= accounts@.take(accounts@.len() - 1));
                }
            },
            None => {
                proof {
                    assert(decoded_accounts(data@.take(i + 1)) is None);
                    lemma_decoded_prefix_fails(data@, i as int + 1);
                    assert(decoded_accounts(data@) is None);
                }
                return Err(SnapSyncError::Rlp);
            },
        }
        i += 1;
    }
    proof {
        assert(data@.take(data@.len() as int) =~= data@);
    }
    let last = data[data.len() - 1].hash;
    proof {
        assert(data@.last() == data@[data@.len() - 1]);
        assert(decoded_accounts(data@) == Some(accounts_view(accounts@)));
    }
    if !hash_lt(cursor, &last) {
        return Err(SnapSyncError::NoProgress);
    }
    Ok(Some((accounts, last)))
}

/// Once a prefix fails to decode, the whole sequence does.
proof fn lemma_decoded_prefix_fails(data: Seq<AccountData>, i: int)
    requires
        0 < i <= data.len(),
        decoded_accounts(data.take(i)) is None,
    ensures
        decoded_accounts(data) is None,
    decreases data.len() - i,
{
    if i < data.len() {
        assert(data.take(i + 1).drop_last() =~= data.take(i));
        lemma_decoded_prefix_fails(data, i + 1);
    } else {
        assert(data.take(i) =~= data);
    }
}

/// The request of an account trie walk: the accounts under `state_root` from `cursor` to the
/// greatest hash, numbered `request_id`, answered in at most `response_bytes`.
pub fn account_range_request(state_root: B256, cursor: B256, request_id: u64, response_bytes: u64) -> (r: GetAccountRangeMessage)
    ensures
        r.request_id == request_id,
        r.root_hash == state_root,
        r.starting_hash == cursor,
        r.limit_hash == vstd::array::spec_array_fill_for_copy_type::<u8, 32>(0xffu8),
        r.response_bytes == response_bytes,
{
    GetAccountRangeMessage { request_id, root_hash: state_root, starting_hash: cursor, limit_hash: [0xffu8; 32], response_bytes }
}

/// The outcome of looking up the header of block `block_hash`: a failed lookup is a state
/// provider error, an unknown block is not found, and a known block gives its state root.
pub open spec fn header_outcome(answer: Result<Option<Header>, ProviderError>, block_hash: B256) -> Result<B256, SnapSyncError> {
    match answer {
        Err(e) => Err(SnapSyncError::StateProvider(e)),
        Ok(None) => Err(SnapSyncError::BlockNotFound(block_hash)),
        Ok(Some(h)) => Ok(h.state_root),
    }
}

/// The state root to download, from the answer of the header lookup of block `block_hash`;
/// see [`header_outcome`].
pub fn state_root_from_header(answer: Result<Option<Header>, ProviderError>, block_hash: B256) -> (r: Result<B256, SnapSyncError>)
    ensures
        r == header_outcome(answer, block_hash),
{
    match answer {
        Err(e) => Err(SnapSyncError::StateProvider(e)),
        Ok(None) => Err(SnapSyncError::BlockNotFound(block_hash)),
        Ok(Some(h)) => Ok(h.state_root),
    }
}

/// Coordinates downloading state data from peers through a snap client.
pub struct SnapDownloader<C: SnapSyncClient> {
    /// The client requests are sent through
    pub client: Arc<C>,
}

impl<C: SnapSyncClient> SnapDownloader<C> {
    /// A downloader sending its requests through `client`.
    pub fn new(client: Arc<C>) -> (d: Self)
        ensures
            d.client == client,
    {
        SnapDownloader { client }
    }

    /// Downloads the accounts of the state of block `block_hash`: the state root is read from
    /// the block's header, then the account trie is walked from the zero hash, each answer
    /// asking on from the last account it held, until an answer holds no account. Fails when
    /// the header cannot be read or is unknown, when a request fails, or when an answer cannot
    /// be used (see [`account_range_outcome`]). What peers answer is outside this contract.
    pub fn download_state(&self, block_hash: B256) -> (r: Result<(), SnapSyncError>)
        ensures
            r matches Err(SnapSyncError::BlockNotFound(h)) ==> h == block_hash,
            r matches Err(e) ==> (e is StateProvider || e is BlockNotFound || e is Network || e is Rlp
                || e is NoProgress || e is CounterOverflow),
    {
        let answer = self.client.state_provider().header_by_hash(block_hash);
        let state_root = state_root_from_header(answer, block_hash)?;
        let mut account_cursor = zero_hash();
        let mut processed_accounts: usize = 0;
        proof {
            lemma_be_value_bound(account_cursor@);
        }
        loop
            invariant
                be_value(account_cursor@) <= max_hash_value(),
            decreases max_hash_value() - be_value(account_cursor@),
        {
            let request = account_range_request(state_root, account_cursor, 0, 1_000_000);
            let response = match self.client.get_account_range(request) {
                Ok(r) => r,
                Err(e) => {
                    return Err(SnapSyncError::Network(e));
                },
            };
            match decode_account_range(&response, &account_cursor) {
                Err(e) => {
                    return Err(e);
                },
                Ok(None) => {
                    break;
                },
                Ok(Some((accounts, next))) => {
                    processed_accounts = match processed_accounts.checked_add(accounts.len()) {
                        Some(n) => n,
                        None => {
                            return Err(SnapSyncError::CounterOverflow);
                        },
                    };
                    proof {
                        lemma_be_value_bound(next@);
                    }
                    account_cursor = next;
                },
            }
        }
        Ok(())
    }
}

} // verus!
