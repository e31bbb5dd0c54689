//! An example snap sync client, state provider and state writer, answering every request with
//! no data.

use vstd::prelude::*;
use crate::client::{
    DownloadClient, Header, ProviderError, RequestError, SnapSyncClient, StateProvider, StateWriter, StorageEntry,
};
use crate::hash::{Address, B256};
use crate::messages::{
    AccountRangeMessage, ByteCodesMessage, GetAccountRangeMessage, GetByteCodesMessage, GetStorageRangesMessage,
    GetTrieNodesMessage, StorageRangesMessage, TrieNodesMessage,
};
use crate::trie::TrieAccount;

verus! {

/// Example state provider: it knows no header.
#[derive(Debug, Clone, Copy)]
pub struct ExampleStateProvider;

impl StateProvider for ExampleStateProvider {
    fn header_by_hash(&self, hash: B256) -> (r: Result<Option<Header>, ProviderError>)
        ensures
            r == Ok::<Option<Header>, ProviderError>(None),
    {
        Ok(None)
    }
}

/// Example state writer: every write succeeds and is dropped.
#[derive(Debug, Clone, Copy)]
pub struct ExampleStateWriter;

impl StateWriter for ExampleStateWriter {
    fn write_account(&self, address: Address, account: TrieAccount) -> (r: Result<(), ProviderError>)
        ensures
            r is Ok,
    {
        Ok(())
    }

    fn write_storage(&self, address: Address, entry: StorageEntry) -> (r: Result<(), ProviderError>)
        ensures
            r is Ok,
    {
        Ok(())
    }
}

/// Example snap sync client: it answers every request, with no data.
#[derive(Debug)]
pub struct ExampleSnapSyncClient {
    /// The state provider handed out
    pub provider: ExampleStateProvider,
    /// The state writer handed out
    pub writer: ExampleStateWriter,
}

impl ExampleSnapSyncClient {
    /// A new example client.
    pub fn new() -> (c: Self) {
        ExampleSnapSyncClient { provider: ExampleStateProvider, writer: ExampleStateWriter }
    }
}

impl SnapSyncClient for ExampleSnapSyncClient {
    type StateProvider = ExampleStateProvider;
    type StateWriter = ExampleStateWriter;

    /// An empty response under the request's id.
    open spec fn may_answer_account_range(&self, request: GetAccountRangeMessage, answer: AccountRangeMessage) -> bool {
        answer.request_id == request.request_id && answer.accounts@.len() == 0 && answer.proof@.len() == 0
    }

    fn get_account_range(&self, request: GetAccountRangeMessage) -> (r: Result<AccountRangeMessage, RequestError>)
        ensures
            r matches Ok(m) && m.request_id == request.request_id && m.accounts@.len() == 0 && m.proof@.len() == 0,
    {
        Ok(AccountRangeMessage { request_id: request.request_id, accounts: Vec::new(), proof: Vec::new() })
    }

    fn get_storage_ranges(&self, request: GetStorageRangesMessage) -> (r: Result<StorageRangesMessage, RequestError>)
        ensures
            r matches Ok(m) && m.request_id == request.request_id && m.slots@.len() == 0 && m.proof@.len() == 0,
    {
        Ok(StorageRangesMessage { request_id: request.request_id, slots: Vec::new(), proof: Vec::new() })
    }

    fn get_bytecodes(&self, request: GetByteCodesMessage) -> (r: Result<ByteCodesMessage, RequestError>)
        ensures
            r matches Ok(m) && m.request_id == request.request_id && m.codes@.len() == 0,
    {
        Ok(ByteCodesMessage { request_id: request.request_id, codes: Vec::new() })
    }

    fn get_trie_nodes(&self, request: GetTrieNodesMessage) -> (r: Result<TrieNodesMessage, RequestError>)
        ensures
            r matches Ok(m) && m.request_id == request.request_id && m.nodes@.len() == 0,
    {
        Ok(TrieNodesMessage { request_id: request.request_id, nodes: Vec::new() })
    }

    fn state_provider(&self) -> (p: &ExampleStateProvider)
        ensures
            *p == self.provider,
    {
        &self.provider
    }

    fn state_writer(&self) -> (w: &ExampleStateWriter)
        ensures
            *w == self.writer,
    {
        &self.writer
    }
}

/// A snap client that answers account range requests with an empty range numbered one.
#[derive(Debug, Clone, Copy)]
pub struct MockSnapClient;

impl MockSnapClient {
    /// An empty account range answer, numbered one.
    pub fn get_account_range(&self, request: GetAccountRangeMessage) -> (r: Result<AccountRangeMessage, RequestError>)
        ensures
            r matches Ok(m) && m.request_id == 1 && m.accounts@.len() == 0 && m.proof@.len() == 0,
    {
        Ok(AccountRangeMessage { request_id: 1, accounts: Vec::new(), proof: Vec::new() })
    }
}

} // verus!
