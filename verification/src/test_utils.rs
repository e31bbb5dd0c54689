//! A snap client answering from canned responses, and a downloader configuration for tests.

use vstd::prelude::*;
use std::sync::Arc;
use crate::client::{RequestError, SnapSyncClient};
use crate::downloader::SnapSyncConfig;
use crate::example::{ExampleStateProvider, ExampleStateWriter};
use crate::messages::{
    copy_accounts, copy_byte_lists, copy_slot_groups,
    AccountRangeMessage, ByteCodesMessage, GetAccountRangeMessage, GetByteCodesMessage, GetStorageRangesMessage,
    GetTrieNodesMessage, StorageRangesMessage, TrieNodesMessage,
};
use crate::task::TaskSnapDownloader;

verus! {

/// A snap client that answers each kind of request with the first canned response of that
/// kind, or with an empty response numbered zero when there is none.
pub struct TestSnapClient {
    /// Canned responses for account ranges
    pub account_range_responses: Vec<AccountRangeMessage>,
    /// Canned responses for storage ranges
    pub storage_range_responses: Vec<StorageRangesMessage>,
    /// Canned responses for byte codes
    pub byte_code_responses: Vec<ByteCodesMessage>,
    /// Canned responses for trie nodes
    pub trie_node_responses: Vec<TrieNodesMessage>,
    /// The state provider handed out
    pub provider: ExampleStateProvider,
    /// The state writer handed out
    pub writer: ExampleStateWriter,
}

impl TestSnapClient {
    /// A client with no canned responses.
    pub fn new() -> (c: Self)
        ensures
            c.account_range_responses@.len() == 0,
            c.storage_range_responses@.len() == 0,
            c.byte_code_responses@.len() == 0,
            c.trie_node_responses@.len() == 0,
    {
        TestSnapClient {
            account_range_responses: Vec::new(),
            storage_range_responses: Vec::new(),
            byte_code_responses: Vec::new(),
            trie_node_responses: Vec::new(),
            provider: ExampleStateProvider,
            writer: ExampleStateWriter,
        }
    }

    /// The client with one more canned account range response.
    pub fn add_account_range_response(self, response: AccountRangeMessage) -> (c: Self)
        ensures
            c.account_range_responses@ == self.account_range_responses@.push(response),
            c.storage_range_responses@ == self.storage_range_responses@,
            c.byte_code_responses@ == self.byte_code_responses@,
            c.trie_node_responses@ == self.trie_node_responses@,
    {
        let mut c = self;
        c.account_range_responses.push(response);
        c
    }

    /// The client with one more canned storage range response.
    pub fn add_storage_range_response(self, response: StorageRangesMessage) -> (c: Self)
        ensures
            c.storage_range_responses@ == self.storage_range_responses@.push(response),
            c.account_range_responses@ == self.account_range_responses@,
            c.byte_code_responses@ == self.byte_code_responses@,
            c.trie_node_responses@ == self.trie_node_responses@,
    {
        let mut c = self;
        c.storage_range_responses.push(response);
        c
    }

    /// The client with one more canned byte code response.
    pub fn add_byte_code_response(self, response: ByteCodesMessage) -> (c: Self)
        ensures
            c.byte_code_responses@ == self.byte_code_responses@.push(response),
            c.account_range_responses@ == self.account_range_responses@,
            c.storage_range_responses@ == self.storage_range_responses@,
            c.trie_node_responses@ == self.trie_node_responses@,
    {
        let mut c = self;
        c.byte_code_responses.push(response);
        c
    }

    /// The client with one more canned trie node response.
    pub fn add_trie_node_response(self, response: TrieNodesMessage) -> (c: Self)
        ensures
            c.trie_node_responses@ == self.trie_node_responses@.push(response),
            c.account_range_responses@ == self.account_range_responses@,
            c.storage_range_responses@ == self.storage_range_responses@,
            c.byte_code_responses@ == self.byte_code_responses@,
    {
        let mut c = self;
        c.trie_node_responses.push(response);
        c
    }
}

impl SnapSyncClient for TestSnapClient {
    type StateProvider = ExampleStateProvider;
    type StateWriter = ExampleStateWriter;

    /// The first canned account range response, or an empty response numbered zero.
    open spec fn may_answer_account_range(&self, request: GetAccountRangeMessage, answer: AccountRangeMessage) -> bool {
        if self.account_range_responses@.len() > 0 {
            answer.same_contents(&self.account_range_responses@[0])
        } else {
            answer.request_id == 0 && answer.accounts@.len() == 0 && answer.proof@.len() == 0
        }
    }

    fn get_account_range(&self, request: GetAccountRangeMessage) -> (r: Result<AccountRangeMessage, RequestError>)
        ensures
            r is Ok,
            self.account_range_responses@.len() == 0 ==> (r matches Ok(m) && m.request_id == 0 && m.accounts@.len() == 0 && m.proof@.len() == 0),
            self.account_range_responses@.len() > 0 ==> (r matches Ok(m) && m.same_contents(&self.account_range_responses@[0])),
    {
        if self.account_range_responses.len() > 0 {
            let first = &self.account_range_responses[0];
            Ok(AccountRangeMessage { request_id: first.request_id, accounts: copy_accounts(&first.accounts), proof: copy_byte_lists(&first.proof) })
        } else {
            Ok(AccountRangeMessage { request_id: 0, accounts: Vec::new(), proof: Vec::new() })
        }
    }

    fn get_storage_ranges(&self, request: GetStorageRangesMessage) -> (r: Result<StorageRangesMessage, RequestError>)
        ensures
            r is Ok,
            self.storage_range_responses@.len() == 0 ==> (r matches Ok(m) && m.request_id == 0 && m.slots@.len() == 0 && m.proof@.len() == 0),
            self.storage_range_responses@.len() > 0 ==> (r matches Ok(m) && m.same_contents(&self.storage_range_responses@[0])),
    {
        if self.storage_range_responses.len() > 0 {
            let first = &self.storage_range_responses[0];
            Ok(StorageRangesMessage { request_id: first.request_id, slots: copy_slot_groups(&first.slots), proof: copy_byte_lists(&first.proof) })
        } else {
            Ok(StorageRangesMessage { request_id: 0, slots: Vec::new(), proof: Vec::new() })
        }
    }

    fn get_bytecodes(&self, request: GetByteCodesMessage) -> (r: Result<ByteCodesMessage, RequestError>)
        ensures
            r is Ok,
            self.byte_code_responses@.len() == 0 ==> (r matches Ok(m) && m.request_id == 0 && m.codes@.len() == 0),
            self.byte_code_responses@.len() > 0 ==> (r matches Ok(m) && m.same_contents(&self.byte_code_responses@[0])),
    {
        if self.byte_code_responses.len() > 0 {
            let first = &self.byte_code_responses[0];
            Ok(ByteCodesMessage { request_id: first.request_id, codes: copy_byte_lists(&first.codes) })
        } else {
            Ok(ByteCodesMessage { request_id: 0, codes: Vec::new() })
        }
    }

    fn get_trie_nodes(&self, request: GetTrieNodesMessage) -> (r: Result<TrieNodesMessage, RequestError>)
        ensures
            r is Ok,
            self.trie_node_responses@.len() == 0 ==> (r matches Ok(m) && m.request_id == 0 && m.nodes@.len() == 0),
            self.trie_node_responses@.len() > 0 ==> (r matches Ok(m) && m.same_contents(&self.trie_node_responses@[0])),
    {
        if self.trie_node_responses.len() > 0 {
            let first = &self.trie_node_responses[0];
            Ok(TrieNodesMessage { request_id: first.request_id, nodes: copy_byte_lists(&first.nodes) })
        } else {
            Ok(TrieNodesMessage { request_id: 0, nodes: Vec::new() })
        }
    }

    fn state_provider(&self) -> (p: &ExampleStateProvider)
        ensures
            *p == self.provider,
    {
        &self.provider
    }

    fn state_writer(&self) -> (w: &ExampleStateWriter)
        ensures
            *w == self.writer,
    {
        &self.writer
    }
}

/// A task downloader over `client` with an empty request queue.
pub fn create_test_snap_sync_downloader<C: SnapSyncClient>(client: Arc<C>) -> (d: TaskSnapDownloader<C>)
    ensures
        d.client == client,
        d.request_queue.next_id() == 0,
        d.request_queue.spec_pending_count() == 0,
{
    TaskSnapDownloader::new(client)
}

/// A small downloader configuration for tests: two concurrent requests of at most 1 MiB,
/// batches of 100 accounts, 100 storage ranges and 10 byte codes.
pub fn create_test_snap_sync_config() -> (c: SnapSyncConfig)
    ensures
        c == (SnapSyncConfig {
            max_concurrent_requests: 2,
            max_response_size: 1048576,
            account_batch_size: 100,
            storage_batch_size: 100,
            bytecode_batch_size: 10,
        }),
{
    SnapSyncConfig {
        max_concurrent_requests: 2,
        max_response_size: 1048576,
        account_batch_size: 100,
        storage_batch_size: 100,
        bytecode_batch_size: 10,
    }
}

} // verus!
