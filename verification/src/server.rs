//! The serving side of snap sync: answers to the snap requests of other nodes.

use vstd::prelude::*;
use crate::client::RequestError;
use crate::hash::{B256, be_value, zero_hash};
use crate::messages::{
    AccountData, AccountRangeMessage, ByteCodesMessage, GetAccountRangeMessage, GetByteCodesMessage,
    GetStorageRangesMessage, GetTrieNodesMessage, StorageData, StorageRangesMessage, TriePath, TrieNodesMessage,
};
use crate::queue::SnapRequestQueue;

verus! {

/// Serves snap sync data to requesting peers. The local state holds no data to serve yet, so
/// every answer is empty.
pub struct SnapSyncServer {
    /// Request queue for managing incoming requests
    pub request_queue: SnapRequestQueue,
}

impl SnapSyncServer {
    /// A server with an empty request queue.
    pub fn new() -> (s: Self)
        ensures
            s.request_queue.spec_pending_count() == 0,
            s.request_queue.next_id() == 0,
    {
        SnapSyncServer { request_queue: SnapRequestQueue::new() }
    }

    /// The state root of the block with hash `block_hash`: the zero hash.
    fn get_state_root_for_block(&self, block_hash: B256) -> (r: Result<B256, RequestError>)
        ensures
            r is Ok,
            r matches Ok(h) && be_value(h@) == 0,
    {
        Ok(zero_hash())
    }

    /// The accounts of a range: none.
    fn get_account_range(&self, state_root: B256, starting_hash: B256, limit_hash: B256, response_bytes: u64) -> (r: Result<Vec<AccountData>, RequestError>)
        ensures
            r matches Ok(v) && v@.len() == 0,
    {
        Ok(Vec::new())
    }

    /// The proof of an account range: no node.
    fn get_account_range_proof(&self, state_root: B256, starting_hash: B256, limit_hash: B256) -> (r: Result<Vec<Vec<u8>>, RequestError>)
        ensures
            r matches Ok(v) && v@.len() == 0,
    {
        Ok(Vec::new())
    }

    /// The storage slots of one account in a range: none.
    fn get_storage_range(&self, state_root: B256, account_hash: B256, starting_hash: B256, limit_hash: B256, response_bytes: u64) -> (r: Result<Vec<StorageData>, RequestError>)
        ensures
            r matches Ok(v) && v@.len() == 0,
    {
        Ok(Vec::new())
    }

    /// The proof of storage ranges: no node.
    fn get_storage_ranges_proof(&self, state_root: B256, account_hashes: &Vec<B256>, starting_hash: B256, limit_hash: B256) -> (r: Result<Vec<Vec<u8>>, RequestError>)
        ensures
            r matches Ok(v) && v@.len() == 0,
    {
        Ok(Vec::new())
    }

    /// Byte codes by hash: none.
    fn get_byte_codes(&self, hashes: Vec<B256>, response_bytes: u64) -> (r: Result<Vec<Vec<u8>>, RequestError>)
        ensures
            r matches Ok(v) && v@.len() == 0,
    {
        Ok(Vec::new())
    }

    /// Trie nodes by path: none.
    fn get_trie_nodes(&self, state_root: B256, paths: Vec<TriePath>, response_bytes: u64) -> (r: Result<Vec<Vec<u8>>, RequestError>)
        ensures
            r matches Ok(v) && v@.len() == 0,
    {
        Ok(Vec::new())
    }

    /// Answers an account range request, under the request's id.
    pub fn handle_account_range_request(&self, request: GetAccountRangeMessage) -> (r: Result<AccountRangeMessage, RequestError>)
        ensures
            r matches Ok(m) && m.request_id == request.request_id && m.accounts@.len() == 0 && m.proof@.len() == 0,
    {
        let state_root = self.get_state_root_for_block(request.root_hash)?;
        let accounts = self.get_account_range(state_root, request.starting_hash, request.limit_hash, request.response_bytes)?;
        let proof = self.get_account_range_proof(state_root, request.starting_hash, request.limit_hash)?;
        Ok(AccountRangeMessage { request_id: request.request_id, accounts, proof })
    }

    /// Answers a storage ranges request, under the request's id: one list of slots per
    /// requested account, in request order.
    pub fn handle_storage_ranges_request(&self, request: GetStorageRangesMessage) -> (r: Result<StorageRangesMessage, RequestError>)
        ensures
            r matches Ok(m) && m.request_id == request.request_id && m.proof@.len() == 0
                && m.slots@.len() == request.account_hashes@.len()
                && forall|i: int| 0 <= i < m.slots@.len() ==> (#[trigger] m.slots@[i])@.len() == 0,
    {
        let state_root = self.get_state_root_for_block(request.root_hash)?;
        let mut slots: Vec<Vec<StorageData>> = Vec::new();
        let mut i: usize = 0;
        while i < request.account_hashes.len()
            invariant
                0 <= i <= request.account_hashes@.len(),
                slots@.len() == i,
                forall|k: int| 0 <= k < slots@.len() ==> (#[trigger] slots@[k])@.len() == 0,
            decreases request.account_hashes@.len() - i,
        {
            let account_slots = self.get_storage_range(
                state_root,
                request.account_hashes[i],
                request.starting_hash,
                request.limit_hash,
                request.response_bytes,
            )?;
            slots.push(account_slots);
            i += 1;
        }
        let proof = self.get_storage_ranges_proof(state_root, &request.account_hashes, request.starting_hash, request.limit_hash)?;
        Ok(StorageRangesMessage { request_id: request.request_id, slots, proof })
    }

    /// Answers a byte codes request, under the request's id.
    pub fn handle_byte_codes_request(&self, request: GetByteCodesMessage) -> (r: Result<ByteCodesMessage, RequestError>)
        ensures
            r matches Ok(m) && m.request_id == request.request_id && m.codes@.len() == 0,
    {
        let codes = self.get_byte_codes(request.hashes, request.response_bytes)?;
        Ok(ByteCodesMessage { request_id: request.request_id, codes })
    }

    /// Answers a trie nodes request, under the request's id.
    pub fn handle_trie_nodes_request(&self, request: GetTrieNodesMessage) -> (r: Result<TrieNodesMessage, RequestError>)
        ensures
            r matches Ok(m) && m.request_id == request.request_id && m.nodes@.len() == 0,
    {
        let state_root = self.get_state_root_for_block(request.root_hash)?;
        let nodes = self.get_trie_nodes(state_root, request.paths, request.response_bytes)?;
        Ok(TrieNodesMessage { request_id: request.request_id, nodes })
    }
}

} // verus!
