//! A downloader that sends single snap requests, numbering them from its request queue.

use vstd::prelude::*;
use std::sync::Arc;
use crate::client::{RequestError, SnapSyncClient};
use crate::hash::B256;
use crate::messages::{
    AccountRangeMessage, ByteCodesMessage, GetAccountRangeMessage, GetByteCodesMessage, GetStorageRangesMessage,
    GetTrieNodesMessage, StorageRangesMessage, TrieNodesMessage, TriePath,
};
use crate::queue::SnapRequestQueue;

verus! {

/// Sends individual snap requests through a client, numbered by its request queue.
pub struct TaskSnapDownloader<C: SnapSyncClient> {
    /// The snap client for making requests
    pub client: Arc<C>,
    /// Request queue for managing pending requests
    pub request_queue: SnapRequestQueue,
}

/// Whether `after` is `before` with one request id taken.
pub open spec fn id_taken(before: &SnapRequestQueue, after: &SnapRequestQueue) -> bool {
    &&& after.next_id() == before.next_id() + 1
    &&& after.accounts() == before.accounts()
    &&& after.storage() == before.storage()
    &&& after.byte_codes() == before.byte_codes()
    &&& after.trie_nodes() == before.trie_nodes()
}

impl<C: SnapSyncClient> TaskSnapDownloader<C> {
    /// A downloader with an empty queue whose first request id is zero.
    pub fn new(client: Arc<C>) -> (d: Self)
        ensures
            d.client == client,
            d.request_queue.next_id() == 0,
            d.request_queue.spec_pending_count() == 0,
    {
        TaskSnapDownloader { client, request_queue: SnapRequestQueue::new() }
    }

    /// Requests the accounts in `[starting_hash, limit_hash]` under `root_hash`, with the next
    /// request id.
    pub fn download_account_range(&mut self, root_hash: B256, starting_hash: B256, limit_hash: B256, response_bytes: u64) -> (r: Result<AccountRangeMessage, RequestError>)
        requires
            old(self).request_queue.next_id() < u64::MAX,
        ensures
            id_taken(&old(self).request_queue, &final(self).request_queue),
            final(self).client == old(self).client,
    {
        let request_id = self.request_queue.next_request_id();
        let request = GetAccountRangeMessage { request_id, root_hash, starting_hash, limit_hash, response_bytes };
        self.client.get_account_range(request)
    }

    /// Requests the storage of `account_hashes` in `[starting_hash, limit_hash]` under
    /// `root_hash`, with the next request id.
    pub fn download_storage_ranges(&mut self, root_hash: B256, account_hashes: Vec<B256>, starting_hash: B256, limit_hash: B256, response_bytes: u64) -> (r: Result<StorageRangesMessage, RequestError>)
        requires
            old(self).request_queue.next_id() < u64::MAX,
        ensures
            id_taken(&old(self).request_queue, &final(self).request_queue),
            final(self).client == old(self).client,
    {
        let request_id = self.request_queue.next_request_id();
        let request = GetStorageRangesMessage { request_id, root_hash, account_hashes, starting_hash, limit_hash, response_bytes };
        self.client.get_storage_ranges(request)
    }

    /// Requests the byte codes with code hashes `hashes`, with the next request id.
    pub fn download_byte_codes(&mut self, hashes: Vec<B256>, response_bytes: u64) -> (r: Result<ByteCodesMessage, RequestError>)
        requires
            old(self).request_queue.next_id() < u64::MAX,
        ensures
            id_taken(&old(self).request_queue, &final(self).request_queue),
            final(self).client == old(self).client,
    {
        let request_id = self.request_queue.next_request_id();
        let request = GetByteCodesMessage { request_id, hashes, response_bytes };
        self.client.get_bytecodes(request)
    }

    /// Requests the trie nodes at `paths` under `root_hash`, with the next request id.
    pub fn download_trie_nodes(&mut self, root_hash: B256, paths: Vec<TriePath>, response_bytes: u64) -> (r: Result<TrieNodesMessage, RequestError>)
        requires
            old(self).request_queue.next_id() < u64::MAX,
        ensures
            id_taken(&old(self).request_queue, &final(self).request_queue),
            final(self).client == old(self).client,
    {
        let request_id = self.request_queue.next_request_id();
        let request = GetTrieNodesMessage { request_id, root_hash, paths, response_bytes };
        self.client.get_trie_nodes(request)
    }

    /// The request queue.
    pub fn request_queue(&mut self) -> (q: &mut SnapRequestQueue)
        ensures
            *q == old(self).request_queue,
            final(self).request_queue == *final(q),
            final(self).client == old(self).client,
    {
        &mut self.request_queue
    }
}

} // verus!
