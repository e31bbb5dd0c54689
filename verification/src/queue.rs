//! A queue of snap requests per kind, served first in first out, and the ids that requests
//! are numbered with.

use vstd::prelude::*;
use std::collections::VecDeque;
use crate::messages::{GetAccountRangeMessage, GetByteCodesMessage, GetStorageRangesMessage, GetTrieNodesMessage};

verus! {

/// Types of snap sync requests.
#[derive(Debug, Clone)]
pub enum SnapRequest {
    /// Account range request
    AccountRange(GetAccountRangeMessage),
    /// Storage ranges request
    StorageRanges(GetStorageRangesMessage),
    /// Byte codes request
    ByteCodes(GetByteCodesMessage),
    /// Trie nodes request
    TrieNodes(GetTrieNodesMessage),
}

/// Pending snap requests, one first-in-first-out queue per kind.
pub struct SnapRequestQueue {
    /// Pending account range requests
    account_range_requests: VecDeque<GetAccountRangeMessage>,
    /// Pending storage range requests
    storage_range_requests: VecDeque<GetStorageRangesMessage>,
    /// Pending byte code requests
    byte_code_requests: VecDeque<GetByteCodesMessage>,
    /// Pending trie node requests
    trie_node_requests: VecDeque<GetTrieNodesMessage>,
    /// Next request ID to use
    next_request_id: u64,
}

impl SnapRequestQueue {
    /// Pending account range requests, oldest first.
    pub closed spec fn accounts(&self) -> Seq<GetAccountRangeMessage> {
        self.account_range_requests@
    }

    /// Pending storage range requests, oldest first.
    pub closed spec fn storage(&self) -> Seq<GetStorageRangesMessage> {
        self.storage_range_requests@
    }

    /// Pending byte code requests, oldest first.
    pub closed spec fn byte_codes(&self) -> Seq<GetByteCodesMessage> {
        self.byte_code_requests@
    }

    /// Pending trie node requests, oldest first.
    pub closed spec fn trie_nodes(&self) -> Seq<GetTrieNodesMessage> {
        self.trie_node_requests@
    }

    /// The id the next request gets.
    pub closed spec fn next_id(&self) -> u64 {
        self.next_request_id
    }

    /// The number of pending requests of all kinds.
    pub open spec fn spec_pending_count(&self) -> int {
        self.accounts().len() + self.storage().len() + self.byte_codes().len() + self.trie_nodes().len() as int
    }

    /// An empty queue whose first request id is zero.
    pub fn new() -> (q: Self)
        ensures
            q.accounts().len() == 0,
            q.storage().len() == 0,
            q.byte_codes().len() == 0,
            q.trie_nodes().len() == 0,
            q.next_id() == 0,
    {
        SnapRequestQueue {
            account_range_requests: VecDeque::new(),
            storage_range_requests: VecDeque::new(),
            byte_code_requests: VecDeque::new(),
            trie_node_requests: VecDeque::new(),
            next_request_id: 0,
        }
    }

    /// Takes the next request id; ids are handed out in increasing order.
    pub fn next_request_id(&mut self) -> (id: u64)
        requires
            old(self).next_id() < u64::MAX,
        ensures
            id == old(self).next_id(),
            final(self).next_id() == old(self).next_id() + 1,
            final(self).accounts() == old(self).accounts(),
            final(self).storage() == old(self).storage(),
            final(self).byte_codes() == old(self).byte_codes(),
            final(self).trie_nodes() == old(self).trie_nodes(),
    {
        let id = self.next_request_id;
        self.next_request_id = self.next_request_id + 1;
        id
    }

    /// Queues an account range request.
    pub fn push_account_range(&mut self, request: GetAccountRangeMessage)
        ensures
            final(self).accounts() == old(self).accounts().push(request),
            final(self).storage() == old(self).storage(),
            final(self).byte_codes() == old(self).byte_codes(),
            final(self).trie_nodes() == old(self).trie_nodes(),
            final(self).next_id() == old(self).next_id(),
    {
        self.account_range_requests.push_back(request);
    }

    /// Queues a storage range request.
    pub fn push_storage_range(&mut self, request: GetStorageRangesMessage)
        ensures
            final(self).storage() == old(self).storage().push(request),
            final(self).accounts() == old(self).accounts(),
            final(self).byte_codes() == old(self).byte_codes(),
            final(self).trie_nodes() == old(self).trie_nodes(),
            final(self).next_id() == old(self).next_id(),
    {
        self.storage_range_requests.push_back(request);
    }

    /// Queues a byte code request.
    pub fn push_byte_codes(&mut self, request: GetByteCodesMessage)
        ensures
            final(self).byte_codes() == old(self).byte_codes().push(request),
            final(self).accounts() == old(self).accounts(),
            final(self).storage() == old(self).storage(),
            final(self).trie_nodes() == old(self).trie_nodes(),
            final(self).next_id() == old(self).next_id(),
    {
        self.byte_code_requests.push_back(request);
    }

    /// Queues a trie node request.
    pub fn push_trie_nodes(&mut self, request: GetTrieNodesMessage)
        ensures
            final(self).trie_nodes() == old(self).trie_nodes().push(request),
            final(self).accounts() == old(self).accounts(),
            final(self).storage() == old(self).storage(),
            final(self).byte_codes() == old(self).byte_codes(),
            final(self).next_id() == old(self).next_id(),
    {
        self.trie_node_requests.push_back(request);
    }

    /// Takes the oldest account range request, if any.
    pub fn pop_account_range(&mut self) -> (r: Option<GetAccountRangeMessage>)
        ensures
            old(self).accounts().len() == 0 ==> r is None && final(self).accounts() == old(self).accounts(),
            old(self).accounts().len() > 0 ==> r == Some(old(self).accounts()[0]) && final(self).accounts() == old(self).accounts().drop_first(),
            final(self).storage() == old(self).storage(),
            final(self).byte_codes() == old(self).byte_codes(),
            final(self).trie_nodes() == old(self).trie_nodes(),
            final(self).next_id() == old(self).next_id(),
    {
        self.account_range_requests.pop_front()
    }

    /// Takes the oldest storage range request, if any.
    pub fn pop_storage_range(&mut self) -> (r: Option<GetStorageRangesMessage>)
        ensures
            old(self).storage().len() == 0 ==> r is None && final(self).storage() == old(self).storage(),
            old(self).storage().len() > 0 ==> r == Some(old(self).storage()[0]) && final(self).storage() == old(self).storage().drop_first(),
            final(self).accounts() == old(self).accounts(),
            final(self).byte_codes() == old(self).byte_codes(),
            final(self).trie_nodes() == old(self).trie_nodes(),
            final(self).next_id() == old(self).next_id(),
    {
        self.storage_range_requests.pop_front()
    }

    /// Takes the oldest byte code request, if any.
    pub fn pop_byte_codes(&mut self) -> (r: Option<GetByteCodesMessage>)
        ensures
            old(self).byte_codes().len() == 0 ==> r is None && final(self).byte_codes() == old(self).byte_codes(),
            old(self).byte_codes().len() > 0 ==> r == Some(old(self).byte_codes()[0]) && final(self).byte_codes() == old(self).byte_codes().drop_first(),
            final(self).accounts() == old(self).accounts(),
            final(self).storage() == old(self).storage(),
            final(self).trie_nodes() == old(self).trie_nodes(),
            final(self).next_id() == old(self).next_id(),
    {
        self.byte_code_requests.pop_front()
    }

    /// Takes the oldest trie node request, if any.
    pub fn pop_trie_nodes(&mut self) -> (r: Option<GetTrieNodesMessage>)
        ensures
            old(self).trie_nodes().len() == 0 ==> r is None && final(self).trie_nodes() == old(self).trie_nodes(),
            old(self).trie_nodes().len() > 0 ==> r == Some(old(self).trie_nodes()[0]) && final(self).trie_nodes() == old(self).trie_nodes().drop_first(),
            final(self).accounts() == old(self).accounts(),
            final(self).storage() == old(self).storage(),
            final(self).byte_codes() == old(self).byte_codes(),
            final(self).next_id() == old(self).next_id(),
    {
        self.trie_node_requests.pop_front()
    }

    /// Whether any request of any kind is pending.
    pub fn has_pending_requests(&self) -> (r: bool)
        ensures
            r == (self.spec_pending_count() > 0),
    {
        self.account_range_requests.len() != 0 || self.storage_range_requests.len() != 0
            || self.byte_code_requests.len() != 0 || self.trie_node_requests.len() != 0
    }

    /// The number of pending requests of all kinds.
    pub fn pending_count(&self) -> (n: usize)
        requires
            self.spec_pending_count() <= usize::MAX,
        ensures
            n == self.spec_pending_count(),
    {
        self.account_range_requests.len() + self.storage_range_requests.len() + self.byte_code_requests.len()
            + self.trie_node_requests.len()
    }
}

impl Default for SnapRequestQueue {
    /// An empty queue whose first request id is zero.
    fn default() -> (q: Self)
        ensures
            q.accounts().len() == 0,
            q.storage().len() == 0,
            q.byte_codes().len() == 0,
            q.trie_nodes().len() == 0,
            q.next_id() == 0,
    {
        SnapRequestQueue::new()
    }
}

/// Requests of one kind leave in the order they arrived: after pushing `r` onto pending
/// requests `q`, popping gives the oldest of `q`, or `r` itself when `q` was empty.
pub proof fn lemma_fifo<T>(q: Seq<T>, r: T)
    ensures
        q.len() > 0 ==> q.push(r)[0] == q[0] && q.push(r).drop_first() == q.drop_first().push(r),
        q.len() == 0 ==> q.push(r)[0] == r && q.push(r).drop_first().len() == 0,
{
    if q.len() > 0 {
        assert(q.push(r).drop_first() =~= q.drop_first().push(r));
    }
}

/// Pushing requests then popping them all returns them in the order they were pushed.
pub proof fn lemma_drain_order<T>(pushed: Seq<T>, i: int)
    requires
        0 <= i < pushed.len(),
    ensures
        pushed.skip(i)[0] == pushed[i],
        pushed.skip(i).drop_first() == pushed.skip(i + 1),
{
    assert(pushed.skip(i).drop_first() =~= pushed.skip(i + 1));
}

} // verus!
