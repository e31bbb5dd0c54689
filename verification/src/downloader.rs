//! The snap sync downloader: walks the account trie, then the storage of every account, then
//! fetches the byte code of every contract in batches.

use vstd::prelude::*;
use std::sync::Arc;
use crate::client::{
    SnapSyncClient, SnapSyncError, StateProvider, accounts_view, account_range_outcome, decode_account_range,
    account_range_request, state_root_from_header, decoded_accounts,
};
use crate::hash::{B256, be_value, max_hash_value, lemma_be_value_bound, zero_hash, hash_lt, hash_is_zero};
use crate::messages::{AccountData, AccountRangeMessage, GetAccountRangeMessage, ByteCodesMessage, GetByteCodesMessage, GetStorageRangesMessage, StorageData, StorageRangesMessage};
use crate::trie::{TrieAccount, decode_storage_value, spec_decode_storage_value};

verus! {

/// Configuration for the snap sync downloader.
#[derive(Debug, Clone, Copy, PartialEq, Eq, Structural)]
pub struct SnapSyncConfig {
    /// Maximum number of concurrent requests
    pub max_concurrent_requests: usize,
    /// Maximum response size in bytes
    pub max_response_size: u64,
    /// Batch size for account requests
    pub account_batch_size: u64,
    /// Batch size for storage requests
    pub storage_batch_size: u64,
    /// Batch size for bytecode requests
    pub bytecode_batch_size: u64,
}

impl Default for SnapSyncConfig {
    /// Ten concurrent requests of at most 10 MB, batches of 1000 accounts, 1000 storage
    /// ranges and 100 byte codes.
    fn default() -> (c: Self)
        ensures
            c == (SnapSyncConfig {
                max_concurrent_requests: 10,
                max_response_size: 10_000_000,
                account_batch_size: 1000,
                storage_batch_size: 1000,
                bytecode_batch_size: 100,
            }),
    {
        SnapSyncConfig {
            max_concurrent_requests: 10,
            max_response_size: 10_000_000,
            account_batch_size: 1000,
            storage_batch_size: 1000,
            bytecode_batch_size: 100,
        }
    }
}

/// Statistics from a snap sync download.
#[derive(Debug, Clone, Copy, PartialEq, Eq, Structural)]
pub struct DownloadStats {
    /// Accounts downloaded
    pub total_accounts: usize,
    /// Storage slots downloaded
    pub total_storage_slots: usize,
    /// Byte codes downloaded
    pub total_bytecode: usize,
}

impl Default for DownloadStats {
    /// Nothing downloaded yet.
    fn default() -> (s: Self)
        ensures
            s == (DownloadStats { total_accounts: 0, total_storage_slots: 0, total_bytecode: 0 }),
    {
        DownloadStats { total_accounts: 0, total_storage_slots: 0, total_bytecode: 0 }
    }
}

/// Whether every slot of `slots` decodes as a storage value.
pub open spec fn slots_decode(slots: Seq<StorageData>) -> bool {
    forall|i: int| 0 <= i < slots.len() ==> (#[trigger] spec_decode_storage_value(slots[i].data@)) is Some
}

/// The outcome of one storage range answer to a request from `cursor`, reading the slots of
/// the first account: `None` when there are none (the end of the storage), the number of
/// slots and the hash to continue from otherwise. It fails when a slot does not decode, or
/// when the last hash is not past the cursor.
pub open spec fn storage_range_outcome(slots: Seq<Vec<StorageData>>, cursor: Seq<u8>) -> Result<Option<(nat, Seq<u8>)>, SnapSyncError> {
    if slots.len() == 0 || slots[0]@.len() == 0 {
        Ok(None)
    } else if !slots_decode(slots[0]@) {
        Err(SnapSyncError::Rlp)
    } else if be_value(slots[0]@.last().hash@) <= be_value(cursor) {
        Err(SnapSyncError::NoProgress)
    } else {
        Ok(Some((slots[0]@.len(), slots[0]@.last().hash@)))
    }
}

/// Reads one storage range answer to a request from `cursor`; see
/// [`storage_range_outcome`].
pub fn decode_storage_range(response: &StorageRangesMessage, cursor: &B256) -> (r: Result<Option<(usize, B256)>, SnapSyncError>)
    ensures
        match (r, storage_range_outcome(response.slots@, cursor@)) {
            (Ok(None), Ok(None)) => true,
            (Ok(Some((n, next))), Ok(Some((spec_n, spec_next)))) => n == spec_n && next@ == spec_next,
            (Err(e), Err(spec_e)) => e == spec_e,
            _ => false,
        },
{
    if response.slots.len() == 0 || response.slots[0].len() == 0 {
        return Ok(None);
    }
    let slots = &response.slots[0];
    let mut i: usize = 0;
    while i < slots.len()
        invariant
            0 <= i <= slots@.len(),
            response.slots@.len() > 0,
            slots@.len() > 0,
            slots@ == response.slots@[0]@,
            forall|j: int| 0 <= j < i ==> (#[trigger] spec_decode_storage_value(slots@[j].data@)) is Some,
        decreases slots@.len() - i,
    {
        match decode_storage_value(&slots[i].data) {
            Some(_) => {},
            None => {
                proof {
                    assert(spec_decode_storage_value(slots@[i as int].data@) is None);
                    assert(!slots_decode(response.slots@[0]@));
                }
                return Err(SnapSyncError::Rlp);
            },
        }
        i += 1;
    }
    let last = slots[slots.len() - 1].hash;
    proof {
        assert(slots@.last() == slots@[slots@.len() - 1]);
    }
    if !hash_lt(cursor, &last) {
        return Err(SnapSyncError::NoProgress);
    }
    Ok(Some((slots.len(), last)))
}

/// The code hashes of the contracts among `accounts` (those whose code hash is not zero), in
/// order.
pub open spec fn contract_code_hashes(accounts: Seq<(Seq<u8>, TrieAccount)>) -> Seq<Seq<u8>>
    decreases accounts.len(),
{
    if accounts.len() == 0 {
        Seq::empty()
    } else {
        let rest = contract_code_hashes(accounts.drop_last());
        if be_value(accounts.last().1.code_hash@) != 0 {
            rest.push(accounts.last().1.code_hash@)
        } else {
            rest
        }
    }
}

/// `h` cut into consecutive batches of `size`, the last one possibly shorter.
pub open spec fn batches(h: Seq<Seq<u8>>, size: nat) -> Seq<Seq<Seq<u8>>>
    decreases h.len(),
{
    if h.len() == 0 || size == 0 {
        Seq::empty()
    } else if h.len() <= size {
        seq![h]
    } else {
        seq![h.take(size as int)] + batches(h.skip(size as int), size)
    }
}

/// The views of a list of hashes.
pub open spec fn hashes_view(v: Seq<B256>) -> Seq<Seq<u8>> {
    v.map_values(|h: B256| h@)
}

/// Whether any of `accounts` is a contract, one whose code hash is not zero.
pub fn has_contract_account(accounts: &Vec<(B256, TrieAccount)>) -> (r: bool)
    ensures
        r == (contract_code_hashes(accounts_view(accounts@)).len() > 0),
{
    let ghost av = accounts_view(accounts@);
    let mut found = false;
    let mut i: usize = 0;
    while i < accounts.len()
        invariant
            0 <= i <= accounts@.len(),
            av == accounts_view(accounts@),
            found == (contract_code_hashes(av.take(i as int)).len() > 0),
        decreases accounts@.len() - i,
    {
        proof {
            assert(av.take(i + 1).drop_last() =~= av.take(i as int));
            assert(av.take(i + 1).last() == av[i as int]);
        }
        if !hash_is_zero(&accounts[i].1.code_hash) {
            found = true;
        }
        i += 1;
    }
    proof {
        assert(av.take(accounts@.len() as int) =~= av);
    }
    found
}

/// The byte code requests for the contracts among `accounts`: their code hashes in batches of
/// `batch_size`, numbered from zero, each asking for at most `response_bytes`.
pub fn bytecode_requests(accounts: &Vec<(B256, TrieAccount)>, batch_size: usize, response_bytes: u64) -> (reqs: Vec<GetByteCodesMessage>)
    requires
        batch_size > 0,
    ensures
        reqs@.len() == batches(contract_code_hashes(accounts_view(accounts@)), batch_size as nat).len(),
        forall|k: int| 0 <= k < reqs@.len() ==> {
            &&& (#[trigger] reqs@[k]).request_id == k
            &&& reqs@[k].response_bytes == response_bytes
            &&& hashes_view(reqs@[k].hashes@) == batches(contract_code_hashes(accounts_view(accounts@)), batch_size as nat)[k]
        },
{
    let ghost av = accounts_view(accounts@);
    let mut hashes: Vec<B256> = Vec::new();
    let mut i: usize = 0;
    while i < accounts.len()
        invariant
            0 <= i <= accounts@.len(),
            av == accounts_view(accounts@),
            hashes_view(hashes@) == contract_code_hashes(av.take(i as int)),
        decreases accounts@.len() - i,
    {
        proof {
            assert(av.take(i + 1).drop_last() =~= av.take(i as int));
            assert(av.take(i + 1).last() == av[i as int]);
        }
        let code_hash = accounts[i].1.code_hash;
        if !hash_is_zero(&code_hash) {
            hashes.push(code_hash);
            proof {
                assert(hashes_view(hashes@) =~= hashes_view(hashes@.drop_last()).push(code_hash@));
                assert(hashes@.drop_last() =~= hashes@.take(hashes@.len() - 1));
            }
        }
        i += 1;
    }
    proof {
        assert(av.take(accounts@.len() as int) =~= av);
    }
    let ghost h = hashes_view(hashes@);
    let ghost b = batch_size as nat;
    let mut reqs: Vec<GetByteCodesMessage> = Vec::new();
    let mut pos: usize = 0;
    let mut id: u64 = 0;
    proof {
        assert(h.skip(0) =~= h);
        assert(reqs@.map_values(|r: GetByteCodesMessage| hashes_view(r.hashes@)) =~= Seq::<Seq<Seq<u8>>>::empty());
        assert(batches(h, b) =~= reqs@.map_values(|r: GetByteCodesMessage| hashes_view(r.hashes@)) + batches(h.skip(0), b));
    }
    while pos < hashes.len()
        invariant
            0 <= pos <= hashes@.len(),
            h == hashes_view(hashes@),
            b == batch_size as nat,
            b > 0,
            id == reqs@.len(),
            id <= pos,
            forall|k: int| 0 <= k < reqs@.len() ==> {
                &&& (#[trigger] reqs@[k]).request_id == k
                &&& reqs@[k].response_bytes == response_bytes
            },
            batches(h, b) == reqs@.map_values(|r: GetByteCodesMessage| hashes_view(r.hashes@)) + batches(h.skip(pos as int), b),
        decreases hashes@.len() - pos,
    {
        let end: usize = if hashes.len() - pos <= batch_size { hashes.len() } else { pos + batch_size };
        let mut chunk: Vec<B256> = Vec::new();
        let mut j: usize = pos;
        while j < end
            invariant
                pos <= j <= end <= hashes@.len(),
                hashes_view(chunk@) == h.subrange(pos as int, j as int),
                h == hashes_view(hashes@),
            decreases end - j,
        {
            let ghost prev = chunk@;
            chunk.push(hashes[j]);
            proof {
                assert(h[j as int] == hashes@[j as int]@);
                assert(hashes_view(chunk@) =~= hashes_view(prev).push(hashes@[j as int]@));
                assert(hashes_view(chunk@) =~= h.subrange(pos as int, j + 1));
            }
            j += 1;
        }
        let ghost rest = h.skip(pos as int);
        let ghost before = reqs@.map_values(|r: GetByteCodesMessage| hashes_view(r.hashes@));
        proof {
            if rest.len() <= b {
                assert(hashes_view(chunk@) =~= rest);
                assert(h.skip(end as int) =~= Seq::<Seq<u8>>::empty());
                assert(batches(rest, b) == seq![rest]);
            } else {
                assert(hashes_view(chunk@) =~= rest.take(b as int));
                assert(rest.skip(b as int) =~= h.skip(end as int));
            }
        }
        reqs.push(GetByteCodesMessage { request_id: id, hashes: chunk, response_bytes });
        proof {
            let after = reqs@.map_values(|r: GetByteCodesMessage| hashes_view(r.hashes@));
            assert(after =~= before.push(hashes_view(chunk@)));
            assert(batches(rest, b) == seq![hashes_view(chunk@)] + batches(h.skip(end as int), b));
            assert(batches(h, b) =~= after + batches(h.skip(end as int), b));
        }
        id = id + 1;
        pos = end;
    }
    proof {
        assert(h.skip(pos as int) =~= Seq::<Seq<u8>>::empty());
        let views = reqs@.map_values(|r: GetByteCodesMessage| hashes_view(r.hashes@));
        assert(batches(h, b) =~= views);
        assert forall|k: int| 0 <= k < reqs@.len() implies
            hashes_view((#[trigger] reqs@[k]).hashes@) == batches(h, b)[k] by {
            assert(views[k] == hashes_view(reqs@[k].hashes@));
        }
    }
    reqs
}

/// The request of a storage trie walk of `account`: its slots under its storage root from
/// `cursor` to the greatest hash, numbered `request_id`, answered in at most `response_bytes`.
pub fn storage_range_request(account: &(B256, TrieAccount), cursor: B256, request_id: u64, response_bytes: u64) -> (r: GetStorageRangesMessage)
    ensures
        r.request_id == request_id,
        r.root_hash == account.1.storage_root,
        r.account_hashes@ == seq![account.0],
        r.starting_hash == cursor,
        r.limit_hash == vstd::array::spec_array_fill_for_copy_type::<u8, 32>(0xffu8),
        r.response_bytes == response_bytes,
{
    let mut account_hashes: Vec<B256> = Vec::new();
    account_hashes.push(account.0);
    GetStorageRangesMessage {
        request_id,
        root_hash: account.1.storage_root,
        account_hashes,
        starting_hash: cursor,
        limit_hash: [0xffu8; 32],
        response_bytes,
    }
}

/// The byte code count after adding the codes of `response` to `total`, or an overflow of
/// the counter.
pub fn add_code_count(total: usize, response: &ByteCodesMessage) -> (r: Result<usize, SnapSyncError>)
    ensures
        r == if total + response.codes@.len() <= usize::MAX {
            Ok::<usize, SnapSyncError>((total + response.codes@.len()) as usize)
        } else {
            Err(SnapSyncError::CounterOverflow)
        },
{
    match total.checked_add(response.codes.len()) {
        Some(c) => Ok(c),
        None => Err(SnapSyncError::CounterOverflow),
    }
}

/// The errors a walk of a trie through peers can end with: a failed request, an answer that
/// does not decode or does not move past the cursor, or a request counter at its greatest
/// value.
pub open spec fn walk_error(e: SnapSyncError) -> bool {
    e is Network || e is Rlp || e is NoProgress || e is CounterOverflow
}

/// The hash the account trie walk starts from: all zero bytes.
pub open spec fn walk_start() -> Seq<u8> {
    Seq::new(32, |i: int| 0u8)
}

/// Whether `step` is the request of the account trie walk under `root` from `cursor`, numbered
/// `id` and answered in at most `response_bytes`, together with an answer `client` may give
/// to it.
pub open spec fn walk_step_answered<C: SnapSyncClient>(
    client: C,
    root: B256,
    cursor: Seq<u8>,
    id: int,
    response_bytes: u64,
    step: (GetAccountRangeMessage, AccountRangeMessage),
) -> bool {
    &&& step.0.request_id == id
    &&& step.0.root_hash == root
    &&& step.0.starting_hash@ == cursor
    &&& step.0.limit_hash == vstd::array::spec_array_fill_for_copy_type::<u8, 32>(0xffu8)
    &&& step.0.response_bytes == response_bytes
    &&& client.may_answer_account_range(step.0, step.1)
}

/// The walk so far when `steps` are the requests sent from the start and the answers
/// received, each answer holding accounts: the accounts gathered, the hash to ask on from and
/// the next request id; `None` when the steps are not such a walk.
pub open spec fn walk_prefix<C: SnapSyncClient>(
    client: C,
    root: B256,
    response_bytes: u64,
    steps: Seq<(GetAccountRangeMessage, AccountRangeMessage)>,
) -> Option<(Seq<(Seq<u8>, TrieAccount)>, Seq<u8>, int)>
    decreases steps.len(),
{
    if steps.len() == 0 {
        Some((Seq::empty(), walk_start(), 0))
    } else {
        match walk_prefix(client, root, response_bytes, steps.drop_last()) {
            None => None,
            Some((gathered, cursor, id)) => if walk_step_answered(client, root, cursor, id, response_bytes, steps.last()) {
                match account_range_outcome(steps.last().1.accounts@, cursor) {
                    Ok(Some((batch, next))) => Some((gathered + batch, next, id + 1)),
                    _ => None,
                }
            } else {
                None
            },
        }
    }
}

/// The accounts a complete walk gathers when `steps` are its requests and answers, the last
/// answer holding no account; `None` when the steps are not such a walk.
pub open spec fn account_walk<C: SnapSyncClient>(
    client: C,
    root: B256,
    response_bytes: u64,
    steps: Seq<(GetAccountRangeMessage, AccountRangeMessage)>,
) -> Option<Seq<(Seq<u8>, TrieAccount)>> {
    if steps.len() == 0 {
        None
    } else {
        match walk_prefix(client, root, response_bytes, steps.drop_last()) {
            None => None,
            Some((gathered, cursor, id)) => if walk_step_answered(client, root, cursor, id, response_bytes, steps.last())
                && steps.last().1.accounts@.len() == 0 {
                Some(gathered)
            } else {
                None
            },
        }
    }
}

/// The hashes of the accounts in the answers of `steps`, answer after answer.
pub open spec fn answer_hashes(steps: Seq<(GetAccountRangeMessage, AccountRangeMessage)>) -> Seq<Seq<u8>>
    decreases steps.len(),
{
    if steps.len() == 0 {
        Seq::empty()
    } else {
        answer_hashes(steps.drop_last()) + steps.last().1.accounts@.map_values(|d: AccountData| d.hash@)
    }
}

/// Decoding keeps each account under its hash, in order.
pub proof fn lemma_decoded_keeps_hashes(data: Seq<AccountData>)
    ensures
        decoded_accounts(data) matches Some(v) ==> v.map_values(|a: (Seq<u8>, TrieAccount)| a.0)
            == data.map_values(|d: AccountData| d.hash@),
    decreases data.len(),
{
    if data.len() > 0 {
        lemma_decoded_keeps_hashes(data.drop_last());
        if let Some(v) = decoded_accounts(data) {
            let w = decoded_accounts(data.drop_last())->0;
            assert(v == w.push((data.last().hash@, v.last().1)));
            assert(v.map_values(|a: (Seq<u8>, TrieAccount)| a.0) =~= w.map_values(|a: (Seq<u8>, TrieAccount)| a.0).push(
                data.last().hash@,
            ));
            assert(data.map_values(|d: AccountData| d.hash@) =~= data.drop_last().map_values(|d: AccountData| d.hash@).push(
                data.last().hash@,
            ));
        }
    }
}

/// The accounts gathered along a walk are those of every answer so far, answer after answer.
pub proof fn lemma_walk_prefix_gathers_every_answer<C: SnapSyncClient>(
    client: C,
    root: B256,
    response_bytes: u64,
    steps: Seq<(GetAccountRangeMessage, AccountRangeMessage)>,
)
    ensures
        walk_prefix(client, root, response_bytes, steps) matches Some((gathered, cursor, id)) ==> gathered.map_values(
            |a: (Seq<u8>, TrieAccount)| a.0,
        ) == answer_hashes(steps) && id == steps.len(),
    decreases steps.len(),
{
    if steps.len() > 0 {
        lemma_walk_prefix_gathers_every_answer(client, root, response_bytes, steps.drop_last());
        lemma_decoded_keeps_hashes(steps.last().1.accounts@);
        if let Some((gathered, cursor, id)) = walk_prefix(client, root, response_bytes, steps) {
            let (g0, c0, i0) = walk_prefix(client, root, response_bytes, steps.drop_last())->0;
            let batch = decoded_accounts(steps.last().1.accounts@)->0;
            assert(gathered == g0 + batch);
            assert(gathered.map_values(|a: (Seq<u8>, TrieAccount)| a.0) =~= g0.map_values(
                |a: (Seq<u8>, TrieAccount)| a.0,
            ) + batch.map_values(|a: (Seq<u8>, TrieAccount)| a.0));
        }
    }
}

/// A complete account trie walk gathers every account of every answer it received, answer
/// after answer and in the order of each answer: the hashes of the accounts it gives back are
/// those of the answers, so it gives back as many accounts as the answers hold together.
pub proof fn lemma_walk_gathers_every_answer<C: SnapSyncClient>(
    client: C,
    root: B256,
    response_bytes: u64,
    steps: Seq<(GetAccountRangeMessage, AccountRangeMessage)>,
)
    ensures
        account_walk(client, root, response_bytes, steps) matches Some(accounts) ==> accounts.map_values(
            |a: (Seq<u8>, TrieAccount)| a.0,
        ) == answer_hashes(steps) && accounts.len() == answer_hashes(steps).len(),
{
    if steps.len() > 0 {
        lemma_walk_prefix_gathers_every_answer(client, root, response_bytes, steps.drop_last());
        if let Some(accounts) = account_walk(client, root, response_bytes, steps) {
            assert(steps.last().1.accounts@.map_values(|d: AccountData| d.hash@) =~= Seq::<Seq<u8>>::empty());
            assert(answer_hashes(steps) =~= answer_hashes(steps.drop_last()));
            assert(accounts.map_values(|a: (Seq<u8>, TrieAccount)| a.0).len() == accounts.len());
        }
    }
}

/// Orchestrates the entire state download through a snap client.
pub struct SnapSyncDownloader<C: SnapSyncClient> {
    /// The client requests are sent through
    pub client: Arc<C>,
    /// Download configuration
    pub config: SnapSyncConfig,
}

impl<C: SnapSyncClient> SnapSyncDownloader<C> {
    /// A downloader sending its requests through `client`.
    pub fn new(client: Arc<C>, config: SnapSyncConfig) -> (d: Self)
        ensures
            d.client == client,
            d.config == config,
    {
        SnapSyncDownloader { client, config }
    }

    /// Downloads every account under `state_root`, walking the account trie from the zero
    /// hash in numbered requests until an answer holds no account.
    pub fn download_accounts(&self, state_root: B256) -> (r: Result<Vec<(B256, TrieAccount)>, SnapSyncError>)
        ensures
            r matches Err(e) ==> walk_error(e),
            r matches Ok(v) ==> exists|steps: Seq<(GetAccountRangeMessage, AccountRangeMessage)>|
                account_walk(*self.client, state_root, self.config.max_response_size, steps) == Some(
                    accounts_view(v@),
                ),
    {
        let mut accounts: Vec<(B256, TrieAccount)> = Vec::new();
        let mut cursor = zero_hash();
        let mut request_id: u64 = 0;
        let ghost steps: Seq<(GetAccountRangeMessage, AccountRangeMessage)> = Seq::empty();
        proof {
            lemma_be_value_bound(cursor@);
            assert(cursor@ =~= walk_start());
            assert(accounts_view(accounts@) =~= Seq::<(Seq<u8>, TrieAccount)>::empty());
        }
        loop
            invariant_except_break
                be_value(cursor@) <= max_hash_value(),
                walk_prefix(*self.client, state_root, self.config.max_response_size, steps) == Some(
                    (accounts_view(accounts@), cursor@, request_id as int),
                ),
            ensures
                account_walk(*self.client, state_root, self.config.max_response_size, steps) == Some(
                    accounts_view(accounts@),
                ),
            decreases max_hash_value() - be_value(cursor@),
        {
            let request = account_range_request(state_root, cursor, request_id, self.config.max_response_size);
            let ghost req = request;
            let response = match self.client.get_account_range(request) {
                Ok(r) => r,
                Err(e) => {
                    return Err(SnapSyncError::Network(e));
                },
            };
            let ghost step = (req, response);
            let ghost before = steps;
            let ghost gathered = accounts@;
            proof {
                steps = steps.push(step);
                assert(steps.drop_last() =~= before);
            }
            match decode_account_range(&response, &cursor) {
                Err(e) => {
                    return Err(e);
                },
                Ok(None) => {
                    break;
                },
                Ok(Some((mut batch, next))) => {
                    accounts.append(&mut batch);
                    proof {
                        lemma_be_value_bound(next@);
                        assert(accounts_view(accounts@) =~= accounts_view(gathered) + accounts_view(
                            accounts@.subrange(gathered.len() as int, accounts@.len() as int),
                        ));
                    }
                    cursor = next;
                },
            }
            request_id = match request_id.checked_add(1) {
                Some(id) => id,
                None => {
                    return Err(SnapSyncError::CounterOverflow);
                },
            };
        }
        Ok(accounts)
    }

    /// Downloads the storage of one account under its storage root, walking its storage trie
    /// from the zero hash in numbered requests until an answer holds no slot; returns the
    /// number of slots.
    pub fn download_storage_for_account(&self, account: &(B256, TrieAccount)) -> (r: Result<usize, SnapSyncError>)
        ensures
            r matches Err(e) ==> walk_error(e),
    {
        let mut storage_slots: usize = 0;
        let mut cursor = zero_hash();
        let mut request_id: u64 = 0;
        proof {
            lemma_be_value_bound(cursor@);
        }
        loop
            invariant
                be_value(cursor@) <= max_hash_value(),
            decreases max_hash_value() - be_value(cursor@),
        {
            let request = storage_range_request(account, cursor, request_id, self.config.max_response_size);
            let response = match self.client.get_storage_ranges(request) {
                Ok(r) => r,
                Err(e) => {
                    return Err(SnapSyncError::Network(e));
                },
            };
            match decode_storage_range(&response, &cursor) {
                Err(e) => {
                    return Err(e);
                },
                Ok(None) => {
                    break;
                },
                Ok(Some((n, next))) => {
                    storage_slots = match storage_slots.checked_add(n) {
                        Some(s) => s,
                        None => {
                            return Err(SnapSyncError::CounterOverflow);
                        },
                    };
                    proof {
                        lemma_be_value_bound(next@);
                    }
                    cursor = next;
                },
            }
            request_id = match request_id.checked_add(1) {
                Some(id) => id,
                None => {
                    return Err(SnapSyncError::CounterOverflow);
                },
            };
        }
        Ok(storage_slots)
    }

    /// Downloads the byte code of every contract among `accounts` in batches of the
    /// configured size; returns the number of codes received.
    pub fn download_bytecodes(&self, accounts: &Vec<(B256, TrieAccount)>) -> (r: Result<usize, SnapSyncError>)
        requires
            contract_code_hashes(accounts_view(accounts@)).len() > 0 ==> self.config.bytecode_batch_size as usize > 0,
        ensures
            contract_code_hashes(accounts_view(accounts@)).len() == 0 ==> r == Ok::<usize, SnapSyncError>(0),
            r matches Err(e) ==> (e is Network || e is CounterOverflow),
    {
        if !has_contract_account(accounts) {
            return Ok(0);
        }
        let requests = bytecode_requests(accounts, self.config.bytecode_batch_size as usize, self.config.max_response_size);
        let mut bytecode_count: usize = 0;
        let mut i: usize = 0;
        while i < requests.len()
            invariant
                0 <= i <= requests@.len(),
                contract_code_hashes(accounts_view(accounts@)).len() == 0 ==> requests@.len() == 0,
                i == 0 ==> bytecode_count == 0,
            decreases requests@.len() - i,
        {
            let request = requests[i].clone();
            let response = match self.client.get_bytecodes(request) {
                Ok(r) => r,
                Err(e) => {
                    return Err(SnapSyncError::Network(e));
                },
            };
            bytecode_count = add_code_count(bytecode_count, &response)?;
            i += 1;
        }
        Ok(bytecode_count)
    }

    /// Downloads the complete state of block `block_hash`: the state root is read from the
    /// block's header, then all accounts, the storage of every account and the byte code of
    /// every contract are downloaded. Fails when the header cannot be read or is unknown, or
    /// when a download fails. What peers answer is outside this contract. The byte code batch
    /// size must be positive: which accounts are contracts is known only once they have been
    /// downloaded, and their code hashes cannot be split into batches of size zero.
    pub fn download_state(&self, block_hash: B256) -> (r: Result<DownloadStats, SnapSyncError>)
        requires
            self.config.bytecode_batch_size as usize > 0,
        ensures
            r matches Err(SnapSyncError::BlockNotFound(h)) ==> h == block_hash,
    {
        let answer = self.client.state_provider().header_by_hash(block_hash);
        let state_root = state_root_from_header(answer, block_hash)?;
        let mut stats = DownloadStats::default();
        let accounts = self.download_accounts(state_root)?;
        stats.total_accounts = accounts.len();
        let mut total_storage_slots: usize = 0;
        let mut i: usize = 0;
        while i < accounts.len()
            invariant
                0 <= i <= accounts@.len(),
                self.config.bytecode_batch_size as usize > 0,
            decreases accounts@.len() - i,
        {
            let storage_count = self.download_storage_for_account(&accounts[i])?;
            total_storage_slots = match total_storage_slots.checked_add(storage_count) {
                Some(t) => t,
                None => {
                    return Err(SnapSyncError::CounterOverflow);
                },
            };
            i += 1;
        }
        stats.total_storage_slots = total_storage_slots;
        stats.total_bytecode = self.download_bytecodes(&accounts)?;
        Ok(stats)
    }
}

} // verus!
