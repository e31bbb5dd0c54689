use alloy_rlp::Encodable;
use snap_sync::client::{account_range_request, decode_account_range, state_root_from_header, Header, ProviderError, RequestError, SnapDownloader, SnapSyncClient, SnapSyncError};
use snap_sync::collector::Collector;
use snap_sync::downloader::{add_code_count, storage_range_request, bytecode_requests, decode_storage_range, DownloadStats, SnapSyncConfig as DownloaderConfig, SnapSyncDownloader};
use snap_sync::hash::{hash_from_low_u64_be, zero_hash};
use snap_sync::header_subscription::{ConsensusEngineEvent, HeaderSubscriptionService, SealedHeader};
use snap_sync::messages::{
    AccountData, AccountRangeMessage, ByteCodesMessage, GetAccountRangeMessage, GetByteCodesMessage,
    GetStorageRangesMessage, GetTrieNodesMessage, SnapSyncResult, StorageData, StorageRangesMessage, TrieNodesMessage, TriePath,
};
use snap_sync::queue::SnapRequestQueue;
use snap_sync::server::SnapSyncServer;
use snap_sync::sets::{snap_sync_stages, PruneModes, StageKind, SyncMode as StageSyncMode, SyncModeStages};
use snap_sync::snap_sync_proper::{SnapSyncStage as ProperStage, SnapSyncState};
use snap_sync::stage_api::{ExecInput, StageCheckpoint, UnwindInput};
use snap_sync::sync_args::{SyncArgs, SyncMode};
use snap_sync::task::TaskSnapDownloader;
use snap_sync::test_utils::{create_test_snap_sync_config, create_test_snap_sync_downloader, TestSnapClient};
use snap_sync::trie::TrieAccount;
use std::sync::Arc;

fn rlp_account(nonce: u64, balance: u64, code: [u8; 32]) -> Vec<u8> {
    let account = alloy_trie::TrieAccount {
        nonce,
        balance: alloy_primitives::U256::from(balance),
        storage_root: alloy_primitives::B256::from([0x56u8; 32]),
        code_hash: alloy_primitives::B256::from(code),
    };
    let mut out = Vec::new();
    account.encode(&mut out);
    out
}

fn rlp_value(v: u64) -> Vec<u8> {
    let mut out = Vec::new();
    alloy_primitives::U256::from(v).encode(&mut out);
    out
}

fn account_request(id: u64) -> GetAccountRangeMessage {
    GetAccountRangeMessage { request_id: id, root_hash: [0u8; 32], starting_hash: [0u8; 32], limit_hash: [0xff; 32], response_bytes: 1024 }
}

#[test]
fn test_snap_sync_config_conversion() {
    let mut args = SyncArgs::default();
    args.sync_mode = SyncMode::Snap;
    args.snap_max_concurrent_requests = 15;
    args.snap_max_response_bytes = 3145728;

    let config = args.to_snap_sync_config();

    assert_eq!(config.max_concurrent_requests, 15);
    assert_eq!(config.max_response_bytes, 3145728);
    assert_eq!(config.max_accounts_per_request, 1000);
    assert_eq!(config.commit_threshold, 10_000);
}

#[test]
fn test_sync_mode_default() {
    let args = SyncArgs::default();
    assert_eq!(args.sync_mode.to_string(), "full");
    assert!(!args.snap_sync);
}

#[test]
fn sync_args_flag_overrides_mode() {
    let mut args = SyncArgs::default();
    args.sync_mode = SyncMode::Full;
    args.snap_sync = true;
    assert_eq!(args.effective_sync_mode(), SyncMode::Snap);
    args.snap_sync = false;
    args.sync_mode = SyncMode::Checkpoint;
    assert_eq!(args.effective_sync_mode(), SyncMode::Checkpoint);
    assert_eq!(args.sync_mode.to_string(), "checkpoint");
}

#[test]
fn queue_is_fifo_per_kind_and_counts() {
    let mut queue = SnapRequestQueue::new();
    assert!(!queue.has_pending_requests());
    assert_eq!(queue.next_request_id(), 0);
    assert_eq!(queue.next_request_id(), 1);
    queue.push_account_range(account_request(7));
    queue.push_account_range(account_request(8));
    queue.push_byte_codes(GetByteCodesMessage { request_id: 9, hashes: vec![[1u8; 32]], response_bytes: 10 });
    assert!(queue.has_pending_requests());
    assert_eq!(queue.pending_count(), 3);
    assert_eq!(queue.pop_account_range().unwrap().request_id, 7);
    assert_eq!(queue.pop_account_range().unwrap().request_id, 8);
    assert!(queue.pop_account_range().is_none());
    assert!(queue.pop_storage_range().is_none());
    assert_eq!(queue.pop_byte_codes().unwrap().request_id, 9);
    assert!(queue.pop_trie_nodes().is_none());
    assert_eq!(queue.pending_count(), 0);
}

#[test]
fn task_downloader_numbers_requests() {
    let client = Arc::new(TestSnapClient::new());
    let mut downloader: TaskSnapDownloader<TestSnapClient> = create_test_snap_sync_downloader(client);
    let r = downloader.download_account_range([0u8; 32], [0u8; 32], [0xff; 32], 100).unwrap();
    assert!(r.accounts.is_empty());
    downloader.download_byte_codes(vec![[2u8; 32]], 100).unwrap();
    downloader.download_trie_nodes([0u8; 32], vec![TriePath { paths: vec![vec![1u8]] }], 100).unwrap();
    downloader.download_storage_ranges([0u8; 32], vec![[3u8; 32]], [0u8; 32], [0xff; 32], 100).unwrap();
    assert_eq!(downloader.request_queue().next_request_id(), 4);
}

#[test]
fn server_answers_under_request_id() {
    let server = SnapSyncServer::new();
    let a = server.handle_account_range_request(account_request(42)).unwrap();
    assert_eq!(a.request_id, 42);
    assert!(a.accounts.is_empty() && a.proof.is_empty());
    let s = server
        .handle_storage_ranges_request(GetStorageRangesMessage {
            request_id: 43,
            root_hash: [0u8; 32],
            account_hashes: vec![[1u8; 32], [2u8; 32]],
            starting_hash: [0u8; 32],
            limit_hash: [0xff; 32],
            response_bytes: 10,
        })
        .unwrap();
    assert_eq!(s.request_id, 43);
    assert_eq!(s.slots.len(), 2);
    assert!(s.slots.iter().all(|v| v.is_empty()));
    let c = server.handle_byte_codes_request(GetByteCodesMessage { request_id: 44, hashes: vec![[1u8; 32]], response_bytes: 10 }).unwrap();
    assert_eq!(c.request_id, 44);
    assert!(c.codes.is_empty());
    let t = server
        .handle_trie_nodes_request(GetTrieNodesMessage { request_id: 45, root_hash: [0u8; 32], paths: vec![], response_bytes: 10 })
        .unwrap();
    assert_eq!(t.request_id, 45);
    assert!(t.nodes.is_empty());
}

#[test]
fn header_subscription_ignores_duplicates() {
    let mut service = HeaderSubscriptionService::new();
    assert_eq!(service.get_head_header(), None);
    let h1 = SealedHeader { hash: [1u8; 32], number: 1, state_root: [10u8; 32] };
    let h2 = SealedHeader { hash: [2u8; 32], number: 2, state_root: [20u8; 32] };
    assert!(service.update_head_header(h1));
    assert!(!service.update_head_header(h1));
    assert!(service.update_head_header(h2));
    assert_eq!(service.get_head_header(), Some(h2));
    assert_eq!(service.handle_consensus_event(ConsensusEngineEvent::CanonicalChainCommitted(h1)), Some(h1));
    assert_eq!(service.handle_consensus_event(ConsensusEngineEvent::ForkchoiceUpdated { head_block_hash: [3u8; 32] }), None);
    assert_eq!(service.handle_consensus_event(ConsensusEngineEvent::Other), None);
}

#[test]
fn collector_sorts_by_key() {
    let mut c = Collector::new();
    c.insert([3u8; 32], vec![3]);
    c.insert([1u8; 32], vec![1]);
    c.insert([2u8; 32], vec![2]);
    assert_eq!(c.len(), 3);
    let sorted = c.sorted_entries();
    let keys: Vec<[u8; 32]> = sorted.iter().map(|e| e.0).collect();
    assert_eq!(keys, vec![[1u8; 32], [2u8; 32], [3u8; 32]]);
    assert_eq!(sorted[0].1, vec![1]);
    c.clear();
    assert_eq!(c.len(), 0);
}

#[test]
fn proper_stage_walks_the_phases() {
    let mut stage = ProperStage::new(snap_sync::config::SnapSyncConfig::default());
    assert_eq!(stage.id(), StageKind::SnapSync);
    assert_eq!(stage.snap_state(), SnapSyncState::FindingStateRoot);
    let input = ExecInput { target: Some(100), checkpoint: Some(StageCheckpoint::new(0)) };
    let out = stage.execute(&input).unwrap();
    assert_eq!(stage.snap_state(), SnapSyncState::DownloadingState { state_root: [1u8; 32], block_number: 18000000 });
    assert_eq!(out.checkpoint.block_number, 100);
    assert!(!out.done);
    stage.execute(&input).unwrap();
    assert_eq!(stage.snap_state(), SnapSyncState::VerifyingState { state_root: [1u8; 32], block_number: 18000000 });
    stage.execute(&input).unwrap();
    assert_eq!(stage.snap_state(), SnapSyncState::ReadyToSyncForward { state_root: [1u8; 32], block_number: 18000000 });
    let out = stage.execute(&input).unwrap();
    assert_eq!(stage.snap_state(), SnapSyncState::Complete);
    assert!(out.done);
    let unwound = stage.unwind(&UnwindInput { unwind_to: 7, bad_block: None, checkpoint: StageCheckpoint::new(100) }).unwrap();
    assert_eq!(unwound.checkpoint.block_number, 7);
}

#[test]
fn proper_stage_collects_and_writes_in_key_order() {
    let mut stage = ProperStage::new(snap_sync::config::SnapSyncConfig::default());
    let results = vec![
        SnapSyncResult::AccountRange(AccountRangeMessage {
            request_id: 1,
            accounts: vec![
                AccountData { hash: [9u8; 32], body: vec![1] },
                AccountData { hash: [4u8; 32], body: vec![2] },
            ],
            proof: vec![vec![7]],
        }),
        SnapSyncResult::ByteCodes(ByteCodesMessage { request_id: 2, codes: vec![vec![0x60, 0x00]] }),
        SnapSyncResult::StorageRanges(StorageRangesMessage {
            request_id: 3,
            slots: vec![vec![StorageData { hash: [5u8; 32], data: vec![1] }]],
            proof: vec![],
        }),
        SnapSyncResult::TrieNodes(TrieNodesMessage { request_id: 4, nodes: vec![vec![0xaa], vec![0xbb]] }),
    ];
    let items: Vec<Result<SnapSyncResult, SnapSyncError>> = results.into_iter().map(Ok).collect();
    let n = stage.process_snap_data(&items).unwrap();
    assert_eq!(n, 2 + 1 + 1 + 2);
    let batch = stage.write_snap_data();
    assert_eq!(batch.accounts.len(), 2);
    assert_eq!(batch.accounts[0].0, [4u8; 32]);
    assert_eq!(batch.accounts[1].0, [9u8; 32]);
    assert_eq!(batch.storage.len(), 1);
    assert_eq!(batch.byte_codes.len(), 1);
    assert_eq!(batch.trie_nodes.len(), 3);
    assert_eq!(batch.total, 7);
    assert!(batch.trie_nodes.windows(2).all(|w| w[0].0 <= w[1].0));
    let again = stage.write_snap_data();
    assert_eq!(again.total, 0);
}

#[test]
fn decode_account_range_reads_accounts() {
    let body = rlp_account(5, 1000, [0x11u8; 32]);
    let response = AccountRangeMessage {
        request_id: 1,
        accounts: vec![AccountData { hash: hash_from_low_u64_be(10), body: body.clone() }],
        proof: vec![],
    };
    let (accounts, next) = decode_account_range(&response, &zero_hash()).unwrap().unwrap();
    assert_eq!(accounts.len(), 1);
    assert_eq!(accounts[0].0, hash_from_low_u64_be(10));
    assert_eq!(accounts[0].1.nonce, 5);
    assert_eq!(accounts[0].1.balance, alloy_primitives::U256::from(1000u64).to_be_bytes::<32>());
    assert_eq!(accounts[0].1.code_hash, [0x11u8; 32]);
    assert_eq!(accounts[0].1.storage_root, [0x56u8; 32]);
    assert_eq!(next, hash_from_low_u64_be(10));

    assert_eq!(decode_account_range(&response, &hash_from_low_u64_be(10)).err(), Some(SnapSyncError::NoProgress));

    let bad = AccountRangeMessage { request_id: 1, accounts: vec![AccountData { hash: [1u8; 32], body: vec![0x01] }], proof: vec![] };
    assert_eq!(decode_account_range(&bad, &zero_hash()).err(), Some(SnapSyncError::Rlp));

    let empty = AccountRangeMessage { request_id: 1, accounts: vec![], proof: vec![] };
    assert!(decode_account_range(&empty, &zero_hash()).unwrap().is_none());
}

#[test]
fn decode_storage_range_reads_first_account() {
    let response = StorageRangesMessage {
        request_id: 1,
        slots: vec![vec![
            StorageData { hash: hash_from_low_u64_be(3), data: rlp_value(7) },
            StorageData { hash: hash_from_low_u64_be(8), data: rlp_value(9) },
        ]],
        proof: vec![],
    };
    assert_eq!(decode_storage_range(&response, &zero_hash()).unwrap(), Some((2, hash_from_low_u64_be(8))));
    assert_eq!(decode_storage_range(&response, &hash_from_low_u64_be(8)).err(), Some(SnapSyncError::NoProgress));
    let bad = StorageRangesMessage {
        request_id: 1,
        slots: vec![vec![StorageData { hash: hash_from_low_u64_be(3), data: vec![0xc0] }]],
        proof: vec![],
    };
    assert_eq!(decode_storage_range(&bad, &zero_hash()).err(), Some(SnapSyncError::Rlp));
    let empty = StorageRangesMessage { request_id: 1, slots: vec![], proof: vec![] };
    assert_eq!(decode_storage_range(&empty, &zero_hash()).unwrap(), None);
}

#[test]
fn bytecode_requests_batch_contract_hashes() {
    let account = |code: u8| TrieAccount { nonce: 0, balance: [0u8; 32], storage_root: [0u8; 32], code_hash: [code; 32] };
    let accounts = vec![([1u8; 32], account(1)), ([2u8; 32], account(0)), ([3u8; 32], account(3)), ([4u8; 32], account(4))];
    let reqs = bytecode_requests(&accounts, 2, 500);
    assert_eq!(reqs.len(), 2);
    assert_eq!(reqs[0].request_id, 0);
    assert_eq!(reqs[0].hashes, vec![[1u8; 32], [3u8; 32]]);
    assert_eq!(reqs[1].request_id, 1);
    assert_eq!(reqs[1].hashes, vec![[4u8; 32]]);
    assert_eq!(reqs[1].response_bytes, 500);
}

#[test]
fn downloaders_fail_on_unknown_block() {
    let client = Arc::new(TestSnapClient::new());
    let downloader = SnapSyncDownloader::new(client.clone(), create_test_snap_sync_config());
    assert_eq!(downloader.download_state([8u8; 32]).err(), Some(SnapSyncError::BlockNotFound([8u8; 32])));
    let simple = SnapDownloader::new(client);
    assert_eq!(simple.download_state([8u8; 32]).err(), Some(SnapSyncError::BlockNotFound([8u8; 32])));
}

#[test]
fn downloader_accounts_end_on_empty_answer() {
    let client = Arc::new(TestSnapClient::new());
    let downloader = SnapSyncDownloader::new(client, DownloaderConfig::default());
    assert!(downloader.download_accounts([2u8; 32]).unwrap().is_empty());
    assert_eq!(DownloadStats::default(), DownloadStats { total_accounts: 0, total_storage_slots: 0, total_bytecode: 0 });
}

#[test]
fn stage_sets_follow_sync_mode() {
    assert_eq!(snap_sync_stages(), vec![StageKind::SnapSync, StageKind::Finish]);
    let full = SyncModeStages::new(StageSyncMode::Full, PruneModes::default()).builder();
    assert_eq!(&full[..2], &[StageKind::Headers, StageKind::Bodies]);
    assert_eq!(*full.last().unwrap(), StageKind::Finish);
    assert!(!full.contains(&StageKind::Prune));
    let snap = SyncModeStages::new(StageSyncMode::Snap, PruneModes { receipts: Some(10), ..PruneModes::default() }).builder();
    assert_eq!(snap[0], StageKind::SnapSync);
    assert!(snap.contains(&StageKind::Prune));
    assert_eq!(snap.len(), full.len());
}

#[test]
fn downloader_bytecodes_only_for_contracts() {
    let client = Arc::new(TestSnapClient::new().add_byte_code_response(ByteCodesMessage { request_id: 0, codes: vec![vec![1], vec![2]] }));
    let downloader = SnapSyncDownloader::new(client, DownloaderConfig::default());
    let plain = TrieAccount { nonce: 1, balance: [0u8; 32], storage_root: [0u8; 32], code_hash: [0u8; 32] };
    let contract = TrieAccount { code_hash: [5u8; 32], ..plain };
    assert_eq!(downloader.download_bytecodes(&vec![([1u8; 32], plain)]).unwrap(), 0);
    assert_eq!(downloader.download_bytecodes(&vec![([1u8; 32], contract)]).unwrap(), 2);
}

#[test]
fn downloader_bytecodes_without_contracts_need_no_batch_size() {
    let client = Arc::new(TestSnapClient::new());
    let mut config = DownloaderConfig::default();
    config.bytecode_batch_size = 0;
    let downloader = SnapSyncDownloader::new(client, config);
    let plain = TrieAccount { nonce: 1, balance: [0u8; 32], storage_root: [0u8; 32], code_hash: [0u8; 32] };
    assert_eq!(downloader.download_bytecodes(&vec![([1u8; 32], plain), ([2u8; 32], plain)]).unwrap(), 0);
    assert_eq!(downloader.download_bytecodes(&vec![]).unwrap(), 0);
}

#[test]
fn proper_stage_keys_codes_by_keccak_of_code_and_index() {
    let mut stage = ProperStage::new(snap_sync::config::SnapSyncConfig::default());
    let results = vec![SnapSyncResult::ByteCodes(ByteCodesMessage { request_id: 2, codes: vec![vec![0x60, 0x00]] })];
    let items: Vec<Result<SnapSyncResult, SnapSyncError>> = results.into_iter().map(Ok).collect();
    stage.process_snap_data(&items).unwrap();
    let batch = stage.write_snap_data();
    let mut keyed = vec![0x60u8, 0x00];
    keyed.extend_from_slice(&0u64.to_le_bytes());
    assert_eq!(batch.byte_codes[0].0, alloy_primitives::keccak256(&keyed).0);
    assert_eq!(batch.byte_codes[0].1, vec![0x60, 0x00]);
}

#[test]
fn test_client_answers_with_first_canned_response() {
    let canned = AccountRangeMessage {
        request_id: 9,
        accounts: vec![AccountData { hash: [4u8; 32], body: vec![1, 2] }],
        proof: vec![vec![3]],
    };
    let client = TestSnapClient::new()
        .add_account_range_response(canned.clone())
        .add_account_range_response(AccountRangeMessage { request_id: 10, accounts: vec![], proof: vec![] })
        .add_storage_range_response(StorageRangesMessage {
            request_id: 11,
            slots: vec![vec![StorageData { hash: [5u8; 32], data: vec![7] }]],
            proof: vec![],
        });
    assert_eq!(client.get_account_range(account_request(1)).unwrap(), canned);
    let s = client
        .get_storage_ranges(GetStorageRangesMessage {
            request_id: 2,
            root_hash: [0u8; 32],
            account_hashes: vec![],
            starting_hash: [0u8; 32],
            limit_hash: [0xff; 32],
            response_bytes: 1,
        })
        .unwrap();
    assert_eq!(s.request_id, 11);
    assert_eq!(s.slots[0][0].data, vec![7]);
    let codes = client.get_bytecodes(GetByteCodesMessage { request_id: 3, hashes: vec![], response_bytes: 1 }).unwrap();
    assert_eq!(codes.request_id, 0);
    assert!(codes.codes.is_empty());
}

#[test]
fn proper_stage_stops_at_first_download_error() {
    let mut stage = ProperStage::new(snap_sync::config::SnapSyncConfig::default());
    let items: Vec<Result<SnapSyncResult, SnapSyncError>> = vec![
        Ok(SnapSyncResult::ByteCodes(ByteCodesMessage { request_id: 1, codes: vec![vec![1], vec![2]] })),
        Err(SnapSyncError::Network(RequestError::Timeout)),
        Ok(SnapSyncResult::ByteCodes(ByteCodesMessage { request_id: 2, codes: vec![vec![3]] })),
    ];
    assert_eq!(stage.process_snap_data(&items), Err(snap_sync::error::StageError::Fatal));
    let batch = stage.write_snap_data();
    assert_eq!(batch.byte_codes.len(), 2);
    assert_eq!(batch.total, 2);
}

#[test]
fn walk_requests_are_built_from_cursor_and_root() {
    let r = account_range_request([3u8; 32], [4u8; 32], 7, 500);
    assert_eq!(r, GetAccountRangeMessage { request_id: 7, root_hash: [3u8; 32], starting_hash: [4u8; 32], limit_hash: [0xff; 32], response_bytes: 500 });
    let account = ([9u8; 32], TrieAccount { nonce: 0, balance: [0u8; 32], storage_root: [8u8; 32], code_hash: [0u8; 32] });
    let s = storage_range_request(&account, [5u8; 32], 2, 600);
    assert_eq!(s.root_hash, [8u8; 32]);
    assert_eq!(s.account_hashes, vec![[9u8; 32]]);
    assert_eq!(s.starting_hash, [5u8; 32]);
    assert_eq!(s.limit_hash, [0xff; 32]);
    assert_eq!((s.request_id, s.response_bytes), (2, 600));
}

#[test]
fn header_answer_decides_state_root() {
    let h = Header { number: 5, state_root: [6u8; 32] };
    assert_eq!(state_root_from_header(Ok(Some(h)), [1u8; 32]), Ok([6u8; 32]));
    assert_eq!(state_root_from_header(Ok(None), [1u8; 32]), Err(SnapSyncError::BlockNotFound([1u8; 32])));
    assert_eq!(state_root_from_header(Err(ProviderError::Database), [1u8; 32]), Err(SnapSyncError::StateProvider(ProviderError::Database)));
}

#[test]
fn code_counts_add_up_or_overflow() {
    let m = ByteCodesMessage { request_id: 0, codes: vec![vec![1], vec![2], vec![3]] };
    assert_eq!(add_code_count(4, &m), Ok(7));
    assert_eq!(add_code_count(usize::MAX - 1, &m), Err(SnapSyncError::CounterOverflow));
}
