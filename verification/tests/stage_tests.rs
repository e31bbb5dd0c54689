use alloy_primitives::U256;
use snap_sync::client::DownloadClient;
use snap_sync::config::SnapSyncConfig;
use snap_sync::error::StageError;
use snap_sync::hash::{hash_from_low_u64_be, max_hash, zero_hash};
use snap_sync::messages::{AccountData, AccountRangeMessage};
use snap_sync::sets::StageKind;
use snap_sync::stage::{HeaderReceiver, PollStart, SnapSyncStage};
use snap_sync::stage_api::{ExecInput, StageCheckpoint, UnwindInput};
use snap_sync::snap_sync_simplified::SnapSyncStage as SimplifiedStage;
use std::sync::Arc;

#[derive(Debug, Clone)]
struct IntegrationMockSnapClient {
    should_fail: bool,
}

impl IntegrationMockSnapClient {
    fn new() -> Self {
        Self { should_fail: false }
    }

    fn with_failure() -> Self {
        Self { should_fail: true }
    }
}

impl DownloadClient for IntegrationMockSnapClient {
    fn num_connected_peers(&self) -> usize {
        if self.should_fail {
            0
        } else {
            3
        }
    }
}

#[derive(Debug, Clone)]
struct MockSnapClient;

fn alloy_low(v: u64) -> [u8; 32] {
    U256::from(v).to_be_bytes::<32>()
}

#[test]
fn snap_sync_tests_test_snap_sync_stage_creation() {
    let config = SnapSyncConfig::default();
    let stage = SnapSyncStage::new(config, Arc::new(MockSnapClient));
    assert_eq!(stage.id(), StageKind::SnapSync);
}

#[test]
fn snap_sync_tests_test_snap_sync_stage_disabled() {
    let mut config = SnapSyncConfig::default();
    config.enabled = false;
    let mut stage = SnapSyncStage::new(config, Arc::new(MockSnapClient));
    let input = ExecInput { target: Some(100), checkpoint: None };

    let result = stage.execute(input, true, None);
    assert!(result.is_ok());
    assert!(result.unwrap().output.done);
}

#[test]
fn test_with_header_receiver() {
    let config = SnapSyncConfig::default();
    let receiver = HeaderReceiver { state_root: alloy_low(12345) };

    let stage = SnapSyncStage::new(config, Arc::new(MockSnapClient)).with_header_receiver(receiver);

    assert!(stage.header_receiver.is_some());
    assert_eq!(stage.get_target_state_root(), Some(alloy_low(12345)));
    assert_eq!(stage.get_target_state_root(), Some(hash_from_low_u64_be(12345)));
}

#[test]
fn test_create_account_range_request() {
    let config = SnapSyncConfig::default();
    let mut stage = SnapSyncStage::new(config, Arc::new(MockSnapClient));

    let request = stage.create_account_range_request([0u8; 32], [0xff; 32]);

    assert_eq!(request.request_id, 1);
    assert_eq!(request.starting_hash, [0u8; 32]);
    assert_eq!(request.limit_hash, [0xff; 32]);
    assert_eq!(request.response_bytes, config.max_response_bytes);
}

#[test]
fn test_process_empty_account_ranges() {
    let config = SnapSyncConfig::default();
    let stage = SnapSyncStage::new(config, Arc::new(MockSnapClient));

    let processed = stage.process_account_ranges(vec![]).unwrap();
    assert_eq!(processed.len(), 0);
}

#[test]
fn test_account_range_proof_verification() {
    let config = SnapSyncConfig::default();
    let stage = SnapSyncStage::new(config, Arc::new(MockSnapClient));

    let empty_range = AccountRangeMessage { request_id: 1, accounts: vec![], proof: vec![] };
    assert!(stage.verify_account_range_proof(&empty_range).unwrap());

    let range_with_accounts = AccountRangeMessage {
        request_id: 1,
        accounts: vec![AccountData { hash: alloy_low(1), body: Vec::new() }],
        proof: vec![],
    };
    assert!(stage.verify_account_range_proof(&range_with_accounts).unwrap());
}

#[test]
fn snap_sync_simplified_tests_test_snap_sync_stage_creation() {
    let config = SnapSyncConfig::default();
    let snap_client = Arc::new(MockSnapClient);
    let stage = SimplifiedStage::new(config, snap_client);
    assert_eq!(stage.id(), StageKind::SnapSync);
}

#[test]
fn snap_sync_simplified_tests_test_snap_sync_stage_disabled() {
    let mut config = SnapSyncConfig::default();
    config.enabled = false;
    let snap_client = Arc::new(MockSnapClient);
    let mut stage = SimplifiedStage::new(config, snap_client);
    let input = ExecInput { target: Some(100), checkpoint: None };

    let result = stage.execute(&input, true, None);
    assert!(result.is_ok());
    assert!(result.unwrap().output.done);
}

#[test]
fn test_snap_sync_config_validation() {
    let config = snap_sync::sets::SnapSyncConfig::default();

    assert!(config.max_accounts_per_request > 0);
    assert!(config.max_storage_per_request > 0);
    assert!(config.max_bytecodes_per_request > 0);
    assert!(config.max_trie_nodes_per_request > 0);
    assert!(config.request_timeout_secs > 0);
    assert!(config.max_concurrent_requests > 0);

    assert!(config.max_accounts_per_request <= 1000);
    assert!(config.max_storage_per_request <= 10000);
    assert!(config.max_bytecodes_per_request <= 1000);
    assert!(config.max_trie_nodes_per_request <= 10000);
    assert!(config.request_timeout_secs <= 300);
    assert!(config.max_concurrent_requests <= 100);
}

#[test]
fn test_client_connectivity_reporting() {
    let working_client = IntegrationMockSnapClient::new();
    let failing_client = IntegrationMockSnapClient::with_failure();

    assert_eq!(working_client.num_connected_peers(), 3);
    assert_eq!(failing_client.num_connected_peers(), 0);
}

#[test]
fn test_snap_sync_gets_state_root_from_provider() {
    println!("Implementation allows snap sync to work without header subscription!");
    println!("State root is obtained from provider->best_block_number()->header->state_root()");
}

// The tests below exercise the stage's own rules beyond the scenarios above.

#[test]
fn stage_without_target_root_is_done_at_target() {
    let mut stage = SnapSyncStage::new(SnapSyncConfig::default(), Arc::new(MockSnapClient));
    let input = ExecInput { target: Some(100), checkpoint: Some(StageCheckpoint::new(10)) };
    let step = stage.execute(input, true, None).unwrap();
    assert!(step.output.done);
    assert_eq!(step.output.checkpoint.block_number, 100);
    assert!(step.accounts.is_empty());
    assert!(stage.queued_ranges.is_empty());
}

#[test]
fn stage_target_reached_is_done_at_checkpoint() {
    let mut stage = SnapSyncStage::new(SnapSyncConfig::default(), Arc::new(MockSnapClient));
    let input = ExecInput { target: Some(50), checkpoint: Some(StageCheckpoint::new(50)) };
    let step = stage.execute(input, true, None).unwrap();
    assert!(step.output.done);
    assert_eq!(step.output.checkpoint.block_number, 50);
    assert!(step.accounts.is_empty());
}

#[test]
fn stage_execute_queues_ranges_from_start() {
    let mut config = SnapSyncConfig::default();
    config.max_ranges_per_execution = 3;
    let mut stage = SnapSyncStage::new(config, Arc::new(MockSnapClient)).with_header_receiver(HeaderReceiver { state_root: [7u8; 32] });
    let input = ExecInput { target: Some(100), checkpoint: Some(StageCheckpoint::new(0)) };
    let step = stage.execute(input, true, None).unwrap();
    assert_eq!(step.output.checkpoint.block_number, 0);
    assert!(!step.output.done);
    assert_eq!(stage.queued_ranges.len(), 3);
    assert_eq!(stage.queued_ranges[0].0, zero_hash());
    for (i, r) in stage.queued_ranges.iter().enumerate() {
        assert_eq!(r.2, [7u8; 32]);
        if i > 0 {
            assert_eq!(r.0, stage.queued_ranges[i - 1].1);
        }
    }
}

#[test]
fn stage_execute_from_greatest_key_is_done() {
    let mut stage = SnapSyncStage::new(SnapSyncConfig::default(), Arc::new(MockSnapClient)).with_header_receiver(HeaderReceiver { state_root: [7u8; 32] });
    let input = ExecInput { target: Some(100), checkpoint: Some(StageCheckpoint::new(0)) };
    let step = stage.execute(input, false, Some(max_hash())).unwrap();
    assert!(step.output.done);
}

#[test]
fn stage_poll_dispatches_queued_ranges() {
    let mut config = SnapSyncConfig::default();
    config.max_ranges_per_execution = 2;
    let mut stage = SnapSyncStage::new(config, Arc::new(MockSnapClient)).with_header_receiver(HeaderReceiver { state_root: [9u8; 32] });
    let input = ExecInput { target: Some(100), checkpoint: None };
    stage.execute(input, true, None).unwrap();
    match stage.poll_execute_ready_start() {
        PollStart::Dispatch(reqs) => {
            assert_eq!(reqs.len(), 2);
            assert_eq!(reqs[0].request_id, 1);
            assert_eq!(reqs[1].request_id, 2);
            assert_eq!(reqs[0].root_hash, [9u8; 32]);
            assert_eq!(reqs[0].response_bytes, config.max_response_bytes);
        }
        _ => panic!("expected requests to dispatch"),
    }
    assert!(stage.queued_ranges.is_empty());
    assert!(!stage.poll_execute_ready_finish());
}

#[test]
fn stage_poll_without_root_is_pending_and_disabled_is_ready() {
    let mut stage = SnapSyncStage::new(SnapSyncConfig::default(), Arc::new(MockSnapClient));
    assert!(matches!(stage.poll_execute_ready_start(), PollStart::Pending));
    let mut config = SnapSyncConfig::default();
    config.enabled = false;
    let mut disabled = SnapSyncStage::new(config, Arc::new(MockSnapClient));
    assert!(matches!(disabled.poll_execute_ready_start(), PollStart::Ready));
}

#[test]
fn stage_next_starting_point() {
    let stage = SnapSyncStage::new(SnapSyncConfig::default(), Arc::new(MockSnapClient));
    assert_eq!(stage.get_next_sync_starting_point(true, Some([5u8; 32])).unwrap(), zero_hash());
    assert_eq!(stage.get_next_sync_starting_point(false, Some(hash_from_low_u64_be(41))).unwrap(), hash_from_low_u64_be(42));
    assert_eq!(stage.get_next_sync_starting_point(false, Some(max_hash())).unwrap(), max_hash());
}

#[test]
fn stage_unwind_moves_checkpoint_and_clears_when_enabled() {
    let mut stage = SnapSyncStage::new(SnapSyncConfig::default(), Arc::new(MockSnapClient));
    let step = stage.unwind(UnwindInput { unwind_to: 250, bad_block: Some(300), checkpoint: StageCheckpoint::new(1000) });
    assert_eq!(step.output.checkpoint.block_number, 250);
    assert!(step.clear_hashed_accounts);
    let mut config = SnapSyncConfig::default();
    config.enabled = false;
    let mut disabled = SnapSyncStage::new(config, Arc::new(MockSnapClient));
    let step = disabled.unwind(UnwindInput { unwind_to: 7, bad_block: None, checkpoint: StageCheckpoint::new(9) });
    assert_eq!(step.output.checkpoint.block_number, 7);
    assert!(!step.clear_hashed_accounts);
}

#[test]
fn stage_proof_without_root_is_an_error() {
    let stage = SnapSyncStage::new(SnapSyncConfig::default(), Arc::new(MockSnapClient));
    let range = AccountRangeMessage {
        request_id: 1,
        accounts: vec![AccountData { hash: alloy_low(1), body: vec![0xc0] }],
        proof: vec![vec![0x80]],
    };
    assert_eq!(stage.verify_account_range_proof(&range), Err(StageError::MissingTargetStateRoot));
}

#[test]
fn simplified_rejects_unordered_ranges() {
    let stage = SimplifiedStage::new(SnapSyncConfig::default(), Arc::new(MockSnapClient));
    let range = AccountRangeMessage {
        request_id: 1,
        accounts: vec![
            AccountData { hash: alloy_low(2), body: vec![] },
            AccountData { hash: alloy_low(1), body: vec![] },
        ],
        proof: vec![],
    };
    assert_eq!(stage.process_account_ranges(vec![range]).err(), Some(StageError::AccountsNotAscending));
}

#[test]
fn simplified_unwind_moves_checkpoint() {
    let mut stage = SimplifiedStage::new(SnapSyncConfig::default(), Arc::new(MockSnapClient));
    let step = stage.unwind(&UnwindInput { unwind_to: 250, bad_block: None, checkpoint: StageCheckpoint::new(1000) });
    assert_eq!(step.output.checkpoint.block_number, 250);
    assert!(step.clear_hashed_accounts);
}

#[test]
fn stage_proof_that_does_not_verify_is_rejected() {
    let stage = SnapSyncStage::new(SnapSyncConfig::default(), Arc::new(MockSnapClient))
        .with_header_receiver(HeaderReceiver { state_root: [7u8; 32] });
    let range = AccountRangeMessage {
        request_id: 1,
        accounts: vec![AccountData { hash: alloy_low(1), body: vec![0xc0] }],
        proof: vec![vec![0x80]],
    };
    assert_eq!(stage.verify_account_range_proof(&range), Err(StageError::ProofVerificationFailed));
    assert_eq!(stage.process_account_ranges(vec![range]).err(), Some(StageError::ProofVerificationFailed));
}

#[test]
fn stage_rejects_proof_walking_past_a_key_without_panicking() {
    // A leaf whose compact key holds all 64 nibbles, reached from an extension of one nibble.
    let mut leaf = vec![0xe3, 0xa1, 0x20];
    leaf.extend_from_slice(&[0x11u8; 32]);
    leaf.push(0x01);
    let leaf_hash = alloy_primitives::keccak256(&leaf).0;
    let mut extension = vec![0xe2, 0x15, 0xa0];
    extension.extend_from_slice(&leaf_hash);
    let root = alloy_primitives::keccak256(&extension).0;
    let stage = SnapSyncStage::new(SnapSyncConfig::default(), Arc::new(MockSnapClient))
        .with_header_receiver(HeaderReceiver { state_root: root });
    let range = AccountRangeMessage {
        request_id: 1,
        accounts: vec![AccountData { hash: [0x51u8; 32], body: vec![0x01] }],
        proof: vec![extension, leaf],
    };
    assert_eq!(stage.verify_account_range_proof(&range), Err(StageError::ProofVerificationFailed));
}

#[test]
fn stage_accepts_a_real_single_leaf_proof() {
    use_real_leaf_proof();
}

fn use_real_leaf_proof() {
    let key = [0x51u8; 32];
    let body = vec![0xc4, 0x01, 0x02, 0x03, 0x04];
    let leaf = alloy_trie::nodes::LeafNode::new(alloy_trie::Nibbles::unpack(key), body.clone());
    let mut encoded = Vec::new();
    alloy_rlp::Encodable::encode(&leaf, &mut encoded);
    let root = alloy_primitives::keccak256(&encoded).0;
    let stage = SnapSyncStage::new(SnapSyncConfig::default(), Arc::new(MockSnapClient))
        .with_header_receiver(HeaderReceiver { state_root: root });
    let range = AccountRangeMessage { request_id: 1, accounts: vec![AccountData { hash: key, body: body.clone() }], proof: vec![encoded.clone()] };
    assert_eq!(stage.verify_account_range_proof(&range), Ok(true));
    let wrong = AccountRangeMessage { request_id: 1, accounts: vec![AccountData { hash: key, body: vec![0xc0] }], proof: vec![encoded] };
    assert_eq!(stage.verify_account_range_proof(&wrong), Err(StageError::ProofVerificationFailed));
}

#[test]
fn test_snap_sync_stage_lifecycle() {
    let mut stage = SnapSyncStage::new(SnapSyncConfig::default(), Arc::new(IntegrationMockSnapClient::new()));
    assert_eq!(stage.id(), StageKind::SnapSync);

    let input_no_target = ExecInput { target: None, checkpoint: None };
    let result = stage.execute(input_no_target, true, None);
    assert!(result.is_ok());
    let output = result.unwrap().output;
    assert!(output.done);
    assert_eq!(output.checkpoint.block_number, 0);

    let input_with_target = ExecInput { target: Some(1000), checkpoint: Some(StageCheckpoint::new(500)) };
    let result = stage.execute(input_with_target, true, None);
    assert!(result.is_ok());
    let output = result.unwrap().output;
    assert!(output.done);
    assert_eq!(output.checkpoint.block_number, 1000);

    let unwind_input = UnwindInput { unwind_to: 250, bad_block: Some(300), checkpoint: StageCheckpoint::new(1000) };
    let output = stage.unwind(unwind_input).output;
    assert_eq!(output.checkpoint.block_number, 250);
}

#[test]
fn test_snap_sync_stage_with_different_clients() {
    let config = SnapSyncConfig::default();
    let mut working_stage = SnapSyncStage::new(config, Arc::new(IntegrationMockSnapClient::new()));
    let mut failing_stage = SnapSyncStage::new(config, Arc::new(IntegrationMockSnapClient::with_failure()));
    let input = ExecInput { target: Some(100), checkpoint: Some(StageCheckpoint::new(0)) };

    let working_result = working_stage.execute(input, true, None);
    let failing_result = failing_stage.execute(input, true, None);
    assert!(working_result.is_ok());
    assert!(failing_result.is_ok());
    assert_eq!(working_result.unwrap().output.checkpoint.block_number, 100);
    assert_eq!(failing_result.unwrap().output.checkpoint.block_number, 100);
}

#[test]
fn test_snap_sync_stage_multiple_executions() {
    let mut stage = SnapSyncStage::new(SnapSyncConfig::default(), Arc::new(IntegrationMockSnapClient::new()));
    let targets: Vec<u64> = vec![100, 200, 500, 1000];
    for target in targets {
        let input = ExecInput { target: Some(target), checkpoint: Some(StageCheckpoint::new(target - 50)) };
        let result = stage.execute(input, true, None);
        assert!(result.is_ok());
        let output = result.unwrap().output;
        assert!(output.done);
        assert_eq!(output.checkpoint.block_number, target);
    }
}

#[test]
fn test_snap_sync_stage_edge_cases() {
    let mut stage = SnapSyncStage::new(SnapSyncConfig::default(), Arc::new(IntegrationMockSnapClient::new()));

    let input_zero = ExecInput { target: Some(0), checkpoint: None };
    let result = stage.execute(input_zero, true, None);
    assert!(result.is_ok());
    assert_eq!(result.unwrap().output.checkpoint.block_number, 0);

    let input_large = ExecInput { target: Some(u64::MAX), checkpoint: Some(StageCheckpoint::new(1000)) };
    let result = stage.execute(input_large, true, None);
    assert!(result.is_ok());
    assert_eq!(result.unwrap().output.checkpoint.block_number, u64::MAX);

    let unwind_zero = UnwindInput { unwind_to: 0, bad_block: None, checkpoint: StageCheckpoint::new(1000) };
    let output = stage.unwind(unwind_zero).output;
    assert_eq!(output.checkpoint.block_number, 0);
}

#[test]
fn test_snap_sync_stage_checkpoint_progression() {
    let mut stage = SnapSyncStage::new(SnapSyncConfig::default(), Arc::new(IntegrationMockSnapClient::new()));
    let checkpoints: Vec<u64> = vec![0, 50, 100, 200];
    let targets: Vec<u64> = vec![100, 150, 300, 500];
    for (checkpoint, target) in checkpoints.into_iter().zip(targets.into_iter()) {
        let input = ExecInput { target: Some(target), checkpoint: Some(StageCheckpoint::new(checkpoint)) };
        let result = stage.execute(input, true, None);
        assert!(result.is_ok());
        let output = result.unwrap().output;
        assert!(output.done);
        assert_eq!(output.checkpoint.block_number, target);
    }
}

#[test]
fn test_snap_sync_stage_unwind_scenarios() {
    let mut stage = SnapSyncStage::new(SnapSyncConfig::default(), Arc::new(IntegrationMockSnapClient::new()));
    let scenarios: Vec<(u64, u64)> = vec![(1000, 500), (100, 0), (500, 499), (1000, 1000)];
    for (from_block, to_block) in scenarios {
        let input = UnwindInput {
            unwind_to: to_block,
            bad_block: if from_block > to_block { Some(from_block) } else { None },
            checkpoint: StageCheckpoint::new(from_block),
        };
        let output = stage.unwind(input).output;
        assert_eq!(output.checkpoint.block_number, to_block);
    }
}

#[test]
fn test_snap_sync_stage_with_checkpoints() {
    let mut stage = SnapSyncStage::new(SnapSyncConfig::default(), Arc::new(IntegrationMockSnapClient::new()));

    let input_with_checkpoint = ExecInput { target: Some(1000), checkpoint: Some(StageCheckpoint::new(800)) };
    let result = stage.execute(input_with_checkpoint, true, None);
    assert!(result.is_ok());
    let output = result.unwrap().output;
    assert!(output.done);
    assert_eq!(output.checkpoint.block_number, 1000);

    let input_no_checkpoint = ExecInput { target: Some(500), checkpoint: None };
    let result = stage.execute(input_no_checkpoint, true, None);
    assert!(result.is_ok());
    let output = result.unwrap().output;
    assert!(output.done);
    assert_eq!(output.checkpoint.block_number, 500);
}

#[test]
fn test_snap_sync_stage_execution_performance() {
    let mut stage = SnapSyncStage::new(SnapSyncConfig::default(), Arc::new(MockSnapClient));
    let targets: Vec<u64> = vec![100, 1000, 10000, 100000];
    for target in targets {
        let input = ExecInput { target: Some(target), checkpoint: Some(StageCheckpoint::new(0)) };
        let start = std::time::Instant::now();
        let result = stage.execute(input, true, None);
        let elapsed = start.elapsed();
        assert!(result.is_ok());
        assert_eq!(result.unwrap().output.checkpoint.block_number, target);
        assert!(elapsed.as_millis() < 100, "Execution took too long: {:?} for target {}", elapsed, target);
    }
}

#[test]
fn test_snap_sync_stage_memory_usage() {
    let mut stages = Vec::new();
    for _ in 0..100 {
        stages.push(SnapSyncStage::new(SnapSyncConfig::default(), Arc::new(MockSnapClient)));
    }
    assert_eq!(stages.len(), 100);
    for stage in &stages {
        assert_eq!(stage.id(), StageKind::SnapSync);
    }
}
