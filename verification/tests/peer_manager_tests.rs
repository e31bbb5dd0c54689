use snap_sync::peer_manager::{PeerMetrics, PeerSelectionStrategy, SnapSyncPeerManager};
use std::time::Duration;

fn manager(strategy: PeerSelectionStrategy, max_failures: u32) -> SnapSyncPeerManager {
    SnapSyncPeerManager::new(strategy, 10, 800, max_failures, Duration::from_secs(300))
}

#[test]
fn test_peer_manager_creation() {
    let peer_manager = manager(PeerSelectionStrategy::BestPerformance, 5);

    let stats = peer_manager.get_peer_stats();
    assert_eq!(stats.total_peers, 0);
    assert_eq!(stats.available_peers, 0);
    assert_eq!(stats.snap_sync_peers, 0);
}

#[test]
fn test_add_and_remove_peer() {
    let mut peer_manager = manager(PeerSelectionStrategy::BestPerformance, 5);

    peer_manager.add_peer("peer1".to_string(), true);

    let stats = peer_manager.get_peer_stats();
    assert_eq!(stats.total_peers, 1);
    assert_eq!(stats.snap_sync_peers, 1);

    peer_manager.remove_peer("peer1");

    let stats = peer_manager.get_peer_stats();
    assert_eq!(stats.total_peers, 0);
    assert_eq!(stats.snap_sync_peers, 0);
}

#[test]
fn peer_manager_tests_test_peer_selection() {
    let mut peer_manager = manager(PeerSelectionStrategy::BestPerformance, 5);

    peer_manager.add_peer("peer1".to_string(), true);
    peer_manager.add_peer("peer2".to_string(), true);

    peer_manager.record_success("peer1", 100, 1000);
    peer_manager.record_success("peer1", 200, 2000);
    peer_manager.record_failure("peer1");

    peer_manager.record_success("peer2", 150, 1500);
    peer_manager.record_success("peer2", 250, 2500);

    let selected_peer = peer_manager.select_peer();
    assert!(selected_peer.is_some());
    // peer1 has two thirds successes, under the minimum of 0.8; peer2 has all
    assert_eq!(selected_peer, Some("peer2".to_string()));
}

#[test]
fn test_peer_metrics() {
    let mut metrics = PeerMetrics::default();

    metrics.record_success(100, 1000);
    metrics.record_success(200, 2000);
    metrics.record_failure();

    assert_eq!(metrics.total_requests, 3);
    assert_eq!(metrics.successful_requests, 2);
    assert_eq!(metrics.failed_requests, 1);
    assert_eq!(metrics.total_bytes_downloaded, 3000);
    let success_rate = metrics.successful_requests as f64 / metrics.total_requests as f64;
    assert!((success_rate - 0.6667).abs() < 0.01);
    // the average is the first sample, then the mean of average and sample
    assert_eq!(metrics.avg_response_time_ms, 150);
    assert!(metrics.meets_success_rate(666));
    assert!(!metrics.meets_success_rate(667));
}

#[test]
fn test_peer_availability() {
    let mut peer_manager = manager(PeerSelectionStrategy::BestPerformance, 3);

    peer_manager.add_peer("peer1".to_string(), true);

    peer_manager.record_failure("peer1");
    peer_manager.record_failure("peer1");
    peer_manager.record_failure("peer1");

    let peer_info = peer_manager.get_peer_info("peer1");
    assert!(peer_info.is_some());
    assert!(!peer_info.unwrap().is_available);

    let selected_peer = peer_manager.select_peer();
    assert!(selected_peer.is_none());
}

#[test]
fn test_peer_selection_strategies() {
    let strategies = vec![
        PeerSelectionStrategy::BestPerformance,
        PeerSelectionStrategy::FastestResponse,
        PeerSelectionStrategy::RoundRobin,
        PeerSelectionStrategy::Random,
    ];

    for strategy in strategies {
        let peer_manager = manager(strategy, 5);
        assert_eq!(peer_manager.get_peer_stats().total_peers, 0);
    }
}

#[test]
fn test_peer_stats() {
    let mut peer_manager = manager(PeerSelectionStrategy::BestPerformance, 5);

    peer_manager.add_peer("peer1".to_string(), true);
    peer_manager.add_peer("peer2".to_string(), false);

    let stats = peer_manager.get_peer_stats();
    assert_eq!(stats.total_peers, 2);
    assert_eq!(stats.available_peers, 2);
    assert_eq!(stats.snap_sync_peers, 1);
}

#[test]
fn peer_stats_sum_requests_and_bytes() {
    let mut m = manager(PeerSelectionStrategy::BestPerformance, 5);
    m.add_peer("a".to_string(), true);
    m.add_peer("b".to_string(), true);
    m.record_success("a", 10, 100);
    m.record_failure("b");
    m.record_success("b", 30, 300);
    let stats = m.get_peer_stats();
    assert_eq!(stats.total_requests, 3);
    assert_eq!(stats.successful_requests, 2);
    assert_eq!(stats.total_bytes_downloaded, 400);
}

#[test]
fn fastest_response_takes_lowest_average_first_on_ties() {
    let mut m = SnapSyncPeerManager::new(
        PeerSelectionStrategy::FastestResponse,
        10,
        0,
        5,
        Duration::from_secs(300),
    );
    m.add_peer("slow".to_string(), true);
    m.add_peer("fast".to_string(), true);
    m.add_peer("fast_too".to_string(), true);
    m.record_success("slow", 500, 1);
    m.record_success("fast", 20, 1);
    m.record_success("fast_too", 20, 1);
    assert_eq!(m.select_peer(), Some("fast".to_string()));
}

#[test]
fn round_robin_takes_least_id() {
    let mut m = SnapSyncPeerManager::new(
        PeerSelectionStrategy::RoundRobin,
        10,
        0,
        5,
        Duration::from_secs(300),
    );
    m.add_peer("peer_c".to_string(), true);
    m.add_peer("peer_a".to_string(), true);
    m.add_peer("peer_b".to_string(), true);
    assert_eq!(m.select_peer(), Some("peer_a".to_string()));
}

#[test]
fn random_takes_first_eligible() {
    let mut m = SnapSyncPeerManager::new(PeerSelectionStrategy::Random, 10, 0, 5, Duration::from_secs(300));
    m.add_peer("no_snap".to_string(), false);
    m.add_peer("second".to_string(), true);
    m.add_peer("third".to_string(), true);
    assert_eq!(m.select_peer(), Some("second".to_string()));
}

#[test]
fn best_performance_keeps_last_of_equal_rates() {
    let mut m = SnapSyncPeerManager::new(
        PeerSelectionStrategy::BestPerformance,
        10,
        0,
        5,
        Duration::from_secs(300),
    );
    m.add_peer("x".to_string(), true);
    m.add_peer("y".to_string(), true);
    m.record_success("x", 10, 1);
    m.record_success("y", 10, 1);
    assert_eq!(m.select_peer(), Some("y".to_string()));
}

#[test]
fn success_restores_availability() {
    let mut m = manager(PeerSelectionStrategy::Random, 2);
    m.add_peer("p".to_string(), true);
    m.record_failure("p");
    m.record_failure("p");
    assert!(!m.get_peer_info("p").unwrap().is_available);
    m.record_success("p", 5, 5);
    let p = m.get_peer_info("p").unwrap();
    assert!(p.is_available);
    assert_eq!(p.consecutive_failures, 0);
}

#[test]
fn add_then_remove_restores_peers() {
    let mut m = manager(PeerSelectionStrategy::Random, 2);
    m.add_peer("keep".to_string(), true);
    m.add_peer("temp".to_string(), false);
    m.remove_peer("temp");
    assert_eq!(m.available_peers(), vec!["keep".to_string()]);
    assert!(m.get_peer_info("temp").is_none());
}

#[test]
fn adding_known_id_replaces_peer() {
    let mut m = manager(PeerSelectionStrategy::Random, 2);
    m.add_peer("p".to_string(), true);
    m.record_success("p", 5, 5);
    m.add_peer("p".to_string(), false);
    let stats = m.get_peer_stats();
    assert_eq!(stats.total_peers, 1);
    assert_eq!(stats.total_requests, 0);
    assert_eq!(stats.snap_sync_peers, 0);
}

#[test]
fn update_peer_info_sets_root_and_block() {
    let mut m = manager(PeerSelectionStrategy::Random, 2);
    m.add_peer("p".to_string(), true);
    m.update_peer_info("p", Some([7u8; 32]), Some(42));
    let p = m.get_peer_info("p").unwrap();
    assert_eq!(p.state_root, Some([7u8; 32]));
    assert_eq!(p.block_number, Some(42));
}

#[test]
fn remove_flagged_and_reset_flagged() {
    let mut m = manager(PeerSelectionStrategy::Random, 1);
    m.add_peer("a".to_string(), true);
    m.add_peer("b".to_string(), true);
    m.add_peer("c".to_string(), true);
    m.record_failure("b");
    assert!(!m.get_peer_info("b").unwrap().is_available);
    m.reset_flagged(&vec![true, true, true]);
    let b = m.get_peer_info("b").unwrap();
    assert!(b.is_available);
    assert_eq!(b.consecutive_failures, 0);
    m.remove_flagged(&vec![true, false, true]);
    assert_eq!(m.available_peers(), vec!["b".to_string()]);
}

#[test]
fn cleanup_keeps_peers_never_asked() {
    let mut m = manager(PeerSelectionStrategy::Random, 1);
    m.add_peer("a".to_string(), true);
    m.cleanup();
    m.reset_peer_availability();
    assert_eq!(m.get_peer_stats().total_peers, 1);
}

#[test]
fn recorded_requests_stay_balanced() {
    let mut m = snap_sync::peer_manager::PeerMetrics::default();
    m.record_success(10, 100);
    m.record_failure();
    m.record_failure();
    assert_eq!(m.total_requests, m.successful_requests + m.failed_requests);
    assert_eq!((m.successful_requests, m.failed_requests), (1, 2));
    assert!(m.last_request_time.is_some());
}
