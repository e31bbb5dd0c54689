use snap_sync::progress::{DataType, SnapSyncProgressReporter, SyncProgress};
use std::time::Duration;

#[test]
fn test_progress_reporter_creation() {
    let reporter = SnapSyncProgressReporter::new(Duration::from_secs(10), true);

    assert!(reporter.is_complete());
    assert_eq!(reporter.elapsed_time().as_secs(), 0);
}

#[test]
fn test_progress_summary() {
    let mut reporter = SnapSyncProgressReporter::new(Duration::from_secs(10), true);

    reporter.set_total_counts(1000, 2000, 100, 500);
    reporter.update_progress(DataType::Accounts, 100);
    reporter.update_progress(DataType::StorageSlots, 200);

    let summary = reporter.get_summary();
    assert!(summary.contains("Snap Sync Progress"));
    assert!(summary.contains("Accounts:"));
    assert!(summary.contains("Storage:"));
    assert!(summary.contains("Byte Codes:"));
    assert!(summary.contains("Trie Nodes:"));
}

#[test]
fn test_data_type_enum() {
    assert_eq!(DataType::Accounts, DataType::Accounts);
    assert_eq!(DataType::StorageSlots, DataType::StorageSlots);
    assert_eq!(DataType::ByteCodes, DataType::ByteCodes);
    assert_eq!(DataType::TrieNodes, DataType::TrieNodes);
}

#[test]
fn test_disabled_progress_reporter() {
    let mut reporter = SnapSyncProgressReporter::new(Duration::from_secs(10), false);

    reporter.set_total_counts(1000, 2000, 100, 500);
    reporter.update_progress(DataType::Accounts, 100);

    let progress = reporter.progress();
    assert_eq!(progress.accounts_synced, 100);
}

#[test]
fn test_progress_completion() {
    let mut reporter = SnapSyncProgressReporter::new(Duration::from_secs(10), true);

    reporter.set_total_counts(100, 200, 50, 100);
    reporter.update_progress(DataType::Accounts, 100);
    reporter.update_progress(DataType::StorageSlots, 200);
    reporter.update_progress(DataType::ByteCodes, 50);
    reporter.update_progress(DataType::TrieNodes, 100);

    assert!(reporter.is_complete());
    let summary = reporter.summary_at(0);
    assert!(summary.starts_with("Snap Sync Progress: 100.0% complete"));
}

#[test]
fn summary_shows_rounded_percentages_and_rate() {
    let mut reporter = SnapSyncProgressReporter::new(Duration::from_secs(10), true);
    reporter.set_total_counts(1000, 2000, 100, 500);
    reporter.update_progress(DataType::Accounts, 100);
    reporter.update_progress(DataType::StorageSlots, 200);
    reporter.update_progress(DataType::ByteCodes, 10);
    reporter.update_progress(DataType::TrieNodes, 50);
    let summary = reporter.summary_at(36);
    assert_eq!(
        summary,
        "Snap Sync Progress: 10.0% complete\nAccounts: 100/1000 (10.0%)\nStorage: 200/2000 (10.0%)\nByte Codes: 10/100 (10.0%)\nTrie Nodes: 50/500 (10.0%)\nElapsed: 36s, Rate: 10.0 items/s"
    );
}

#[test]
fn summary_rounds_thirds() {
    let mut reporter = SnapSyncProgressReporter::new(Duration::from_secs(10), true);
    reporter.set_total_counts(3, 0, 0, 0);
    reporter.update_progress(DataType::Accounts, 2);
    let summary = reporter.summary_at(3);
    assert!(summary.starts_with("Snap Sync Progress: 66.7% complete\nAccounts: 2/3 (66.7%)"));
    assert!(summary.ends_with("Rate: 0.7 items/s"));
}

#[test]
fn test_sync_progress_calculation() {
    let mut progress = SyncProgress::default();
    progress.total_accounts = 1000;
    progress.total_storage_slots = 2000;
    progress.total_byte_codes = 100;
    progress.total_trie_nodes = 500;

    progress.update_progress(DataType::Accounts, 100);
    progress.update_progress(DataType::StorageSlots, 200);
    progress.update_progress(DataType::ByteCodes, 10);
    progress.update_progress(DataType::TrieNodes, 50);

    assert_eq!(progress.accounts_synced, 100);
    assert_eq!(progress.storage_slots_synced, 200);
    assert_eq!(progress.byte_codes_synced, 10);
    assert_eq!(progress.trie_nodes_synced, 50);
    assert!(!progress.is_complete());
}

#[test]
fn test_sync_progress_completion() {
    let mut progress = SyncProgress::default();
    progress.total_accounts = 100;
    progress.total_storage_slots = 200;
    progress.total_byte_codes = 50;
    progress.total_trie_nodes = 100;

    progress.update_progress(DataType::Accounts, 100);
    progress.update_progress(DataType::StorageSlots, 200);
    progress.update_progress(DataType::ByteCodes, 50);
    progress.update_progress(DataType::TrieNodes, 100);

    assert!(progress.is_complete());
}

#[test]
fn empty_progress_is_complete() {
    let progress = SyncProgress::default();
    assert!(progress.is_complete());
}

#[test]
fn summary_rounds_exact_halves_to_even() {
    let mut reporter = SnapSyncProgressReporter::new(Duration::from_secs(10), true);
    reporter.set_total_counts(16, 0, 0, 0);
    reporter.update_progress(DataType::Accounts, 1);
    let summary = reporter.summary_at(0);
    assert!(summary.starts_with("Snap Sync Progress: 6.2% complete\nAccounts: 1/16 (6.2%)"));
    assert!(summary.ends_with("Elapsed: 0s, Rate: 0.0 items/s"));
}

#[test]
fn disabled_reporter_keeps_its_totals() {
    let mut reporter = SnapSyncProgressReporter::new(Duration::from_secs(10), false);
    reporter.set_total_counts(1000, 2000, 100, 500);
    reporter.update_progress(DataType::Accounts, 100);
    let p = reporter.progress();
    assert_eq!(p.total_accounts, 0);
    assert_eq!(p.accounts_synced, 100);
}
