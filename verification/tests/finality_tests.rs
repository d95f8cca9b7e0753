use usda_ledger::finality::finality_wait_step;
use usda_ledger::finality::BlockStatus;
use usda_ledger::finality::FinalityConfig;
use usda_ledger::finality::FinalityTracker;

#[test]
fn finality_test_finality_tracking() {
    let config = FinalityConfig {
        finality_timeout_ms: 1000,
        finality_depth: 2,
        max_tracked_blocks: 10,
    };
    let mut tracker = FinalityTracker::new(config);

    // Track a block.
    let hash = "0x123".to_string();
    tracker.track_block(1, hash.clone());

    // Should not be finalized yet.
    assert!(!tracker.is_finalized(&hash));

    // Finalize the block.
    tracker.finalize_block(1, hash.clone());

    // Should be finalized now.
    assert!(tracker.is_finalized(&hash));

    // The synchronous check of a wait returns the final status at once.
    let status = tracker.check_finalized(&hash).unwrap();
    assert!(status.is_final());
}

#[test]
fn test_finality_timeout() {
    let config = FinalityConfig {
        finality_timeout_ms: 100,
        finality_depth: 2,
        max_tracked_blocks: 10,
    };
    let tracker = FinalityTracker::new(config);

    // A block nobody finalized has no final status to hand out: a waiter
    // would subscribe and run into its deadline.
    let result = tracker.check_finalized("0x456");
    assert!(result.is_none());
}

#[test]
fn test_block_cleanup() {
    let config = FinalityConfig {
        finality_timeout_ms: 1000,
        finality_depth: 2,
        max_tracked_blocks: 2,
    };
    let mut tracker = FinalityTracker::new(config);

    // Add 3 blocks.
    tracker.track_block(1, "0x1".to_string());
    tracker.track_block(2, "0x2".to_string());
    tracker.track_block(3, "0x3".to_string());

    // Should only keep latest 2 blocks.
    assert!(!tracker.is_finalized("0x1"));
    assert!(tracker.tracked_count() == 2);
    assert!(!tracker.is_tracked("0x1"));
    assert!(tracker.is_tracked("0x2"));
    assert!(tracker.is_tracked("0x3"));
}

#[test]
fn test_finalize_idempotent() {
    let mut tracker = FinalityTracker::new(FinalityConfig::default());
    tracker.track_block(7, "0xabc".to_string());

    let first = tracker.finalize_block(7, "0xabc".to_string());
    assert!(first.is_some());
    assert!(first.unwrap().is_final());

    // The second identical call changes nothing and reports nothing.
    let second = tracker.finalize_block(7, "0xabc".to_string());
    assert!(second.is_none());
    assert!(tracker.is_finalized("0xabc"));
    assert_eq!(tracker.tracked_count(), 1);
}

#[test]
fn test_wait_step() {
    let other = BlockStatus::Final {
        number: 1,
        hash: "0x1".to_string(),
        finalized_at: 0,
    };
    assert!(finality_wait_step(&other, "0x2").is_none());

    let pending = BlockStatus::Pending {
        number: 2,
        hash: "0x2".to_string(),
        timestamp: 0,
    };
    assert!(finality_wait_step(&pending, "0x2").is_none());

    let matching = BlockStatus::Final {
        number: 2,
        hash: "0x2".to_string(),
        finalized_at: 1,
    };
    let got = finality_wait_step(&matching, "0x2").unwrap();
    assert_eq!(got.block_number(), 2);
    assert_eq!(got.block_hash(), "0x2");
}

#[test]
fn test_block_cleanup_evicts_smallest_numbers() {
    let config = FinalityConfig {
        finality_timeout_ms: 1000,
        finality_depth: 2,
        max_tracked_blocks: 2,
    };
    let mut tracker = FinalityTracker::new(config);
    tracker.track_block(5, "0xa".to_string());
    tracker.track_block(5, "0xb".to_string());
    tracker.track_block(6, "0xc".to_string());
    // The first of the two equal-numbered entries goes.
    assert!(!tracker.is_tracked("0xa"));
    assert!(tracker.is_tracked("0xb"));
    assert!(tracker.is_tracked("0xc"));
}
