use usda_ledger::das::DASVerifier;
use usda_ledger::das::LightClientEvent;
use usda_ledger::das::VerificationStatus;
use usda_ledger::das::PROGRESS_SCALE;

#[test]
fn test_das_verification() {
    let mut verifier = DASVerifier::new();
    let id = verifier.start_verification("0xblock", 42).unwrap();

    // Freshly started: pending, no progress.
    let (status, progress) = verifier.get_verification_progress(id).unwrap();
    assert!(matches!(status, VerificationStatus::Pending));
    assert_eq!(progress, 0);

    // A completed sampling report marks it verified, at full progress.
    verifier.apply_event(&LightClientEvent::BlockVerified(
        usda_ledger::das::BlockVerification {
            block_hash: "0xblock".to_string(),
            block_number: 42,
            confidence_ppm: 999000,
            cells_total: 80,
            cells_verified: 80,
        },
    ));
    let (status, progress) = verifier.get_verification_progress(id).unwrap();
    assert!(matches!(status, VerificationStatus::Verified { .. }));
    assert_eq!(progress, PROGRESS_SCALE);
}

#[test]
fn test_das_verification_progress() {
    let mut verifier = DASVerifier::new();
    let id = verifier.start_verification("0xblock", 42).unwrap();

    verifier.apply_event(&LightClientEvent::VerificationProgress {
        block_hash: "0xblock".to_string(),
        progress_ppm: 250000,
        cells_verified: 20,
    });
    let (_, progress) = verifier.get_verification_progress(id).unwrap();
    assert_eq!(progress, 250000);

    // A stale, lower report never lowers the recorded progress.
    verifier.apply_event(&LightClientEvent::VerificationProgress {
        block_hash: "0xblock".to_string(),
        progress_ppm: 100000,
        cells_verified: 8,
    });
    let (_, progress) = verifier.get_verification_progress(id).unwrap();
    assert_eq!(progress, 250000);

    // Progress climbs with fresh reports.
    verifier.apply_event(&LightClientEvent::VerificationProgress {
        block_hash: "0xblock".to_string(),
        progress_ppm: 750000,
        cells_verified: 60,
    });
    let (_, progress) = verifier.get_verification_progress(id).unwrap();
    assert_eq!(progress, 750000);
}

#[test]
fn test_terminal_status_is_absorbing() {
    let mut verifier = DASVerifier::new();
    let id = verifier.start_verification("0xdead", 7).unwrap();

    verifier.apply_event(&LightClientEvent::Error {
        message: "sampling failed".to_string(),
        block_hash: Some("0xdead".to_string()),
    });
    let status = verifier.get_verification_status(id).unwrap();
    assert!(matches!(status, VerificationStatus::Failed(_)));

    // Later progress reports cannot resurrect a failed record.
    verifier.apply_event(&LightClientEvent::VerificationProgress {
        block_hash: "0xdead".to_string(),
        progress_ppm: 500000,
        cells_verified: 10,
    });
    let status = verifier.get_verification_status(id).unwrap();
    assert!(matches!(status, VerificationStatus::Failed(_)));
    let (_, progress) = verifier.get_verification_progress(id).unwrap();
    assert_eq!(progress, PROGRESS_SCALE);
}

#[test]
fn test_unknown_record_is_a_database_error() {
    let verifier = DASVerifier::new();
    assert!(verifier.get_verification_status(99).is_err());
    assert!(verifier.get_verification_progress(99).is_err());
}

#[test]
fn test_error_without_block_changes_nothing() {
    let mut verifier = DASVerifier::new();
    let id = verifier.start_verification("0xblock", 1).unwrap();
    verifier.apply_event(&LightClientEvent::Error {
        message: "light client hiccup".to_string(),
        block_hash: None,
    });
    let status = verifier.get_verification_status(id).unwrap();
    assert!(matches!(status, VerificationStatus::Pending));
}
