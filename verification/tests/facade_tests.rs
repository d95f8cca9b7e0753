use usda_ledger::avail::das_poll_step;
use usda_ledger::avail::verification_outcome;
use usda_ledger::avail::AvailError;
use usda_ledger::avail::PollStep;
use usda_ledger::crypto::hex_decode;
use usda_ledger::crypto::hex_encode;
use usda_ledger::das::DASError;
use usda_ledger::das::VerificationStatus;
use usda_ledger::decimal::i64_to_string;
use usda_ledger::decimal::u64_to_string;
use usda_ledger::types::TransactionStatus;

#[test]
fn test_verification_outcome() {
    let verified = VerificationStatus::Verified {
        confidence_ppm: 999999,
        cells_total: 80,
    };
    let ok = verification_outcome(&verified, "0xblock".to_string()).unwrap();
    assert_eq!(ok, "0xblock");

    let failed = VerificationStatus::Failed("cells missing".to_string());
    match verification_outcome(&failed, "0xblock".to_string()) {
        Err(AvailError::DASError(DASError::VerificationError(m))) => {
            assert_eq!(m, "cells missing")
        }
        _ => panic!("Expected a verification error"),
    }

    let pending = VerificationStatus::Pending;
    assert!(verification_outcome(&pending, "0xblock".to_string()).is_err());
}

#[test]
fn test_das_poll_step() {
    let verified = VerificationStatus::Verified {
        confidence_ppm: 1000000,
        cells_total: 80,
    };
    assert!(matches!(das_poll_step(&verified), PollStep::Done));

    // The very first poll of a pending record reports zero progress.
    assert!(matches!(
        das_poll_step(&VerificationStatus::Pending),
        PollStep::Continue(0)
    ));

    let sampling = VerificationStatus::InProgress {
        progress_ppm: 420000,
        cells_verified: 33,
    };
    assert!(matches!(das_poll_step(&sampling), PollStep::Continue(420000)));

    match das_poll_step(&VerificationStatus::Failed("boom".to_string())) {
        PollStep::Fail(m) => assert_eq!(m, "boom"),
        _ => panic!("Expected a failure step"),
    }
}

#[test]
fn test_hex_wrappers_round_trip() {
    let bytes = vec![0u8, 1, 0x0f, 0x10, 0xff];
    let s = hex_encode(&bytes);
    assert_eq!(s, "00010f10ff");
    assert_eq!(hex_decode(&s).unwrap(), bytes);
    assert!(hex_decode("123").is_none());
    assert!(hex_decode("zz").is_none());
    assert_eq!(hex_decode("F9b4").unwrap(), vec![0xf9, 0xb4]);
}

#[test]
fn test_decimal_rendering() {
    assert_eq!(u64_to_string(0), "0");
    assert_eq!(u64_to_string(1010), "1010");
    assert_eq!(i64_to_string(-42), "-42");
    assert_eq!(i64_to_string(i64::MIN), "-9223372036854775808");
}

#[test]
fn test_status_names_round_trip() {
    for st in [
        TransactionStatus::Pending,
        TransactionStatus::Processing,
        TransactionStatus::Executed,
        TransactionStatus::Failed,
    ] {
        assert_eq!(TransactionStatus::from_str(st.as_str()), Some(st));
    }
    assert_eq!(TransactionStatus::from_str("bogus"), None);
    assert!(TransactionStatus::Executed.is_final());
    assert!(!TransactionStatus::Executed.is_error());
    assert!(TransactionStatus::Failed.is_error());
}

#[test]
fn test_sha256_known_vector() {
    let digest = usda_ledger::crypto::sha256(b"abc");
    assert_eq!(
        hex_encode(&digest),
        "ba7816bf8f01cfea414140de5dae2223b00361a396177a9cb410ff61f20015ad"
    );
    // The canonical message really is a digest, not the raw fields.
    assert_eq!(digest.len(), 32);
}
