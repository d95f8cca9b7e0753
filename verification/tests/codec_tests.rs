use usda_ledger::codec::decode_witnesses;
use usda_ledger::codec::encode_witnesses;
use usda_ledger::codec::BatchError;
use usda_ledger::codec::RollupBatch;
use usda_ledger::codec::WITNESS_BYTES;
use usda_ledger::prover::decode_batch_result;
use usda_ledger::prover::encode_batch_result;
use usda_ledger::prover::BatchResult;
use usda_ledger::types::TransferProof;

fn witness(seed: u8) -> TransferProof {
    TransferProof {
        from_addr: [seed; 32],
        to_addr: [seed.wrapping_add(1); 32],
        amount: 100 + seed as i64,
        fee: 10,
        nonce: seed as i64,
        signature: [seed.wrapping_mul(3); 64],
        public_key: [seed; 32],
    }
}

#[test]
fn test_witness_payload_round_trip() {
    let ws = vec![witness(1), witness(2), witness(7)];
    let bytes = encode_witnesses(&ws);
    assert_eq!(bytes.len(), 4 + 3 * WITNESS_BYTES);
    // The count prefix is little-endian.
    assert_eq!(&bytes[0..4], &[3u8, 0, 0, 0]);

    let back = decode_witnesses(&bytes).unwrap();
    assert_eq!(back.len(), 3);
    for (a, b) in ws.iter().zip(back.iter()) {
        assert_eq!(a.from_addr, b.from_addr);
        assert_eq!(a.to_addr, b.to_addr);
        assert_eq!(a.amount, b.amount);
        assert_eq!(a.fee, b.fee);
        assert_eq!(a.nonce, b.nonce);
        assert_eq!(a.signature.to_vec(), b.signature.to_vec());
        assert_eq!(a.public_key, b.public_key);
    }
}

#[test]
fn test_witness_payload_negative_integers() {
    // Two's complement survives the trip.
    let mut w = witness(9);
    w.amount = -5;
    w.nonce = i64::MIN;
    let bytes = encode_witnesses(&vec![w]);
    let back = decode_witnesses(&bytes).unwrap();
    assert_eq!(back[0].amount, -5);
    assert_eq!(back[0].nonce, i64::MIN);
}

#[test]
fn test_witness_payload_rejects_bad_shapes() {
    assert!(decode_witnesses(&[]).is_none());
    assert!(decode_witnesses(&[1, 0, 0]).is_none());
    // Count says one witness but the bytes are short.
    let mut bad = vec![1u8, 0, 0, 0];
    bad.extend(std::iter::repeat(0u8).take(WITNESS_BYTES - 1));
    assert!(decode_witnesses(&bad).is_none());
}

#[test]
fn test_rollup_batch_round_trip() {
    let batch = RollupBatch::new([0u8; 32], 100, 110, vec![1, 2, 3], [1u8; 32]);
    assert!(batch.verify().is_ok());

    let encoded = batch.encode();
    let decoded = RollupBatch::decode(&encoded).unwrap();
    assert_eq!(decoded.prev_state_root, [0u8; 32]);
    assert_eq!(decoded.start_seq, 100);
    assert_eq!(decoded.end_seq, 110);
    assert_eq!(decoded.data, vec![1, 2, 3]);
    assert_eq!(decoded.new_state_root, [1u8; 32]);
}

#[test]
fn test_rollup_batch_verify_rejects_inverted_range() {
    let batch = RollupBatch::new([0u8; 32], 110, 100, vec![], [1u8; 32]);
    assert!(matches!(batch.verify(), Err(BatchError::InvalidRange)));
}

#[test]
fn test_rollup_batch_decode_rejects_garbage() {
    assert!(matches!(
        RollupBatch::decode(&[1, 2, 3]),
        Err(BatchError::Malformed)
    ));
    // A length field that disagrees with the actual length.
    let batch = RollupBatch::new([2u8; 32], 1, 2, vec![9, 9], [3u8; 32]);
    let mut encoded = batch.encode();
    encoded.push(0);
    assert!(matches!(
        RollupBatch::decode(&encoded),
        Err(BatchError::Malformed)
    ));
}

#[test]
fn test_batch_result_codec() {
    let r = BatchResult { cycles_used: 2000 };
    let bytes = encode_batch_result(&r);
    assert_eq!(bytes, vec![0xd0, 0x07, 0, 0, 0, 0, 0, 0]);
    let back = decode_batch_result(&bytes).unwrap();
    assert_eq!(back.cycles_used, 2000);
    assert!(decode_batch_result(&bytes[..7]).is_none());
}
