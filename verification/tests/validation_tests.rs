use ed25519_dalek::Signer;
use ed25519_dalek::SigningKey;
use usda_ledger::crypto::compute_message;
use usda_ledger::types::TransferProof;
use usda_ledger::validation::validate_batch;
use usda_ledger::validation::validate_transaction;
use usda_ledger::validation::ValidationError;
use usda_ledger::validation::MAX_BATCH_SIZE;
use usda_ledger::validation::MAX_FEE;

fn create_signed_tx(
    from_addr: [u8; 32],
    to_addr: [u8; 32],
    amount: i64,
    fee: i64,
    nonce: i64,
    signing_key: &SigningKey,
) -> TransferProof {
    let mut tx = TransferProof {
        from_addr,
        to_addr,
        amount,
        fee,
        nonce,
        signature: [0u8; 64],
        public_key: signing_key.verifying_key().to_bytes(),
    };
    let msg = compute_message(&tx);
    let signature = signing_key.sign(&msg);
    tx.signature = signature.to_bytes();
    tx
}

#[test]
fn test_valid_transaction() {
    let signing_key = SigningKey::from_bytes(&[1u8; 32]);
    let from_addr = [1u8; 32];
    let to_addr = [2u8; 32];
    let tx = create_signed_tx(from_addr, to_addr, 100, 10, 1, &signing_key);
    let result = validate_transaction(&tx, 0, 1000);
    assert!(result.is_ok());
}

#[test]
fn test_invalid_amount() {
    let signing_key = SigningKey::from_bytes(&[1u8; 32]);
    let from_addr = [1u8; 32];
    let to_addr = [2u8; 32];
    let tx = create_signed_tx(from_addr, to_addr, -1, 10, 1, &signing_key);
    let result = validate_transaction(&tx, 0, 1000);
    assert!(matches!(result, Err(ValidationError::InvalidAmount(-1))));
}

#[test]
fn test_invalid_fee() {
    let signing_key = SigningKey::from_bytes(&[1u8; 32]);
    let from_addr = [1u8; 32];
    let to_addr = [2u8; 32];
    let tx = create_signed_tx(from_addr, to_addr, 100, MAX_FEE + 1, 1, &signing_key);
    let result = validate_transaction(&tx, 0, 1000);
    assert!(matches!(result, Err(ValidationError::InvalidFee(_))));
}

#[test]
fn test_invalid_nonce() {
    let signing_key = SigningKey::from_bytes(&[1u8; 32]);
    let from_addr = [1u8; 32];
    let to_addr = [2u8; 32];
    let tx = create_signed_tx(from_addr, to_addr, 100, 10, 2, &signing_key);
    let result = validate_transaction(&tx, 0, 1000);
    assert!(matches!(result, Err(ValidationError::InvalidNonce(2))));
}

#[test]
fn validation_test_insufficient_balance() {
    let signing_key = SigningKey::from_bytes(&[1u8; 32]);
    let from_addr = [1u8; 32];
    let to_addr = [2u8; 32];
    let tx = create_signed_tx(from_addr, to_addr, 1000, 10, 1, &signing_key);
    let result = validate_transaction(&tx, 0, 500);
    assert!(matches!(
        result,
        Err(ValidationError::InsufficientBalance(1010, 500))
    ));
}

#[test]
fn test_invalid_signature() {
    let signing_key = SigningKey::from_bytes(&[1u8; 32]);
    let from_addr = [1u8; 32];
    let to_addr = [2u8; 32];
    let mut tx = create_signed_tx(from_addr, to_addr, 100, 10, 1, &signing_key);
    // Tamper with the amount after signing.
    tx.amount = 200;
    let result = validate_transaction(&tx, 0, 1000);
    assert!(matches!(result, Err(ValidationError::InvalidSignature)));
}

#[test]
fn test_valid_batch() {
    let signing_key1 = SigningKey::from_bytes(&[1u8; 32]);
    let signing_key2 = SigningKey::from_bytes(&[2u8; 32]);
    let from_addr1 = [1u8; 32];
    let from_addr2 = [2u8; 32];
    let to_addr = [3u8; 32];
    let txs = vec![
        create_signed_tx(from_addr1, to_addr, 100, 10, 1, &signing_key1),
        create_signed_tx(from_addr2, to_addr, 200, 20, 1, &signing_key2),
    ];
    let initial_nonces = vec![(from_addr1.to_vec(), 0), (from_addr2.to_vec(), 0)];
    let initial_balances = vec![(from_addr1.to_vec(), 1000), (from_addr2.to_vec(), 1000)];
    let result = validate_batch(&txs, &initial_nonces, &initial_balances);
    assert!(result.is_ok());
}

#[test]
fn test_batch_size_limit() {
    let signing_key = SigningKey::from_bytes(&[1u8; 32]);
    let from_addr = [1u8; 32];
    let to_addr = [2u8; 32];
    let txs = (0..MAX_BATCH_SIZE + 1)
        .map(|i| create_signed_tx(from_addr, to_addr, 100, 10, i as i64 + 1, &signing_key))
        .collect::<Vec<_>>();
    let initial_nonces = vec![(from_addr.to_vec(), 0)];
    let initial_balances = vec![(from_addr.to_vec(), 1000000)];
    let result = validate_batch(&txs, &initial_nonces, &initial_balances);
    assert!(matches!(result, Err(ValidationError::InvalidBatchSize(_))));
}

#[test]
fn test_batch_unknown_sender_starts_at_nonce_zero() {
    // A sender missing from the snapshots starts below zero, so its first
    // transfer must carry nonce 0 - and has no balance to spend.
    let signing_key = SigningKey::from_bytes(&[1u8; 32]);
    let tx = create_signed_tx([1u8; 32], [2u8; 32], 100, 10, 0, &signing_key);
    let result = validate_batch(&[tx], &[], &[]);
    assert!(matches!(
        result,
        Err(ValidationError::InsufficientBalance(110, 0))
    ));
}

#[test]
fn test_zero_amount_rejected() {
    // Amounts are strictly positive: zero fails the amount check first,
    // even when later checks would also fail.
    let signing_key = SigningKey::from_bytes(&[1u8; 32]);
    let mut tx = create_signed_tx([1u8; 32], [2u8; 32], 0, 10, 1, &signing_key);
    let result = validate_transaction(&tx, 0, 1000);
    assert!(matches!(result, Err(ValidationError::InvalidAmount(0))));

    tx.fee = -1;
    let result = validate_transaction(&tx, 0, 1000);
    assert!(matches!(result, Err(ValidationError::InvalidAmount(0))));

    let result = validate_batch(&[tx], &[], &[]);
    assert!(matches!(result, Err(ValidationError::InvalidAmount(0))));
}
