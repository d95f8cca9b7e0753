use ed25519_dalek::Signer;
use ed25519_dalek::SigningKey;
use usda_ledger::batch::BatchProcessor;
use usda_ledger::crypto::compute_message;
use usda_ledger::state::transfer;
use usda_ledger::state::AppState;
use usda_ledger::state::TransferRequest;
use usda_ledger::types::Account;
use usda_ledger::types::ProofStatus;
use usda_ledger::types::TransferProof;

fn executed_transfer(state: &mut AppState, sk: &SigningKey, nonce: i64, tx_id: &str) {
    let from = sk.verifying_key().to_bytes();
    let to = [2u8; 32];
    let witness = TransferProof {
        from_addr: from,
        to_addr: to,
        amount: 10,
        fee: 0,
        nonce,
        signature: [0u8; 64],
        public_key: from,
    };
    let msg = compute_message(&witness);
    let sig = sk.sign(&msg);
    let req = TransferRequest {
        from: Some(hex::encode(from)),
        to: hex::encode(to),
        amount: 10,
        fee: 0,
        nonce,
        signature: hex::encode(sig.to_bytes()),
    };
    transfer(state, &req, tx_id.to_string()).unwrap();
}

#[test]
fn test_batch_processing() {
    let sk = SigningKey::from_bytes(&[7u8; 32]);
    let a = sk.verifying_key().to_bytes();
    let mut state = AppState::new();
    state.accounts.push(Account {
        address: a,
        balance: 1000,
        pending_balance: 1000,
        nonce: 0,
        created_at: 0,
    });
    executed_transfer(&mut state, &sk, 0, "tx-1");
    executed_transfer(&mut state, &sk, 1, "tx-2");

    let processor = BatchProcessor::new();
    let result = processor
        .process_batch(&mut state, "batch-1".to_string())
        .unwrap();
    assert!(result);

    // Both transfers are bound to the batch and the proof row records it.
    assert_eq!(state.assigned.len(), 2);
    assert_eq!(state.assigned[0].0, "tx-1");
    assert_eq!(state.assigned[1].0, "tx-2");
    assert_eq!(state.proofs.len(), 1);
    assert_eq!(state.proofs[0].batch_id, "batch-1");
    assert_eq!(state.proofs[0].status, ProofStatus::Processing);
    assert_eq!(state.proofs[0].num_transactions, 2);

    // A second tick finds nothing new to assemble.
    let again = processor
        .process_batch(&mut state, "batch-2".to_string())
        .unwrap();
    assert!(!again);
    assert_eq!(state.proofs.len(), 1);
}
