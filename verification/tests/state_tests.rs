use ed25519_dalek::Signer;
use ed25519_dalek::SigningKey;
use usda_ledger::crypto::compute_message;
use usda_ledger::errors::AppError;
use usda_ledger::state::transfer;
use usda_ledger::state::AppState;
use usda_ledger::state::SubscribeCommand;
use usda_ledger::state::TransferRequest;
use usda_ledger::types::Account;
use usda_ledger::types::TransferProof;
use usda_ledger::types::WebSocketUpdate;

fn seed_account(state: &mut AppState, address: [u8; 32], balance: i64, nonce: i64) {
    state.accounts.push(Account {
        address,
        balance,
        pending_balance: balance,
        nonce,
        created_at: 0,
    });
}

fn signed_request(
    sk: &SigningKey,
    to: [u8; 32],
    amount: i64,
    fee: i64,
    nonce: i64,
) -> TransferRequest {
    let from = sk.verifying_key().to_bytes();
    let witness = TransferProof {
        from_addr: from,
        to_addr: to,
        amount,
        fee,
        nonce,
        signature: [0u8; 64],
        public_key: from,
    };
    let msg = compute_message(&witness);
    let sig = sk.sign(&msg);
    TransferRequest {
        from: Some(hex::encode(from)),
        to: hex::encode(to),
        amount,
        fee,
        nonce,
        signature: hex::encode(sig.to_bytes()),
    }
}

fn balance_of(state: &AppState, address: [u8; 32]) -> i64 {
    match state.get_account(address).unwrap() {
        Some(a) => a.balance,
        None => 0,
    }
}

#[test]
fn test_single_transfer() {
    // Seed A=1000, B=0, both nonce 0; transfer 100 with fee 1.
    let sk = SigningKey::from_bytes(&[7u8; 32]);
    let a = sk.verifying_key().to_bytes();
    let b = [2u8; 32];
    let mut state = AppState::new();
    seed_account(&mut state, a, 1000, 0);
    seed_account(&mut state, b, 0, 0);

    let total_before: i64 = state.accounts.iter().map(|x| x.balance).sum();
    let req = signed_request(&sk, b, 100, 1, 0);
    let resp = transfer(&mut state, &req, "tx-1".to_string()).unwrap();
    assert_eq!(resp.status, "executed");

    let a_acct = state.get_account(a).unwrap().unwrap();
    assert_eq!(a_acct.balance, 899);
    assert_eq!(a_acct.nonce, 1);
    assert_eq!(balance_of(&state, b), 100);
    // The fee went to the collector, so supply is conserved.
    assert_eq!(balance_of(&state, state.fee_collector), 1);
    let total_after: i64 = state.accounts.iter().map(|x| x.balance).sum();
    assert_eq!(total_before, total_after);
    assert_eq!(state.transactions.len(), 1);
}

#[test]
fn test_transfer_insufficient_balance() {
    let sk = SigningKey::from_bytes(&[7u8; 32]);
    let a = sk.verifying_key().to_bytes();
    let b = [2u8; 32];
    let mut state = AppState::new();
    seed_account(&mut state, a, 50, 0);

    let req = signed_request(&sk, b, 100, 0, 0);
    let err = transfer(&mut state, &req, "tx-1".to_string()).unwrap_err();
    assert!(matches!(err, AppError::InsufficientBalance(_)));
    assert_eq!(err.status_code(), 400);
    // A unchanged.
    assert_eq!(balance_of(&state, a), 50);
    assert_eq!(state.transactions.len(), 0);
}

#[test]
fn test_transfer_zero_amount() {
    let sk = SigningKey::from_bytes(&[7u8; 32]);
    let b = [2u8; 32];
    let mut state = AppState::new();

    let mut req = signed_request(&sk, b, 1, 0, 0);
    req.amount = 0;
    let err = transfer(&mut state, &req, "tx-1".to_string()).unwrap_err();
    match err {
        AppError::InvalidInput(m) => assert!(m.contains("amount")),
        _ => panic!("Expected InvalidInput error"),
    }
}

#[test]
fn test_nonce_reuse_rejected() {
    // Two transfers carrying the same nonce: exactly one succeeds and the
    // sender's nonce advances by exactly one.
    let sk = SigningKey::from_bytes(&[7u8; 32]);
    let a = sk.verifying_key().to_bytes();
    let b = [2u8; 32];
    let c = [3u8; 32];
    let mut state = AppState::new();
    seed_account(&mut state, a, 1000, 0);

    let req_b = signed_request(&sk, b, 100, 0, 0);
    let req_c = signed_request(&sk, c, 100, 0, 0);
    assert!(transfer(&mut state, &req_b, "tx-1".to_string()).is_ok());
    let err = transfer(&mut state, &req_c, "tx-2".to_string()).unwrap_err();
    assert!(matches!(err, AppError::InvalidNonce(_)));
    assert_eq!(state.get_account(a).unwrap().unwrap().nonce, 1);
}

#[test]
fn test_transfer_tampered_amount_rejected() {
    let sk = SigningKey::from_bytes(&[7u8; 32]);
    let a = sk.verifying_key().to_bytes();
    let b = [2u8; 32];
    let mut state = AppState::new();
    seed_account(&mut state, a, 1000, 0);

    let mut req = signed_request(&sk, b, 100, 1, 0);
    req.amount = 200;
    let err = transfer(&mut state, &req, "tx-1".to_string()).unwrap_err();
    assert!(matches!(err, AppError::InvalidSignature(_)));
    assert_eq!(err.status_code(), 401);
    assert_eq!(balance_of(&state, a), 1000);
}

#[test]
fn test_unknown_sender_not_found() {
    let sk = SigningKey::from_bytes(&[9u8; 32]);
    let b = [2u8; 32];
    let mut state = AppState::new();
    let req = signed_request(&sk, b, 10, 0, 0);
    let err = transfer(&mut state, &req, "tx-1".to_string()).unwrap_err();
    assert!(matches!(err, AppError::NotFound(_)));
    assert_eq!(err.status_code(), 404);
}

#[test]
fn state_test_create_account() {
    let mut state = AppState::new();
    let address = [0u8; 32];
    let account = state.create_account(address).unwrap();
    assert_eq!(account.address, address);
    assert_eq!(account.balance, 0);
    assert_eq!(account.nonce, 0);
    // The unique key refuses a second insert.
    assert!(state.create_account(address).is_err());
}

#[test]
fn test_get_account() {
    let state = AppState::new();
    let address = [0u8; 32];
    let result = state.get_account(address).unwrap();
    assert!(result.is_none());
}

#[test]
fn test_issuer_key() {
    let mut state = AppState::new();

    // Initially no key.
    assert!(state.get_issuer_key().is_none());

    // Set key.
    let key = [0u8; 32];
    state.set_issuer_key(key);

    // Get key back.
    let retrieved_key = state.get_issuer_key().unwrap();
    assert_eq!(retrieved_key, key);
}

#[test]
fn test_get_balance() {
    let mut state = AppState::new();
    let address = [5u8; 32];
    assert!(state.get_balance(address).is_err());
    seed_account(&mut state, address, 1000, 0);
    let resp = state.get_balance(address).unwrap();
    assert_eq!(resp.balance, 1000);
    assert_eq!(resp.pending_balance, 1000);
}

#[test]
fn test_get_transactions_newest_first() {
    let sk = SigningKey::from_bytes(&[7u8; 32]);
    let a = sk.verifying_key().to_bytes();
    let b = [2u8; 32];
    let mut state = AppState::new();
    seed_account(&mut state, a, 1000, 0);

    let req1 = signed_request(&sk, b, 100, 0, 0);
    let req2 = signed_request(&sk, b, 50, 0, 1);
    transfer(&mut state, &req1, "tx-1".to_string()).unwrap();
    transfer(&mut state, &req2, "tx-2".to_string()).unwrap();

    let txs = state.get_transactions(a);
    assert_eq!(txs.len(), 2);
    assert_eq!(txs[0].tx_id, "tx-2");
    assert_eq!(txs[1].tx_id, "tx-1");
    assert!(txs[0].timestamp >= txs[1].timestamp);

    // The receiver sees the same two, an uninvolved address none.
    assert_eq!(state.get_transactions(b).len(), 2);
    assert_eq!(state.get_transactions([9u8; 32]).len(), 0);
}

#[test]
fn test_list_transactions() {
    let sk = SigningKey::from_bytes(&[7u8; 32]);
    let a = sk.verifying_key().to_bytes();
    let b = [2u8; 32];
    let mut state = AppState::new();
    seed_account(&mut state, a, 1000, 0);
    transfer(&mut state, &signed_request(&sk, b, 10, 0, 0), "tx-1".to_string()).unwrap();
    transfer(&mut state, &signed_request(&sk, b, 10, 0, 1), "tx-2".to_string()).unwrap();

    let listed = state.list_transactions();
    assert_eq!(listed.len(), 2);
    assert_eq!(listed[0].tx_id, "tx-2");
    assert_eq!(listed[0].status, "executed");
    assert_eq!(listed[1].tx_id, "tx-1");
}

#[test]
fn test_handle_subscribe_command() {
    let sk = SigningKey::from_bytes(&[7u8; 32]);
    let a = sk.verifying_key().to_bytes();
    let b = [2u8; 32];
    let mut state = AppState::new();
    seed_account(&mut state, a, 1000, 0);
    transfer(&mut state, &signed_request(&sk, b, 10, 0, 0), "tx-1".to_string()).unwrap();

    let cmd = SubscribeCommand {
        command: "subscribe_transaction".to_string(),
        tx_id: Some("tx-1".to_string()),
        batch_id: None,
    };
    match state.handle_subscribe_command(&cmd) {
        Some(WebSocketUpdate::Transaction(u)) => assert_eq!(u.tx_id, "tx-1"),
        _ => panic!("Expected a transaction snapshot"),
    }

    let missing = SubscribeCommand {
        command: "subscribe_transaction".to_string(),
        tx_id: Some("nope".to_string()),
        batch_id: None,
    };
    assert!(state.handle_subscribe_command(&missing).is_none());

    let unknown = SubscribeCommand {
        command: "something_else".to_string(),
        tx_id: Some("tx-1".to_string()),
        batch_id: None,
    };
    assert!(state.handle_subscribe_command(&unknown).is_none());
}

#[test]
fn test_transfer_rejects_bad_fee() {
    let sk = SigningKey::from_bytes(&[7u8; 32]);
    let b = [2u8; 32];
    let mut state = AppState::new();
    let mut req = signed_request(&sk, b, 10, 0, 0);
    req.fee = -1;
    let err = transfer(&mut state, &req, "tx-1".to_string()).unwrap_err();
    assert!(matches!(err, AppError::InvalidInput(_)));

    let mut req = signed_request(&sk, b, 10, 0, 0);
    req.fee = 1000001;
    let err = transfer(&mut state, &req, "tx-1".to_string()).unwrap_err();
    assert!(matches!(err, AppError::InvalidInput(_)));
}

#[test]
fn test_transfer_rejects_bad_addresses() {
    let sk = SigningKey::from_bytes(&[7u8; 32]);
    let b = [2u8; 32];
    let mut state = AppState::new();

    let mut req = signed_request(&sk, b, 10, 0, 0);
    req.from = Some("zz".to_string());
    match transfer(&mut state, &req, "tx-1".to_string()).unwrap_err() {
        AppError::InvalidInput(m) => assert_eq!(m, "Invalid from address"),
        _ => panic!("Expected InvalidInput"),
    }

    let mut req = signed_request(&sk, b, 10, 0, 0);
    req.from = Some("abcd".to_string());
    match transfer(&mut state, &req, "tx-1".to_string()).unwrap_err() {
        AppError::InvalidInput(m) => assert_eq!(m, "Invalid from address length"),
        _ => panic!("Expected InvalidInput"),
    }

    let mut req = signed_request(&sk, b, 10, 0, 0);
    req.signature = "beef".to_string();
    match transfer(&mut state, &req, "tx-1".to_string()).unwrap_err() {
        AppError::InvalidInput(m) => assert_eq!(m, "Invalid signature length"),
        _ => panic!("Expected InvalidInput"),
    }
}

#[test]
fn test_transfer_to_self_pays_only_the_fee() {
    let sk = SigningKey::from_bytes(&[7u8; 32]);
    let a = sk.verifying_key().to_bytes();
    let mut state = AppState::new();
    seed_account(&mut state, a, 1000, 0);

    let req = signed_request(&sk, a, 100, 3, 0);
    transfer(&mut state, &req, "tx-1".to_string()).unwrap();

    // Debited amount plus fee, credited the amount back: net minus fee.
    let acct = state.get_account(a).unwrap().unwrap();
    assert_eq!(acct.balance, 997);
    assert_eq!(acct.nonce, 1);
    assert_eq!(balance_of(&state, state.fee_collector), 3);
}

#[test]
fn test_list_proofs() {
    let mut state = AppState::new();
    state.proofs.push(usda_ledger::state::ProofRecord {
        batch_id: "batch-1".to_string(),
        status: usda_ledger::types::ProofStatus::Processing,
        error: None,
        num_transactions: 2,
        created_at: 0,
        updated_at: 0,
    });
    let listed = state.list_proofs();
    assert_eq!(listed.len(), 1);
    assert_eq!(listed[0].batch_id, "batch-1");
    assert_eq!(listed[0].status, "processing");
    assert!(listed[0].error.is_none());
}
