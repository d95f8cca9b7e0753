use ed25519_dalek::Signer;
use ed25519_dalek::SigningKey;
use usda_ledger::errors::AppError;
use usda_ledger::state::transfer;
use usda_ledger::state::AppState;
use usda_ledger::state::TransferRequest;

fn mint_request(issuer: &SigningKey, to: [u8; 32], amount: i64) -> TransferRequest {
    // The canonical mint message: the receiver's address in hex, then the
    // amount in decimal.
    let msg = format!("{}{}", hex::encode(to), amount).into_bytes();
    let sig = issuer.sign(&msg);
    TransferRequest {
        from: None,
        to: hex::encode(to),
        amount,
        fee: 0,
        nonce: 0,
        signature: hex::encode(sig.to_bytes()),
    }
}

#[test]
fn test_mint() {
    let issuer = SigningKey::from_bytes(&[4u8; 32]);
    let recipient = [2u8; 32];
    let mut state = AppState::new();
    state.set_issuer_key(issuer.verifying_key().to_bytes());
    state.create_account(recipient).unwrap();

    let req = mint_request(&issuer, recipient, 100);
    let resp = transfer(&mut state, &req, "mint-1".to_string()).unwrap();
    assert_eq!(resp.status, "executed");

    let acct = state.get_account(recipient).unwrap().unwrap();
    assert_eq!(acct.balance, 100);
    assert_eq!(acct.pending_balance, 100);
}

#[test]
fn test_mint_invalid_signature() {
    let issuer = SigningKey::from_bytes(&[4u8; 32]);
    let someone_else = SigningKey::from_bytes(&[5u8; 32]);
    let recipient = [2u8; 32];
    let mut state = AppState::new();
    state.set_issuer_key(issuer.verifying_key().to_bytes());
    state.create_account(recipient).unwrap();

    // Signed by the wrong key.
    let req = mint_request(&someone_else, recipient, 100);
    let err = transfer(&mut state, &req, "mint-1".to_string()).unwrap_err();
    assert!(matches!(err, AppError::InvalidSignature(_)));
    assert_eq!(state.get_account(recipient).unwrap().unwrap().balance, 0);
}

#[test]
fn test_mint_without_issuer_key() {
    let issuer = SigningKey::from_bytes(&[4u8; 32]);
    let recipient = [2u8; 32];
    let mut state = AppState::new();
    let req = mint_request(&issuer, recipient, 100);
    let err = transfer(&mut state, &req, "mint-1".to_string()).unwrap_err();
    assert!(matches!(err, AppError::InvalidSignature(_)));
}
