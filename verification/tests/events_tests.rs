use usda_ledger::events::publish_proof_update;
use usda_ledger::events::publish_transaction_update;
use usda_ledger::events::EventBus;
use usda_ledger::events::RecvOutcome;
use usda_ledger::types::ProofStatus;
use usda_ledger::types::TransactionStatus;
use usda_ledger::types::WebSocketUpdate;

#[test]
fn test_publish_transaction_update() {
    let mut bus = EventBus::new(100);
    let sub = bus.subscribe();

    let tx_id = "tx-1".to_string();
    let status = TransactionStatus::Processing;
    let message = Some("Test message".to_string());

    publish_transaction_update(&mut bus, tx_id.clone(), status, message.clone()).unwrap();

    match bus.recv(sub) {
        RecvOutcome::Update(WebSocketUpdate::Transaction(update)) => {
            assert_eq!(update.tx_id, tx_id);
            assert_eq!(update.status, status);
            assert_eq!(update.message, message);
        }
        _ => panic!("Expected transaction update"),
    }
}

#[test]
fn test_publish_proof_update() {
    let mut bus = EventBus::new(100);
    let sub = bus.subscribe();

    let proof_id = "batch-1".to_string();
    let status = ProofStatus::Processing;
    let message = Some("Test message".to_string());
    let num_transactions = 10;

    publish_proof_update(&mut bus, proof_id.clone(), status, message.clone(), num_transactions)
        .unwrap();

    match bus.recv(sub) {
        RecvOutcome::Update(WebSocketUpdate::Proof(update)) => {
            assert_eq!(update.proof_id, proof_id);
            assert_eq!(update.status, status);
            assert_eq!(update.message, message);
            assert_eq!(update.num_transactions, num_transactions);
        }
        _ => panic!("Expected proof update"),
    }
}

#[test]
fn test_publish_without_subscribers_is_refused() {
    let mut bus = EventBus::new(100);
    let r = publish_transaction_update(
        &mut bus,
        "tx-1".to_string(),
        TransactionStatus::Executed,
        None,
    );
    assert!(r.is_err());
}

#[test]
fn test_drop_oldest_and_lagged_signal() {
    let mut bus = EventBus::new(2);
    let sub = bus.subscribe();

    for k in 0..3 {
        publish_transaction_update(
            &mut bus,
            format!("tx-{}", k),
            TransactionStatus::Executed,
            None,
        )
        .unwrap();
    }

    // The slow subscriber learns it lagged, then reads the two newest.
    assert!(matches!(bus.recv(sub), RecvOutcome::Lagged));
    match bus.recv(sub) {
        RecvOutcome::Update(WebSocketUpdate::Transaction(u)) => assert_eq!(u.tx_id, "tx-1"),
        _ => panic!("Expected tx-1"),
    }
    match bus.recv(sub) {
        RecvOutcome::Update(WebSocketUpdate::Transaction(u)) => assert_eq!(u.tx_id, "tx-2"),
        _ => panic!("Expected tx-2"),
    }
    assert!(matches!(bus.recv(sub), RecvOutcome::Empty));
}

#[test]
fn test_subscribers_see_only_later_updates() {
    let mut bus = EventBus::new(100);
    let early = bus.subscribe();
    publish_transaction_update(&mut bus, "a".to_string(), TransactionStatus::Executed, None)
        .unwrap();
    let late = bus.subscribe();
    assert!(matches!(bus.recv(late), RecvOutcome::Empty));
    assert!(matches!(bus.recv(early), RecvOutcome::Update(_)));
}
