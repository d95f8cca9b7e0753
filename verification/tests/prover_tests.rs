use usda_ledger::prover::get_key_paths;
use usda_ledger::prover::run_guest;
use usda_ledger::prover::select_mode;
use usda_ledger::prover::ProverMode;
use usda_ledger::types::TransferProof;

fn witness(nonce: i64) -> TransferProof {
    TransferProof {
        from_addr: [1u8; 32],
        to_addr: [2u8; 32],
        amount: 100,
        fee: 10,
        nonce,
        signature: [0u8; 64],
        public_key: [1u8; 32],
    }
}

#[test]
fn test_batch_verification() {
    // The guest consumes each witness and accounts a fixed cycle cost.
    let proofs = vec![witness(0), witness(1)];
    let result = run_guest(&proofs);
    assert_eq!(result.cycles_used, 2000);
}

#[test]
fn test_select_mode() {
    assert_eq!(select_mode(true, false), Some(ProverMode::Execute));
    assert_eq!(select_mode(false, true), Some(ProverMode::Prove));
    // Both or neither flag is the misuse the driver exits nonzero on.
    assert_eq!(select_mode(true, true), None);
    assert_eq!(select_mode(false, false), None);
}

#[test]
fn test_get_key_paths() {
    let (pk, vk) = get_key_paths("/srv/prover");
    assert_eq!(pk, "/srv/prover/proving_keys/usda_program.key");
    assert_eq!(vk, "/srv/prover/proving_keys/usda_program.vk");
}
