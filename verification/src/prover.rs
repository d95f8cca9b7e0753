//! The prover driver's verified parts: the guest's batch accounting, the
//! committed-result codec, key-cache paths, and the driver's mode and
//! retry decisions. The proving system itself runs out of process; what
//! crosses the boundary is the byte strings this module describes.

use vstd::prelude::*;

use crate::codec::push_u64_le;
use crate::codec::read_u64_le;
use crate::codec::u64_le_seq;
use crate::codec::lemma_u64_le_inverse;
use crate::types::ProofStatus;
use crate::types::TransferProof;

verus! {

/// Cycles the guest accounts for each witness it consumes.
pub const CYCLES_PER_TRANSFER: u64 = 1000;

/// Proof attempts granted to a batch before it is marked failed.
pub const MAX_PROOF_RETRIES: u32 = 3;

/// What the guest commits for a batch.
#[derive(Debug, Clone, Copy, PartialEq, Eq, Structural)]
pub struct BatchResult {
    pub cycles_used: u64,
}

/// The guest's work on a batch of witnesses: a fixed cycle count for each
/// transfer consumed.
pub fn run_guest(witnesses: &Vec<TransferProof>) -> (r: BatchResult)
    requires
        witnesses@.len() <= u32::MAX,
    ensures
        r.cycles_used == witnesses@.len() * CYCLES_PER_TRANSFER,
{
    let n: u64 = witnesses.len() as u64;
    BatchResult { cycles_used: n * CYCLES_PER_TRANSFER }
}

/// The committed wire form of a batch result: the cycle count,
/// little-endian, eight bytes.
pub open spec fn batch_result_bytes(r: BatchResult) -> Seq<u8> {
    u64_le_seq(r.cycles_used)
}

/// Encodes the committed batch result.
pub fn encode_batch_result(r: &BatchResult) -> (out: Vec<u8>)
    ensures
        out@ == batch_result_bytes(*r),
{
    let mut out: Vec<u8> = Vec::new();
    push_u64_le(&mut out, r.cycles_used);
    proof {
        assert(out@ =~= batch_result_bytes(*r));
    }
    out
}

/// Decodes a committed batch result: exactly the eight-byte strings are
/// accepted, and re-encoding what was read gives the input back.
pub fn decode_batch_result(b: &[u8]) -> (r: Option<BatchResult>)
    ensures
        r is Some <==> b@.len() == 8,
        r matches Some(res) ==> batch_result_bytes(res) == b@,
{
    if b.len() != 8 {
        return None;
    }
    let cycles = read_u64_le(b, 0);
    proof {
        assert(b@.subrange(0, 8) =~= b@);
        lemma_u64_le_inverse(b@);
    }
    Some(BatchResult { cycles_used: cycles })
}

/// How the offline prover runs.
#[derive(Debug, Clone, Copy, PartialEq, Eq, Structural)]
pub enum ProverMode {
    /// Execute the guest and report cycles, no proof.
    Execute,
    /// Generate and verify a proof.
    Prove,
}

/// Picks the prover's mode from its two flags: exactly one must be set,
/// anything else is the misuse the driver exits nonzero on.
pub fn select_mode(execute: bool, prove: bool) -> (r: Option<ProverMode>)
    ensures
        execute && !prove ==> r == Some(ProverMode::Execute),
        prove && !execute ==> r == Some(ProverMode::Prove),
        execute == prove ==> r is None,
{
    if execute && !prove {
        Some(ProverMode::Execute)
    } else if prove && !execute {
        Some(ProverMode::Prove)
    } else {
        None
    }
}

/// The on-disk locations of the proving and verifying keys under a base
/// directory.
pub fn get_key_paths(base_dir: &str) -> (r: (String, String))
    ensures
        r.0@ == base_dir@ + "/proving_keys/usda_program.key"@,
        r.1@ == base_dir@ + "/proving_keys/usda_program.vk"@,
{
    let pk = String::from_str(base_dir).concat("/proving_keys/usda_program.key");
    let vk = String::from_str(base_dir).concat("/proving_keys/usda_program.vk");
    (pk, vk)
}

/// Where a batch's proving stands after a failed attempt: retried while
/// attempts remain, failed for good once they are exhausted.
pub fn proof_retry_status(failed_attempts: u32) -> (r: ProofStatus)
    ensures
        failed_attempts < MAX_PROOF_RETRIES ==> r == ProofStatus::Processing,
        failed_attempts >= MAX_PROOF_RETRIES ==> r == ProofStatus::Failed,
{
    if failed_attempts < MAX_PROOF_RETRIES {
        ProofStatus::Processing
    } else {
        ProofStatus::Failed
    }
}

} // verus!
