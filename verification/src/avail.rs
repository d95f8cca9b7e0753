//! The data-availability client facade's decisions.
//!
//! Submission itself is a chain RPC and lives at the process edge; what is
//! verified here is what the facade decides between the calls: when a
//! submission is considered verified, and how the polling loop reads each
//! sampled status while waiting with progress reports.

use vstd::prelude::*;

use crate::codec::BatchError;
use crate::das::clone_verification_status;
use crate::das::progress_of;
use crate::das::DASError;
use crate::das::VerificationStatus;
use crate::finality::FinalityConfig;
use crate::finality::FinalityError;

verus! {

/// Configuration of the chain client: where to connect, which key signs
/// submissions (as a key URI resolved at the process edge), how finality
/// is tracked, and where the light client lives.
#[derive(Debug, Clone)]
pub struct AvailConfig {
    pub endpoint: String,
    pub key_uri: String,
    pub finality: FinalityConfig,
    pub light_client_path: String,
}

impl Default for AvailConfig {
    /// A local development node, its well-known dev key, default finality
    /// tracking, and the usual light-client binary.
    fn default() -> (r: AvailConfig)
        ensures
            r.endpoint@ == "ws://127.0.0.1:9944"@,
            r.key_uri@ == "//Alice"@,
            r.finality.finality_timeout_ms == 60000,
            r.finality.finality_depth == 20,
            r.finality.max_tracked_blocks == 1000,
            r.light_client_path@ == "/usr/local/bin/avail-light"@,
    {
        AvailConfig {
            endpoint: String::from_str("ws://127.0.0.1:9944"),
            key_uri: String::from_str("//Alice"),
            finality: FinalityConfig::default(),
            light_client_path: String::from_str("/usr/local/bin/avail-light"),
        }
    }
}

/// Why a submission to the chain failed.
#[derive(Debug, Clone)]
pub enum AvailError {
    ConnectionError(String),
    SubmissionError(String),
    BlockError(String),
    BatchError(BatchError),
    FinalityError(FinalityError),
    DASError(DASError),
}

/// The final word on a submitted batch once its block is final: the block
/// hash iff sampling verified it; a failed sampling surfaces its reason;
/// anything short of terminal is not yet a verdict.
pub fn verification_outcome(status: &VerificationStatus, block_hash: String) -> (r: Result<
    String,
    AvailError,
>)
    ensures
        status is Verified ==> (r matches Ok(h) && h@ == block_hash@),
        status matches VerificationStatus::Failed(m) ==> (r matches Err(e) && (e matches
            AvailError::DASError(d) && (d matches DASError::VerificationError(vm) && vm@ == m@))),
        !(status is Verified) && !(status is Failed) ==> (r matches Err(e) && (e matches
            AvailError::DASError(d) && (d matches DASError::VerificationError(vm) && vm@
                == "verification not complete"@))),
{
    match status {
        VerificationStatus::Verified { .. } => Ok(block_hash),
        VerificationStatus::Failed(m) => Err(
            AvailError::DASError(DASError::VerificationError(m.clone())),
        ),
        _ => Err(
            AvailError::DASError(
                DASError::VerificationError(String::from_str("verification not complete")),
            ),
        ),
    }
}

/// One step of the progress-polling wait.
#[derive(Debug, Clone)]
pub enum PollStep {
    /// Verified: done, report full progress.
    Done,
    /// Failed, with the sampler's reason.
    Fail(String),
    /// Still sampling: report the progress and poll again.
    Continue(u32),
}

/// Reads one polled status while waiting with progress reports: the
/// caller pumps `progress_of` the status to its sink each round - at
/// least once, starting from zero - and stops on a terminal status.
pub fn das_poll_step(status: &VerificationStatus) -> (r: PollStep)
    ensures
        status is Verified ==> r is Done,
        status matches VerificationStatus::Failed(m) ==> (r matches PollStep::Fail(fm) && fm@
            == m@),
        !(status is Verified) && !(status is Failed) ==> r == PollStep::Continue(
            progress_of(*status),
        ),
{
    match status {
        VerificationStatus::Verified { .. } => PollStep::Done,
        VerificationStatus::Failed(m) => PollStep::Fail(m.clone()),
        VerificationStatus::Pending => PollStep::Continue(0),
        VerificationStatus::InProgress { progress_ppm, .. } => PollStep::Continue(*progress_ppm),
    }
}

} // verus!
