//! Core data model: transaction and proof statuses, accounts, transactions,
//! batches, and the lifecycle updates broadcast to subscribers.
//!
//! Timestamps are logical ticks (an `i64` assigned by the owning store), so
//! that every function over them is deterministic.

use vstd::prelude::*;

verus! {

/// Relies on `<str as PartialEq>::eq`: string slices compare equal exactly
/// when their character contents are equal.
#[verifier::external_body]
pub fn str_eq(a: &str, b: &str) -> (r: bool)
    ensures
        r == (a@ == b@),
{
    a == b
}

/// Lifecycle of a transaction: `Pending -> Processing -> (Executed | Failed)`,
/// monotonic; `Executed` and `Failed` are terminal.
#[derive(Debug, Clone, Copy, PartialEq, Eq, Structural)]
pub enum TransactionStatus {
    Pending,
    Processing,
    Executed,
    Failed,
}

impl TransactionStatus {
    /// Parses the lower-case wire name of a status; any other string is `None`.
    pub fn from_str(s: &str) -> (r: Option<TransactionStatus>)
        ensures
            s@ == "pending"@ ==> r == Some(TransactionStatus::Pending),
            s@ == "processing"@ ==> r == Some(TransactionStatus::Processing),
            s@ == "executed"@ ==> r == Some(TransactionStatus::Executed),
            s@ == "failed"@ ==> r == Some(TransactionStatus::Failed),
            r is Some ==> s@ == (#[trigger] r->0).as_str_spec(),
    {
        proof {
            reveal_strlit("pending");
            reveal_strlit("processing");
            reveal_strlit("executed");
            reveal_strlit("failed");
            // The four names have pairwise distinct lengths, so at most one
            // of the comparisons below can succeed.
            assert("pending"@.len() == 7);
            assert("processing"@.len() == 10);
            assert("executed"@.len() == 8);
            assert("failed"@.len() == 6);
        }
        if str_eq(s, "pending") {
            Some(TransactionStatus::Pending)
        } else if str_eq(s, "processing") {
            Some(TransactionStatus::Processing)
        } else if str_eq(s, "executed") {
            Some(TransactionStatus::Executed)
        } else if str_eq(s, "failed") {
            Some(TransactionStatus::Failed)
        } else {
            None
        }
    }

    /// The wire name of this status, as a mathematical sequence of characters.
    pub open spec fn as_str_spec(self) -> Seq<char> {
        match self {
            TransactionStatus::Pending => "pending"@,
            TransactionStatus::Processing => "processing"@,
            TransactionStatus::Executed => "executed"@,
            TransactionStatus::Failed => "failed"@,
        }
    }

    /// The lower-case wire name of this status.
    pub fn as_str(&self) -> (r: &'static str)
        ensures
            r@ == self.as_str_spec(),
    {
        match self {
            TransactionStatus::Pending => "pending",
            TransactionStatus::Processing => "processing",
            TransactionStatus::Executed => "executed",
            TransactionStatus::Failed => "failed",
        }
    }

    /// True exactly on the terminal statuses.
    pub fn is_final(&self) -> (r: bool)
        ensures
            r == (*self == TransactionStatus::Executed || *self == TransactionStatus::Failed),
    {
        matches!(self, TransactionStatus::Executed | TransactionStatus::Failed)
    }

    /// True exactly on the failed status.
    pub fn is_error(&self) -> (r: bool)
        ensures
            r == (*self == TransactionStatus::Failed),
    {
        matches!(self, TransactionStatus::Failed)
    }
}


/// Proving lifecycle of a batch: `Pending -> Processing -> (Generated | Failed)`.
#[derive(Debug, Clone, Copy, PartialEq, Eq, Structural)]
pub enum ProofStatus {
    Pending,
    Processing,
    Generated,
    Failed,
}

impl ProofStatus {
    /// The wire name of this status, as a mathematical sequence of characters.
    pub open spec fn as_str_spec(self) -> Seq<char> {
        match self {
            ProofStatus::Pending => "pending"@,
            ProofStatus::Processing => "processing"@,
            ProofStatus::Generated => "generated"@,
            ProofStatus::Failed => "failed"@,
        }
    }

    /// The lower-case wire name of this status.
    pub fn as_str(&self) -> (r: &'static str)
        ensures
            r@ == self.as_str_spec(),
    {
        match self {
            ProofStatus::Pending => "pending",
            ProofStatus::Processing => "processing",
            ProofStatus::Generated => "generated",
            ProofStatus::Failed => "failed",
        }
    }
}

/// A transfer instruction as recorded by the ledger. `from` is `None` for a
/// mint by the configured issuer. `timestamp` is the logical tick assigned
/// when the row was inserted.
#[derive(Debug, Clone)]
pub struct Transaction {
    pub tx_id: String,
    pub from: Option<[u8; 32]>,
    pub to: [u8; 32],
    pub amount: i64,
    pub fee: i64,
    pub nonce: i64,
    pub signature: [u8; 64],
    pub timestamp: i64,
    pub status: TransactionStatus,
}

/// An account at rest: balances are non-negative and the nonce counts the
/// transfers executed from this address. `created_at` is the logical tick of
/// insertion and never changes afterwards.
#[derive(Debug, Clone, Copy)]
pub struct Account {
    pub address: [u8; 32],
    pub balance: i64,
    pub pending_balance: i64,
    pub nonce: i64,
    pub created_at: i64,
}

/// A proved batch: the ordered transfers it covers and the proof bytes.
#[derive(Debug, Clone)]
pub struct BatchProof {
    pub batch_id: String,
    pub transactions: Vec<String>,
    pub proof_data: Vec<u8>,
    pub timestamp: i64,
}

/// Outcome of handing a batch to the proving pipeline.
#[derive(Debug, Clone)]
pub struct BatchResult {
    pub success: bool,
    pub error: Option<String>,
}

/// Push messages for balance-level subscribers.
#[derive(Debug, Clone)]
pub enum WebSocketMessage {
    TransactionPreconfirmed(Transaction),
    TransactionProven(Transaction),
    BalanceUpdated { address: [u8; 32], balance: i64 },
}

/// A lifecycle update broadcast to subscribers.
#[derive(Debug, Clone)]
pub enum WebSocketUpdate {
    Transaction(TransactionUpdate),
    Proof(ProofUpdate),
}

/// Status change of one transaction.
#[derive(Debug, Clone)]
pub struct TransactionUpdate {
    pub tx_id: String,
    pub status: TransactionStatus,
    pub message: Option<String>,
}

/// Status change of one batch proof.
#[derive(Debug, Clone)]
pub struct ProofUpdate {
    pub proof_id: String,
    pub status: ProofStatus,
    pub message: Option<String>,
    pub num_transactions: i64,
}

/// The witness for one transfer as presented to the proving program:
/// exactly the fields that the guest re-checks.
#[derive(Debug, Clone, Copy)]
pub struct TransferProof {
    pub from_addr: [u8; 32],
    pub to_addr: [u8; 32],
    pub amount: i64,
    pub fee: i64,
    pub nonce: i64,
    pub signature: [u8; 64],
    pub public_key: [u8; 32],
}

} // verus!
