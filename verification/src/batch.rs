//! Batch assembly: draining executed transfers into bounded batches.
//!
//! A periodic tick selects the oldest executed transactions not yet bound
//! to a batch - at most `MAX_BATCH_SIZE` of them, in ledger order - binds
//! them to a fresh batch id, records the batch's proof row, and announces
//! it. The binding is recorded in a join table and an assembled batch's
//! order is frozen: nothing here ever rebinds or reorders a transaction.

use vstd::prelude::*;

use crate::errors::AppError;
use crate::events::published_queues;
use crate::state::AppState;
use crate::state::ProofRecord;
use crate::types::ProofStatus;
use crate::types::ProofUpdate;
use crate::types::Transaction;
use crate::types::TransactionStatus;
use crate::types::WebSocketUpdate;
use crate::validation::MAX_BATCH_SIZE;

verus! {

/// Whether a transaction is already bound to some batch.
pub open spec fn is_assigned(assigned: Seq<(String, String)>, tx_id: Seq<char>) -> bool {
    exists|k: int| 0 <= k < assigned.len() && (#[trigger] assigned[k]).0@ == tx_id
}

/// Whether a transaction is ready for assembly: executed and not yet
/// bound.
pub open spec fn eligible(t: Transaction, assigned: Seq<(String, String)>) -> bool {
    t.status == TransactionStatus::Executed && !is_assigned(assigned, t.tx_id@)
}

/// The transactions ready for assembly, in ledger order.
pub open spec fn eligible_list(
    txs: Seq<Transaction>,
    assigned: Seq<(String, String)>,
) -> Seq<Transaction>
    decreases txs.len(),
{
    if txs.len() == 0 {
        Seq::empty()
    } else {
        (if eligible(txs[0], assigned) {
            seq![txs[0]]
        } else {
            Seq::empty()
        }) + eligible_list(txs.subrange(1, txs.len() as int), assigned)
    }
}

/// Assembles batches out of executed transfers on a fixed tick.
pub struct BatchProcessor {
}

impl BatchProcessor {
    /// A processor; the store and the fan-out live in the state it is
    /// handed each tick.
    pub fn new() -> (r: BatchProcessor) {
        BatchProcessor {  }
    }

    /// One assembly tick: binds the oldest executed, unbound transactions
    /// - at most the batch cap, in ledger order - to the given batch id,
    /// records the batch's proof row as processing, and announces it.
    /// With nothing to assemble, reports `false` and changes nothing.
    pub fn process_batch(&self, state: &mut AppState, batch_id: String) -> (r: Result<
        bool,
        AppError,
    >)
        requires
            old(state).wf(),
        ensures
            final(state).wf(),
            ({
                let sel = eligible_list(old(state).transactions@, old(state).assigned@);
                let take = if sel.len() < MAX_BATCH_SIZE {
                    sel.len() as int
                } else {
                    MAX_BATCH_SIZE as int
                };
                if sel.len() == 0 {
                    r == Result::<bool, AppError>::Ok(false) && *final(state) == *old(state)
                } else {
                    &&& r == Result::<bool, AppError>::Ok(true)
                    &&& final(state).accounts@ == old(state).accounts@
                    &&& final(state).transactions@ == old(state).transactions@
                    &&& final(state).assigned@.len() == old(state).assigned@.len() + take
                    &&& final(state).assigned@.subrange(0, old(state).assigned@.len() as int)
                        == old(state).assigned@
                    &&& forall|k: int|
                        0 <= k < take ==> (#[trigger] final(state).assigned@[old(
                            state,
                        ).assigned@.len() + k]).0@ == sel[k].tx_id@ && final(state).assigned@[old(
                            state,
                        ).assigned@.len() + k].1@ == batch_id@
                    &&& final(state).proofs@.len() == old(state).proofs@.len() + 1
                    &&& final(state).proofs@.drop_last() == old(state).proofs@
                    &&& ({
                        let row = final(state).proofs@.last();
                        &&& row.batch_id@ == batch_id@
                        &&& row.status == ProofStatus::Processing
                        &&& row.error is None
                        &&& row.num_transactions == take
                    })
                    &&& final(state).bus.queues_spec() == published_queues(
                        old(state).bus.queues_spec(),
                        old(state).bus.capacity_spec(),
                        WebSocketUpdate::Proof(
                            ProofUpdate {
                                proof_id: batch_id,
                                status: ProofStatus::Processing,
                                message: None,
                                num_transactions: take as i64,
                            },
                        ),
                    )
                }
            }),
    {
        let n: usize = state.transactions.len();
        let ghost sel = eligible_list(state.transactions@, state.assigned@);
        let ghost pre_assigned = state.assigned@;
        let ghost pre_txs = state.transactions@;
        // Find the ids to bind, oldest first, up to the cap.
        let mut picked: Vec<String> = Vec::new();
        let mut i: usize = 0;
        proof {
            assert(pre_txs.subrange(0, 0) =~= Seq::<Transaction>::empty());
            assert(eligible_list(Seq::<Transaction>::empty(), pre_assigned)
                =~= Seq::<Transaction>::empty());
        }
        while i < n && picked.len() < MAX_BATCH_SIZE
            invariant
                i <= n,
                n == state.transactions@.len(),
                pre_txs == state.transactions@,
                pre_assigned == state.assigned@,
                sel == eligible_list(pre_txs, pre_assigned),
                picked@.len() <= MAX_BATCH_SIZE,
                picked@.len() <= eligible_list(pre_txs.subrange(0, i as int), pre_assigned).len(),
                eligible_list(pre_txs.subrange(0, i as int), pre_assigned).len() <= sel.len(),
                forall|k: int|
                    0 <= k < picked@.len() ==> (#[trigger] picked@[k])@ == eligible_list(
                        pre_txs.subrange(0, i as int),
                        pre_assigned,
                    )[k].tx_id@,
                picked@.len() < MAX_BATCH_SIZE ==> picked@.len() == eligible_list(
                    pre_txs.subrange(0, i as int),
                    pre_assigned,
                ).len(),
                picked@.len() == if eligible_list(pre_txs.subrange(0, i as int), pre_assigned).len()
                    < MAX_BATCH_SIZE {
                    eligible_list(pre_txs.subrange(0, i as int), pre_assigned).len() as int
                } else {
                    MAX_BATCH_SIZE as int
                },
            decreases n - i,
        {
            let t = &state.transactions[i];
            let already = is_assigned_exec(&state.assigned, &t.tx_id);
            let is_exec = t.status == TransactionStatus::Executed;
            proof {
                lemma_eligible_snoc(pre_txs, pre_assigned, i as int);
                lemma_eligible_prefix(pre_txs, pre_assigned, i as int + 1);
            }
            if is_exec && !already {
                picked.push(t.tx_id.clone());
            }
            i = i + 1;
        }
        proof {
            if i == n {
                assert(pre_txs.subrange(0, n as int) =~= pre_txs);
            } else {
                // Stopped at the cap: the prefix already held enough.
                lemma_eligible_prefix(pre_txs, pre_assigned, i as int);
            }
        }
        if picked.len() == 0 {
            return Ok(false);
        }
        let count: usize = picked.len();
        // Bind the picked transactions to this batch.
        let mut k: usize = 0;
        while k < count
            invariant
                k <= count,
                count == picked@.len(),
                pre_txs == state.transactions@,
                state.accounts@ == old(state).accounts@,
                state.proofs@ == old(state).proofs@,
                state.bus == old(state).bus,
                state.clock == old(state).clock,
                state.issuer_spec() == old(state).issuer_spec(),
                state.fee_collector == old(state).fee_collector,
                state.assigned@.len() == pre_assigned.len() + k,
                state.assigned@.subrange(0, pre_assigned.len() as int) == pre_assigned,
                forall|j: int|
                    0 <= j < k ==> (#[trigger] state.assigned@[pre_assigned.len() + j]).0@
                        == picked@[j]@ && state.assigned@[pre_assigned.len() + j].1@ == batch_id@,
            decreases count - k,
        {
            let pair = (picked[k].clone(), batch_id.clone());
            proof {
                assert(state.assigned@.push(pair).subrange(0, pre_assigned.len() as int)
                    =~= state.assigned@.subrange(0, pre_assigned.len() as int));
            }
            state.assigned.push(pair);
            k = k + 1;
        }
        let now: i64 = state.clock;
        let row = ProofRecord {
            batch_id: batch_id.clone(),
            status: ProofStatus::Processing,
            error: None,
            num_transactions: count as i64,
            created_at: now,
            updated_at: now,
        };
        proof {
            assert(state.proofs@.push(row).drop_last() =~= state.proofs@);
        }
        state.proofs.push(row);
        let update = WebSocketUpdate::Proof(
            ProofUpdate {
                proof_id: batch_id,
                status: ProofStatus::Processing,
                message: None,
                num_transactions: count as i64,
            },
        );
        state.bus.publish(&update);
        Ok(true)
    }
}

/// Whether a transaction id is bound already.
fn is_assigned_exec(assigned: &Vec<(String, String)>, tx_id: &String) -> (r: bool)
    ensures
        r == is_assigned(assigned@, tx_id@),
{
    let n: usize = assigned.len();
    let mut i: usize = 0;
    while i < n
        invariant
            i <= n,
            n == assigned@.len(),
            forall|j: int| 0 <= j < i ==> (#[trigger] assigned@[j]).0@ != tx_id@,
        decreases n - i,
    {
        if assigned[i].0 == *tx_id {
            return true;
        }
        i = i + 1;
    }
    false
}

/// How the eligible list grows when one more transaction is considered.
proof fn lemma_eligible_snoc(txs: Seq<Transaction>, assigned: Seq<(String, String)>, i: int)
    requires
        0 <= i < txs.len(),
    ensures
        eligible_list(txs.subrange(0, i + 1), assigned) == eligible_list(
            txs.subrange(0, i),
            assigned,
        ) + (if eligible(txs[i], assigned) {
            seq![txs[i]]
        } else {
            Seq::<Transaction>::empty()
        }),
    decreases i,
{
    let a = txs.subrange(0, i + 1);
    let b = txs.subrange(0, i);
    if i == 0 {
        assert(a.subrange(1, 1) =~= Seq::<Transaction>::empty());
        assert(eligible_list(Seq::<Transaction>::empty(), assigned)
            =~= Seq::<Transaction>::empty());
        assert(eligible_list(a, assigned) =~= eligible_list(b, assigned) + (if eligible(
            txs[0],
            assigned,
        ) {
            seq![txs[0]]
        } else {
            Seq::<Transaction>::empty()
        }));
    } else {
        let txs1 = txs.subrange(1, txs.len() as int);
        assert(a.subrange(1, a.len() as int) =~= txs1.subrange(0, i));
        assert(b.subrange(1, b.len() as int) =~= txs1.subrange(0, i - 1));
        assert(a[0] == txs[0] && b[0] == txs[0]);
        lemma_eligible_snoc(txs1, assigned, i - 1);
        assert(txs1[i - 1] == txs[i]);
        assert(eligible_list(a, assigned) =~= eligible_list(b, assigned) + (if eligible(
            txs[i],
            assigned,
        ) {
            seq![txs[i]]
        } else {
            Seq::<Transaction>::empty()
        }));
    }
}

/// A prefix of the ledger contributes a prefix of the eligible list.
proof fn lemma_eligible_prefix(txs: Seq<Transaction>, assigned: Seq<(String, String)>, i: int)
    requires
        0 <= i <= txs.len(),
    ensures
        eligible_list(txs.subrange(0, i), assigned).len() <= eligible_list(txs, assigned).len(),
        forall|k: int|
            0 <= k < eligible_list(txs.subrange(0, i), assigned).len() ==> #[trigger] eligible_list(
                txs,
                assigned,
            )[k] == eligible_list(txs.subrange(0, i), assigned)[k],
    decreases txs.len() - i,
{
    if i == txs.len() {
        assert(txs.subrange(0, i) =~= txs);
    } else {
        lemma_eligible_snoc(txs, assigned, i);
        lemma_eligible_prefix(txs, assigned, i + 1);
    }
}

} // verus!
