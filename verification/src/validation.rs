//! Stateless per-transfer checks and the stateful batch pre-flight.
//!
//! A single transfer is checked in a fixed order: amount range, fee range,
//! nonce succession, balance sufficiency, then the Ed25519 signature over
//! the canonical message. The batch pre-flight replays a proposed batch
//! sequentially against initial per-sender nonce and balance snapshots; it
//! is deterministic and mirrors exactly the mathematical simulation
//! `spec_batch_validate` below.

use vstd::prelude::*;

use crate::crypto::transfer_signature_ok;
use crate::crypto::verify_transfer_signature;
use crate::types::TransferProof;

verus! {

/// Most transfers a batch may hold.
pub const MAX_BATCH_SIZE: usize = 100;

/// Smallest acceptable transfer amount: amounts are strictly positive.
pub const MIN_AMOUNT: i64 = 1;

/// Largest acceptable transfer amount.
pub const MAX_AMOUNT: i64 = i64::MAX;

/// Smallest acceptable fee.
pub const MIN_FEE: i64 = 0;

/// Largest acceptable fee.
pub const MAX_FEE: i64 = 1000000;

/// Why a transfer or a batch is rejected.
#[derive(Debug, Clone, Copy, PartialEq, Eq, Structural)]
pub enum ValidationError {
    InvalidSignature,
    InvalidAmount(i64),
    InvalidFee(i64),
    InvalidNonce(i64),
    InvalidBatchSize(usize),
    /// Required amount, then available balance.
    InsufficientBalance(i64, i64),
}

/// Clamps a mathematical integer into the signed 64-bit range, for error
/// payloads whose true value may exceed it.
pub open spec fn sat_i64(v: int) -> i64 {
    if v > i64::MAX {
        i64::MAX
    } else if v < i64::MIN {
        i64::MIN
    } else {
        v as i64
    }
}

/// The outcome of checking one transfer against a sender nonce and balance:
/// `None` when it passes, otherwise the first failing check in order.
pub open spec fn spec_tx_error(tx: TransferProof, current_nonce: int, balance: int) -> Option<
    ValidationError,
> {
    if tx.amount < MIN_AMOUNT || tx.amount > MAX_AMOUNT {
        Some(ValidationError::InvalidAmount(tx.amount))
    } else if tx.fee < MIN_FEE || tx.fee > MAX_FEE {
        Some(ValidationError::InvalidFee(tx.fee))
    } else if tx.nonce != current_nonce + 1 {
        Some(ValidationError::InvalidNonce(tx.nonce))
    } else if tx.amount + tx.fee > balance {
        Some(
            ValidationError::InsufficientBalance(sat_i64(tx.amount + tx.fee), sat_i64(balance)),
        )
    } else if !transfer_signature_ok(tx) {
        Some(ValidationError::InvalidSignature)
    } else {
        None
    }
}

/// Validates a single transfer against the sender's current nonce and
/// balance: range checks, nonce succession, balance sufficiency, then the
/// signature over the canonical message.
pub fn validate_transaction(tx: &TransferProof, current_nonce: i64, balance: i64) -> (r: Result<
    (),
    ValidationError,
>)
    ensures
        match spec_tx_error(*tx, current_nonce as int, balance as int) {
            None => r is Ok,
            Some(e) => r == Result::<(), ValidationError>::Err(e),
        },
{
    if tx.amount < MIN_AMOUNT || tx.amount > MAX_AMOUNT {
        return Err(ValidationError::InvalidAmount(tx.amount));
    }
    if tx.fee < MIN_FEE || tx.fee > MAX_FEE {
        return Err(ValidationError::InvalidFee(tx.fee));
    }
    if (tx.nonce as i128) != (current_nonce as i128) + 1 {
        return Err(ValidationError::InvalidNonce(tx.nonce));
    }
    let required: i128 = (tx.amount as i128) + (tx.fee as i128);
    if required > (balance as i128) {
        let req_sat: i64 = if required > (i64::MAX as i128) {
            i64::MAX
        } else {
            required as i64
        };
        return Err(ValidationError::InsufficientBalance(req_sat, balance));
    }
    if !verify_transfer_signature(tx) {
        return Err(ValidationError::InvalidSignature);
    }
    Ok(())
}


/// Copies a byte key.
fn clone_key(v: &Vec<u8>) -> (r: Vec<u8>)
    ensures
        r@ == v@,
{
    let n: usize = v.len();
    let mut r: Vec<u8> = Vec::new();
    let mut i: usize = 0;
    while i < n
        invariant
            i <= n,
            n == v@.len(),
            r@.len() == i,
            forall|j: int| 0 <= j < i ==> r@[j] == v@[j],
        decreases n - i,
    {
        r.push(v[i]);
        i = i + 1;
    }
    proof {
        assert(r@ =~= v@);
    }
    r
}

/// Turns an address into an owned map key.
fn addr_key(a: &[u8; 32]) -> (r: Vec<u8>)
    ensures
        r@ == a@,
{
    let mut r: Vec<u8> = Vec::new();
    r.extend_from_slice(a.as_slice());
    proof {
        assert(r@ =~= a@);
    }
    r
}

/// The sender-nonce snapshot held by an association list; a later entry for
/// the same key overrides an earlier one.
pub open spec fn nonce_map(s: Seq<(Vec<u8>, i64)>) -> Map<Seq<u8>, i64>
    decreases s.len(),
{
    if s.len() == 0 {
        Map::empty()
    } else {
        nonce_map(s.drop_last()).insert(s.last().0@, s.last().1)
    }
}

/// The sender-balance snapshot held by an association list, as mathematical
/// integers; a later entry for the same key overrides an earlier one.
pub open spec fn balance_map(s: Seq<(Vec<u8>, i64)>) -> Map<Seq<u8>, int>
    decreases s.len(),
{
    if s.len() == 0 {
        Map::empty()
    } else {
        balance_map(s.drop_last()).insert(s.last().0@, s.last().1 as int)
    }
}

/// The balance snapshot held by the wide working list used during the
/// simulation.
pub open spec fn balance_map_wide(s: Seq<(Vec<u8>, i128)>) -> Map<Seq<u8>, int>
    decreases s.len(),
{
    if s.len() == 0 {
        Map::empty()
    } else {
        balance_map_wide(s.drop_last()).insert(s.last().0@, s.last().1 as int)
    }
}

/// Every balance in the map lies within `b` of zero.
pub open spec fn balances_bounded(m: Map<Seq<u8>, int>, b: int) -> bool {
    forall|k: Seq<u8>| m.contains_key(k) ==> -b <= #[trigger] m[k] <= b
}

/// The batch simulation of the pre-flight check: replay the transfers in
/// order against the running nonce and balance snapshots, stopping at the
/// first failing transfer. Missing senders start at nonce -1 and balance 0;
/// a transfer debits its sender by amount plus fee and credits its receiver
/// by the amount.
pub open spec fn spec_batch_validate(
    txs: Seq<TransferProof>,
    nonces: Map<Seq<u8>, i64>,
    balances: Map<Seq<u8>, int>,
) -> Option<ValidationError>
    decreases txs.len(),
{
    if txs.len() == 0 {
        None
    } else {
        let tx = txs[0];
        let fk = tx.from_addr@;
        let tk = tx.to_addr@;
        let cur: int = if nonces.contains_key(fk) {
            nonces[fk] as int
        } else {
            -1
        };
        let bal: int = if balances.contains_key(fk) {
            balances[fk]
        } else {
            0
        };
        match spec_tx_error(tx, cur, bal) {
            Some(e) => Some(e),
            None => {
                let n2 = nonces.insert(fk, tx.nonce);
                let b1 = balances.insert(fk, bal - tx.amount - tx.fee);
                let tb: int = if b1.contains_key(tk) {
                    b1[tk]
                } else {
                    0
                };
                let b2 = b1.insert(tk, tb + tx.amount);
                spec_batch_validate(txs.subrange(1, txs.len() as int), n2, b2)
            },
        }
    }
}

/// Looks a key up in the nonce list, later entries first.
fn lookup_nonce(v: &Vec<(Vec<u8>, i64)>, key: &Vec<u8>) -> (r: Option<i64>)
    ensures
        match r {
            Some(n) => nonce_map(v@).contains_key(key@) && nonce_map(v@)[key@] == n,
            None => !nonce_map(v@).contains_key(key@),
        },
{
    proof {
        assert(v@.subrange(0, v@.len() as int) =~= v@);
    }
    let mut j: usize = v.len();
    while j > 0
        invariant
            j <= v@.len(),
            nonce_map(v@).contains_key(key@) == nonce_map(v@.subrange(0, j as int)).contains_key(
                key@,
            ),
            nonce_map(v@).contains_key(key@) ==> nonce_map(v@.subrange(0, j as int))[key@]
                == nonce_map(v@)[key@],
        decreases j,
    {
        j = j - 1;
        let hit: bool = v[j].0 == *key;
        proof {
            assert(v@.subrange(0, j as int + 1).drop_last() =~= v@.subrange(0, j as int));
            assert(v@.subrange(0, j as int + 1).last() == v@[j as int]);
            if hit {
                assert(v@[j as int].0@ =~= key@);
            } else {
                if v@[j as int].0@ == key@ {
                    assert(v[j as int].0@ =~= key@);
                    assert(false);
                }
            }
        }
        if hit {
            return Some(v[j].1);
        }
    }
    proof {
        assert(v@.subrange(0, 0) =~= Seq::<(Vec<u8>, i64)>::empty());
        assert(nonce_map(Seq::<(Vec<u8>, i64)>::empty()) == Map::<Seq<u8>, i64>::empty());
    }
    None
}

/// Looks a key up in the wide balance list, later entries first.
fn lookup_balance(v: &Vec<(Vec<u8>, i128)>, key: &Vec<u8>) -> (r: Option<i128>)
    ensures
        match r {
            Some(n) => balance_map_wide(v@).contains_key(key@) && balance_map_wide(v@)[key@]
                == n as int,
            None => !balance_map_wide(v@).contains_key(key@),
        },
{
    proof {
        assert(v@.subrange(0, v@.len() as int) =~= v@);
    }
    let mut j: usize = v.len();
    while j > 0
        invariant
            j <= v@.len(),
            balance_map_wide(v@).contains_key(key@) == balance_map_wide(
                v@.subrange(0, j as int),
            ).contains_key(key@),
            balance_map_wide(v@).contains_key(key@) ==> balance_map_wide(
                v@.subrange(0, j as int),
            )[key@] == balance_map_wide(v@)[key@],
        decreases j,
    {
        j = j - 1;
        let hit: bool = v[j].0 == *key;
        proof {
            assert(v@.subrange(0, j as int + 1).drop_last() =~= v@.subrange(0, j as int));
            assert(v@.subrange(0, j as int + 1).last() == v@[j as int]);
            if hit {
                assert(v@[j as int].0@ =~= key@);
            } else {
                if v@[j as int].0@ == key@ {
                    assert(v[j as int].0@ =~= key@);
                    assert(false);
                }
            }
        }
        if hit {
            return Some(v[j].1);
        }
    }
    proof {
        assert(v@.subrange(0, 0) =~= Seq::<(Vec<u8>, i128)>::empty());
        assert(balance_map_wide(Seq::<(Vec<u8>, i128)>::empty()) == Map::<Seq<u8>, int>::empty());
    }
    None
}

/// Validates a proposed batch: the size cap, then the sequential replay
/// against the initial nonce and balance snapshots, exactly as
/// `spec_batch_validate` describes.
pub fn validate_batch(
    txs: &[TransferProof],
    initial_nonces: &[(Vec<u8>, i64)],
    initial_balances: &[(Vec<u8>, i64)],
) -> (r: Result<(), ValidationError>)
    ensures
        txs@.len() > MAX_BATCH_SIZE ==> r == Result::<(), ValidationError>::Err(
            ValidationError::InvalidBatchSize(txs@.len() as usize),
        ),
        txs@.len() <= MAX_BATCH_SIZE ==> match spec_batch_validate(
            txs@,
            nonce_map(initial_nonces@),
            balance_map(initial_balances@),
        ) {
            None => r is Ok,
            Some(e) => r == Result::<(), ValidationError>::Err(e),
        },
{
    let n: usize = txs.len();
    if n > MAX_BATCH_SIZE {
        return Err(ValidationError::InvalidBatchSize(n));
    }
    // Copy the snapshots into working lists; balances widen to 128 bits so
    // that the replay can never overflow (at most 100 steps, each moving
    // less than 2^65 units).
    let mut nonces: Vec<(Vec<u8>, i64)> = Vec::new();
    let in_n: usize = initial_nonces.len();
    let mut k: usize = 0;
    while k < in_n
        invariant
            k <= in_n,
            in_n == initial_nonces@.len(),
            nonce_map(nonces@) == nonce_map(initial_nonces@.subrange(0, k as int)),
        decreases in_n - k,
    {
        let key = clone_key(&initial_nonces[k].0);
        let val: i64 = initial_nonces[k].1;
        proof {
            assert(nonces@.push((key, val)).drop_last() =~= nonces@);
            assert(initial_nonces@.subrange(0, k as int + 1).drop_last() =~= initial_nonces@
                .subrange(0, k as int));
        }
        nonces.push((key, val));
        k = k + 1;
    }
    proof {
        assert(initial_nonces@.subrange(0, in_n as int) =~= initial_nonces@);
    }
    let mut balances: Vec<(Vec<u8>, i128)> = Vec::new();
    let in_b: usize = initial_balances.len();
    let mut k2: usize = 0;
    while k2 < in_b
        invariant
            k2 <= in_b,
            in_b == initial_balances@.len(),
            balance_map_wide(balances@) == balance_map(initial_balances@.subrange(0, k2 as int)),
            forall|j: int| 0 <= j < balances@.len() ==> -0x8000_0000_0000_0000 <= (
            #[trigger] balances@[j].1) as int <= 0x8000_0000_0000_0000,
        decreases in_b - k2,
    {
        let key = clone_key(&initial_balances[k2].0);
        let val: i64 = initial_balances[k2].1;
        proof {
            assert(balances@.push((key, val as i128)).drop_last() =~= balances@);
            assert(initial_balances@.subrange(0, k2 as int + 1).drop_last() =~= initial_balances@
                .subrange(0, k2 as int));
        }
        balances.push((key, val as i128));
        k2 = k2 + 1;
    }
    proof {
        assert(initial_balances@.subrange(0, in_b as int) =~= initial_balances@);
    }
    let ghost n0 = nonce_map(initial_nonces@);
    let ghost b0 = balance_map(initial_balances@);
    proof {
        assert(balances_bounded(balance_map_wide(balances@), 0x8000_0000_0000_0000)) by {
            lemma_balance_map_bounded(balances@);
        }
    }
    proof {
        assert(txs@.subrange(0, n as int) =~= txs@);
    }
    let mut i: usize = 0;
    while i < n
        invariant
            i <= n,
            n <= MAX_BATCH_SIZE,
            n == txs@.len(),
            n0 == nonce_map(initial_nonces@),
            b0 == balance_map(initial_balances@),
            spec_batch_validate(txs@, n0, b0) == spec_batch_validate(
                txs@.subrange(i as int, n as int),
                nonce_map(nonces@),
                balance_map_wide(balances@),
            ),
            balances_bounded(
                balance_map_wide(balances@),
                0x8000_0000_0000_0000 + (i as int) * 0x2_0000_0000_0000_0000,
            ),
        decreases n - i,
    {
        let ghost rest = txs@.subrange(i as int, n as int);
        let ghost nc = nonce_map(nonces@);
        let ghost bc = balance_map_wide(balances@);
        proof {
            assert(rest[0] == txs@[i as int]);
            assert(rest.subrange(1, rest.len() as int) =~= txs@.subrange(i as int + 1, n as int));
        }
        let tx = &txs[i];
        let from_key = addr_key(&tx.from_addr);
        let cur: i64 = match lookup_nonce(&nonces, &from_key) {
            Some(c) => c,
            None => -1,
        };
        let bal: i128 = match lookup_balance(&balances, &from_key) {
            Some(b) => b,
            None => 0,
        };
        let ghost cur_spec: int = if nc.contains_key(tx.from_addr@) {
            nc[tx.from_addr@] as int
        } else {
            -1
        };
        let ghost bal_spec: int = if bc.contains_key(tx.from_addr@) {
            bc[tx.from_addr@]
        } else {
            0
        };
        proof {
            assert(cur as int == cur_spec);
            assert(bal as int == bal_spec);
            assert(-0x8000_0000_0000_0000 - (i as int) * 0x2_0000_0000_0000_0000 <= bal as int
                <= 0x8000_0000_0000_0000 + (i as int) * 0x2_0000_0000_0000_0000);
        }
        if tx.amount < MIN_AMOUNT || tx.amount > MAX_AMOUNT {
            return Err(ValidationError::InvalidAmount(tx.amount));
        }
        if tx.fee < MIN_FEE || tx.fee > MAX_FEE {
            return Err(ValidationError::InvalidFee(tx.fee));
        }
        if (tx.nonce as i128) != (cur as i128) + 1 {
            return Err(ValidationError::InvalidNonce(tx.nonce));
        }
        let required: i128 = (tx.amount as i128) + (tx.fee as i128);
        if required > bal {
            let req_sat: i64 = if required > (i64::MAX as i128) {
                i64::MAX
            } else {
                required as i64
            };
            let bal_sat: i64 = if bal > (i64::MAX as i128) {
                i64::MAX
            } else if bal < (i64::MIN as i128) {
                i64::MIN
            } else {
                bal as i64
            };
            return Err(ValidationError::InsufficientBalance(req_sat, bal_sat));
        }
        if !verify_transfer_signature(tx) {
            return Err(ValidationError::InvalidSignature);
        }
        proof {
            assert(spec_tx_error(txs@[i as int], cur_spec, bal_spec) is None);
        }
        // Commit the transfer to the running snapshots.
        let to_key = addr_key(&tx.to_addr);
        let from_key2 = clone_key(&from_key);
        let new_from: i128 = bal - required;
        proof {
            assert(nonces@.push((from_key, tx.nonce)).drop_last() =~= nonces@);
            assert(balances@.push((from_key2, new_from)).drop_last() =~= balances@);
        }
        nonces.push((from_key, tx.nonce));
        balances.push((from_key2, new_from));
        let to_bal: i128 = match lookup_balance(&balances, &to_key) {
            Some(b) => b,
            None => 0,
        };
        let new_to: i128 = to_bal + (tx.amount as i128);
        proof {
            assert(balances@.push((to_key, new_to)).drop_last() =~= balances@);
        }
        balances.push((to_key, new_to));
        i = i + 1;
    }
    proof {
        assert(txs@.subrange(n as int, n as int) =~= Seq::<TransferProof>::empty());
        assert(spec_batch_validate(
            Seq::<TransferProof>::empty(),
            nonce_map(nonces@),
            balance_map_wide(balances@),
        ) is None);
    }
    Ok(())
}

/// Balances copied from 64-bit snapshots lie within the 64-bit range.
proof fn lemma_balance_map_bounded(s: Seq<(Vec<u8>, i128)>)
    requires
        forall|j: int| 0 <= j < s.len() ==> -0x8000_0000_0000_0000 <= (#[trigger] s[j].1) as int
            <= 0x8000_0000_0000_0000,
    ensures
        balances_bounded(balance_map_wide(s), 0x8000_0000_0000_0000),
    decreases s.len(),
{
    if s.len() > 0 {
        lemma_balance_map_bounded(s.drop_last());
    }
}

} // verus!
