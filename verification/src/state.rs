//! The ledger state: accounts, transactions, proof rows, the issuer key,
//! and the event bus.
//!
//! This is the data the persistent store owns, modelled directly: accounts
//! are unique by address and non-negative at rest; transactions are
//! recorded in timestamp order; a transfer is applied atomically - either
//! every mutation of the ledger happens and one event is broadcast after
//! commit, or nothing changes at all.

use vstd::prelude::*;

use crate::codec::read_bytes32;
use crate::crypto::ed25519_verifies;
use crate::crypto::mint_message_spec;
use crate::crypto::sha256_of;
use crate::crypto::transfer_msg_input;
use crate::crypto::verify_mint_signature;
use crate::crypto::verify_transfer_signature;
use crate::decimal::dec_str;
use crate::decimal::i64_to_string;
use crate::events::published_queues;
use crate::types::ProofUpdate;
use crate::types::TransactionStatus;
use crate::types::TransactionUpdate;
use crate::types::TransferProof;
use crate::types::WebSocketUpdate;
use crate::validation::MAX_FEE;
use crate::codec::read_bytes64;
use crate::crypto::bytes_of_hex;
use crate::crypto::hex_decode;
use crate::crypto::is_hex_str;
use crate::errors::AppError;
use crate::types::str_eq;
use crate::events::EventBus;
use crate::types::Account;
use crate::types::ProofStatus;
use crate::types::Transaction;

verus! {

/// The stored status row of one batch proof.
#[derive(Debug, Clone)]
pub struct ProofRecord {
    pub batch_id: String,
    pub status: ProofStatus,
    pub error: Option<String>,
    pub num_transactions: i64,
    pub created_at: i64,
    pub updated_at: i64,
}

/// The first account carrying an address.
pub open spec fn find_account(s: Seq<Account>, addr: Seq<u8>) -> Option<Account>
    decreases s.len(),
{
    if s.len() == 0 {
        None
    } else if s[0].address@ == addr {
        Some(s[0])
    } else {
        find_account(s.subrange(1, s.len() as int), addr)
    }
}

/// Whether an address has an account.
pub open spec fn has_account(s: Seq<Account>, addr: Seq<u8>) -> bool {
    find_account(s, addr) is Some
}

/// The balance at an address, zero where no account exists yet.
pub open spec fn eff_balance(s: Seq<Account>, addr: Seq<u8>) -> int {
    match find_account(s, addr) {
        Some(a) => a.balance as int,
        None => 0,
    }
}

/// The pending balance at an address, zero where no account exists yet.
pub open spec fn eff_pending(s: Seq<Account>, addr: Seq<u8>) -> int {
    match find_account(s, addr) {
        Some(a) => a.pending_balance as int,
        None => 0,
    }
}

/// The nonce at an address, zero where no account exists yet.
pub open spec fn eff_nonce(s: Seq<Account>, addr: Seq<u8>) -> int {
    match find_account(s, addr) {
        Some(a) => a.nonce as int,
        None => 0,
    }
}

/// The sum of all account balances: the circulating supply.
pub open spec fn sum_balances(s: Seq<Account>) -> int
    decreases s.len(),
{
    if s.len() == 0 {
        0
    } else {
        sum_balances(s.drop_last()) + s.last().balance
    }
}

/// Accounts at rest: pairwise distinct addresses, balances and pending
/// balances non-negative.
pub open spec fn accounts_wf(s: Seq<Account>) -> bool {
    &&& forall|i: int, j: int|
        0 <= i < j < s.len() ==> (#[trigger] s[i]).address@ != (#[trigger] s[j]).address@
    &&& forall|i: int|
        0 <= i < s.len() ==> (#[trigger] s[i]).balance >= 0 && s[i].pending_balance
            == s[i].balance
}

/// When an address first occurs at `i`, the scan finds that account.
proof fn lemma_account_at(s: Seq<Account>, addr: Seq<u8>, i: int)
    requires
        0 <= i < s.len(),
        s[i].address@ == addr,
        forall|j: int| 0 <= j < i ==> (#[trigger] s[j]).address@ != addr,
    ensures
        find_account(s, addr) == Some(s[i]),
    decreases i,
{
    if i > 0 {
        lemma_account_at(s.subrange(1, s.len() as int), addr, i - 1);
    }
}

/// When no account carries the address, the scan finds nothing.
proof fn lemma_account_none(s: Seq<Account>, addr: Seq<u8>)
    requires
        forall|j: int| 0 <= j < s.len() ==> (#[trigger] s[j]).address@ != addr,
    ensures
        find_account(s, addr) is None,
    decreases s.len(),
{
    if s.len() > 0 {
        lemma_account_none(s.subrange(1, s.len() as int), addr);
    }
}

/// With distinct addresses, the scan finds the entry at hand.
proof fn lemma_account_unique(s: Seq<Account>, k: int)
    requires
        accounts_wf(s),
        0 <= k < s.len(),
    ensures
        find_account(s, s[k].address@) == Some(s[k]),
{
    lemma_account_at(s, s[k].address@, k);
}

/// How the scan behaves after replacing the account at `i` with another
/// account at the same address.
proof fn lemma_account_update(s: Seq<Account>, i: int, a2: Account)
    requires
        accounts_wf(s),
        0 <= i < s.len(),
        s[i].address@ == a2.address@,
    ensures
        find_account(s.update(i, a2), a2.address@) == Some(a2),
        forall|x: Seq<u8>|
            x != a2.address@ ==> #[trigger] find_account(s.update(i, a2), x) == find_account(s, x),
{
    let t = s.update(i, a2);
    assert forall|j: int| 0 <= j < i implies (#[trigger] t[j]).address@ != a2.address@ by {
        assert(t[j] == s[j]);
    }
    lemma_account_at(t, a2.address@, i);
    assert forall|x: Seq<u8>| x != a2.address@ implies #[trigger] find_account(t, x)
        == find_account(s, x) by {
        lemma_account_update_other(s, i, a2, x);
    }
}

/// Replacing one account leaves the scan for other addresses alone.
proof fn lemma_account_update_other(s: Seq<Account>, i: int, a2: Account, x: Seq<u8>)
    requires
        0 <= i < s.len(),
        s[i].address@ == a2.address@,
        x != a2.address@,
    ensures
        find_account(s.update(i, a2), x) == find_account(s, x),
    decreases s.len(),
{
    let t = s.update(i, a2);
    if i == 0 {
        assert(t.subrange(1, t.len() as int) =~= s.subrange(1, s.len() as int));
    } else {
        assert(t[0] == s[0]);
        assert(t.subrange(1, t.len() as int) =~= s.subrange(1, s.len() as int).update(i - 1, a2));
        lemma_account_update_other(s.subrange(1, s.len() as int), i - 1, a2, x);
    }
}

/// How the scan behaves after appending an account for a fresh address.
proof fn lemma_account_push(s: Seq<Account>, a: Account)
    requires
        find_account(s, a.address@) is None,
    ensures
        find_account(s.push(a), a.address@) == Some(a),
        forall|x: Seq<u8>|
            x != a.address@ ==> #[trigger] find_account(s.push(a), x) == find_account(s, x),
{
    let t = s.push(a);
    lemma_account_absent_all(s, a.address@);
    assert forall|j: int| 0 <= j < s.len() implies (#[trigger] t[j]).address@ != a.address@ by {
        assert(t[j] == s[j]);
    }
    assert(t[s.len() as int] == a);
    lemma_account_at(t, a.address@, s.len() as int);
    assert forall|x: Seq<u8>| x != a.address@ implies #[trigger] find_account(t, x)
        == find_account(s, x) by {
        lemma_account_push_other(s, a, x);
    }
}

/// Appending an account leaves the scan for other addresses alone.
proof fn lemma_account_push_other(s: Seq<Account>, a: Account, x: Seq<u8>)
    requires
        x != a.address@,
    ensures
        find_account(s.push(a), x) == find_account(s, x),
    decreases s.len(),
{
    let t = s.push(a);
    if s.len() == 0 {
        assert(t[0] == a);
        assert(t.subrange(1, 1) =~= Seq::<Account>::empty());
        assert(find_account(Seq::<Account>::empty(), x) is None);
    } else {
        assert(t[0] == s[0]);
        assert(t.subrange(1, t.len() as int) =~= s.subrange(1, s.len() as int).push(a));
        lemma_account_push_other(s.subrange(1, s.len() as int), a, x);
    }
}

/// A failed scan means no account carries the address.
proof fn lemma_account_absent_all(s: Seq<Account>, addr: Seq<u8>)
    requires
        find_account(s, addr) is None,
    ensures
        forall|j: int| 0 <= j < s.len() ==> (#[trigger] s[j]).address@ != addr,
    decreases s.len(),
{
    if s.len() > 0 {
        let tail = s.subrange(1, s.len() as int);
        lemma_account_absent_all(tail, addr);
        assert forall|j: int| 0 <= j < s.len() implies (#[trigger] s[j]).address@ != addr by {
            if j > 0 {
                assert(s[j] == tail[j - 1]);
            }
        }
    }
}

/// Appending an account adds its balance to the supply.
proof fn lemma_sum_push(s: Seq<Account>, a: Account)
    ensures
        sum_balances(s.push(a)) == sum_balances(s) + a.balance,
{
    assert(s.push(a).drop_last() =~= s);
}

/// Replacing an account moves the supply by the balance difference.
proof fn lemma_sum_update(s: Seq<Account>, i: int, a2: Account)
    requires
        0 <= i < s.len(),
    ensures
        sum_balances(s.update(i, a2)) == sum_balances(s) - s[i].balance + a2.balance,
    decreases s.len(),
{
    let t = s.update(i, a2);
    if i == s.len() - 1 {
        assert(t.drop_last() =~= s.drop_last());
        assert(t.last() == a2);
    } else {
        assert(t.drop_last() =~= s.drop_last().update(i, a2));
        assert(t.last() == s.last());
        lemma_sum_update(s.drop_last(), i, a2);
    }
}

/// Compares two addresses byte for byte.
pub fn bytes32_eq(a: &[u8; 32], b: &[u8; 32]) -> (r: bool)
    ensures
        r == (a@ == b@),
{
    let mut i: usize = 0;
    while i < 32
        invariant
            i <= 32,
            forall|j: int| 0 <= j < i ==> a@[j] == b@[j],
        decreases 32 - i,
    {
        if a[i] != b[i] {
            return false;
        }
        i = i + 1;
    }
    proof {
        assert(a@ =~= b@);
    }
    true
}

/// The application state: the ledger's accounts, transactions and proof
/// rows, the issuer key, the fee collector, and the event bus.
pub struct AppState {
    pub accounts: Vec<Account>,
    pub transactions: Vec<Transaction>,
    pub proofs: Vec<ProofRecord>,
    /// The join table binding transactions to batches.
    pub assigned: Vec<(String, String)>,
    pub bus: EventBus,
    /// The account credited with transfer fees.
    pub fee_collector: [u8; 32],
    pub issuer_key: Option<[u8; 32]>,
    pub clock: i64,
}

impl AppState {
    /// The configured issuer key.
    pub open spec fn issuer_spec(self) -> Option<[u8; 32]> {
        self.issuer_key
    }

    /// The logical clock stamping rows.
    pub open spec fn clock_spec(self) -> i64 {
        self.clock
    }

    /// The state's well-formedness: accounts at rest, transactions in
    /// timestamp order below the clock, a healthy bus.
    pub open spec fn wf(self) -> bool {
        &&& accounts_wf(self.accounts@)
        &&& forall|i: int, j: int|
            0 <= i < j < self.transactions@.len() ==> (#[trigger] self.transactions@[i]).timestamp
                <= (#[trigger] self.transactions@[j]).timestamp
        &&& forall|i: int|
            0 <= i < self.transactions@.len() ==> (#[trigger] self.transactions@[i]).timestamp
                <= self.clock_spec()
        &&& self.bus.wf()
    }

    /// A fresh state: no accounts, no rows, no issuer key, the zero
    /// address collecting fees, and an event bus with the default
    /// per-subscriber buffer.
    pub fn new() -> (r: AppState)
        ensures
            r.wf(),
            r.accounts@.len() == 0,
            r.transactions@.len() == 0,
            r.proofs@.len() == 0,
            r.assigned@.len() == 0,
            r.issuer_spec() is None,
            r.bus.queues_spec().len() == 0,
    {
        AppState {
            accounts: Vec::new(),
            transactions: Vec::new(),
            proofs: Vec::new(),
            assigned: Vec::new(),
            bus: EventBus::new(100),
            fee_collector: [0u8; 32],
            issuer_key: None,
            clock: 0,
        }
    }

    /// Configures the issuer key that authorizes mints.
    pub fn set_issuer_key(&mut self, key: [u8; 32])
        ensures
            final(self).issuer_spec() == Some(key),
            final(self).accounts@ == old(self).accounts@,
            final(self).transactions@ == old(self).transactions@,
            final(self).proofs@ == old(self).proofs@,
            final(self).assigned@ == old(self).assigned@,
            final(self).bus == old(self).bus,
            final(self).fee_collector == old(self).fee_collector,
            final(self).clock_spec() == old(self).clock_spec(),
    {
        self.issuer_key = Some(key);
    }

    /// The configured issuer key, if any.
    pub fn get_issuer_key(&self) -> (r: Option<[u8; 32]>)
        ensures
            r == self.issuer_spec(),
    {
        self.issuer_key
    }

    /// The index of an address among the accounts.
    fn find_index(&self, address: &[u8; 32]) -> (r: Option<usize>)
        ensures
            match r {
                Some(i) => i < self.accounts@.len() && self.accounts@[i as int].address@
                    == address@ && find_account(self.accounts@, address@) == Some(
                    self.accounts@[i as int],
                ) && (forall|j: int|
                    0 <= j < i ==> (#[trigger] self.accounts@[j]).address@ != address@),
                None => find_account(self.accounts@, address@) is None && (forall|j: int|
                    0 <= j < self.accounts@.len() ==> (#[trigger] self.accounts@[j]).address@
                        != address@),
            },
    {
        let n: usize = self.accounts.len();
        let mut i: usize = 0;
        while i < n
            invariant
                i <= n,
                n == self.accounts@.len(),
                forall|j: int| 0 <= j < i ==> (#[trigger] self.accounts@[j]).address@ != address@,
            decreases n - i,
        {
            if bytes32_eq(&self.accounts[i].address, address) {
                proof {
                    lemma_account_at(self.accounts@, address@, i as int);
                }
                return Some(i);
            }
            i = i + 1;
        }
        proof {
            lemma_account_none(self.accounts@, address@);
        }
        None
    }

    /// The account at an address, if one exists.
    pub fn get_account(&self, address: [u8; 32]) -> (r: Result<Option<Account>, AppError>)
        ensures
            r == Result::<Option<Account>, AppError>::Ok(find_account(self.accounts@, address@)),
    {
        match self.find_index(&address) {
            Some(i) => Ok(Some(self.accounts[i])),
            None => Ok(None),
        }
    }

    /// Creates an empty account at an address; an address that already has
    /// one is refused, as the unique key makes the insert fail.
    pub fn create_account(&mut self, address: [u8; 32]) -> (r: Result<Account, AppError>)
        requires
            old(self).wf(),
        ensures
            final(self).wf(),
            has_account(old(self).accounts@, address@) ==> r is Err && *final(self) == *old(self)
                && (r matches Err(e) ==> e is DatabaseError),
            !has_account(old(self).accounts@, address@) ==> match r {
                Ok(a) => {
                    &&& a.address == address
                    &&& a.balance == 0
                    &&& a.pending_balance == 0
                    &&& a.nonce == 0
                    &&& final(self).accounts@ == old(self).accounts@.push(a)
                    &&& find_account(final(self).accounts@, address@) == Some(a)
                    &&& sum_balances(final(self).accounts@) == sum_balances(old(self).accounts@)
                    &&& final(self).transactions@ == old(self).transactions@
                    &&& final(self).proofs@ == old(self).proofs@
                    &&& final(self).assigned@ == old(self).assigned@
                    &&& final(self).bus == old(self).bus
                },
                Err(_) => false,
            },
    {
        match self.find_index(&address) {
            Some(_) => Err(
                AppError::DatabaseError(String::from_str("account already exists")),
            ),
            None => {
                let now: i64 = self.clock;
                if self.clock < i64::MAX {
                    self.clock = self.clock + 1;
                }
                let a = Account {
                    address,
                    balance: 0,
                    pending_balance: 0,
                    nonce: 0,
                    created_at: now,
                };
                proof {
                    lemma_account_push(self.accounts@, a);
                    lemma_sum_push(self.accounts@, a);
                    assert forall|x: int, y: int|
                        0 <= x < y < self.accounts@.push(a).len() implies (
                    #[trigger] self.accounts@.push(a)[x]).address@ != (#[trigger] self.accounts@
                        .push(a)[y]).address@ by {
                        if y == self.accounts@.len() {
                            assert(self.accounts@.push(a)[x] == self.accounts@[x]);
                        } else {
                            assert(self.accounts@.push(a)[x] == self.accounts@[x]);
                            assert(self.accounts@.push(a)[y] == self.accounts@[y]);
                        }
                    }
                }
                self.accounts.push(a);
                Ok(a)
            },
        }
    }

    /// The balances at an address; an address without an account is not
    /// found.
    pub fn get_balance(&self, address: [u8; 32]) -> (r: Result<BalanceResponse, AppError>)
        ensures
            match r {
                Ok(p) => find_account(self.accounts@, address@) matches Some(a) && p.balance
                    == a.balance && p.pending_balance == a.pending_balance,
                Err(e) => find_account(self.accounts@, address@) is None && e is NotFound,
            },
    {
        match self.find_index(&address) {
            Some(i) => Ok(
                BalanceResponse {
                    balance: self.accounts[i].balance,
                    pending_balance: self.accounts[i].pending_balance,
                },
            ),
            None => Err(AppError::NotFound(String::from_str("Account not found"))),
        }
    }
}


/// Copies the account table.
fn copy_accounts(v: &Vec<Account>) -> (r: Vec<Account>)
    ensures
        r@ == v@,
{
    let n: usize = v.len();
    let mut r: Vec<Account> = Vec::new();
    let mut i: usize = 0;
    while i < n
        invariant
            i <= n,
            n == v@.len(),
            r@.len() == i,
            forall|j: int| 0 <= j < i ==> r@[j] == v@[j],
        decreases n - i,
    {
        r.push(v[i]);
        i = i + 1;
    }
    proof {
        assert(r@ =~= v@);
    }
    r
}

/// The index of an address in an account table.
fn find_account_index(v: &Vec<Account>, address: &[u8; 32]) -> (r: Option<usize>)
    ensures
        match r {
            Some(i) => i < v@.len() && v@[i as int].address@ == address@ && find_account(
                v@,
                address@,
            ) == Some(v@[i as int]) && (forall|j: int|
                0 <= j < i ==> (#[trigger] v@[j]).address@ != address@),
            None => find_account(v@, address@) is None && (forall|j: int|
                0 <= j < v@.len() ==> (#[trigger] v@[j]).address@ != address@),
        },
{
    let n: usize = v.len();
    let mut i: usize = 0;
    while i < n
        invariant
            i <= n,
            n == v@.len(),
            forall|j: int| 0 <= j < i ==> (#[trigger] v@[j]).address@ != address@,
        decreases n - i,
    {
        if bytes32_eq(&v[i].address, address) {
            proof {
                lemma_account_at(v@, address@, i as int);
            }
            return Some(i);
        }
        i = i + 1;
    }
    proof {
        lemma_account_none(v@, address@);
    }
    None
}

/// Credits an address: adds to an existing account's balances, or creates
/// the account holding exactly the credited value.
fn upsert_credit(accounts: &mut Vec<Account>, address: [u8; 32], delta: i64, now: i64)
    requires
        accounts_wf(old(accounts)@),
        delta >= 0,
        has_account(old(accounts)@, address@) ==> eff_balance(old(accounts)@, address@) + delta
            <= i64::MAX,
    ensures
        accounts_wf(final(accounts)@),
        forall|x: Seq<u8>|
            #[trigger] eff_balance(final(accounts)@, x) == eff_balance(old(accounts)@, x) + (
            if x == address@ {
                delta as int
            } else {
                0
            }),
        forall|x: Seq<u8>|
            #[trigger] eff_pending(final(accounts)@, x) == eff_pending(old(accounts)@, x) + (
            if x == address@ {
                delta as int
            } else {
                0
            }),
        forall|x: Seq<u8>|
            #[trigger] eff_nonce(final(accounts)@, x) == eff_nonce(old(accounts)@, x),
        forall|x: Seq<u8>|
            #[trigger] has_account(final(accounts)@, x) == (has_account(old(accounts)@, x) || x
                == address@),
        sum_balances(final(accounts)@) == sum_balances(old(accounts)@) + delta,
{
    match find_account_index(accounts, &address) {
        Some(i) => {
            let a = accounts[i];
            let a2 = Account {
                balance: a.balance + delta,
                pending_balance: a.pending_balance + delta,
                ..a
            };
            proof {
                lemma_account_update(accounts@, i as int, a2);
                lemma_sum_update(accounts@, i as int, a2);
                let t = accounts@.update(i as int, a2);
                assert forall|x: int, y: int| 0 <= x < y < t.len() implies (
                #[trigger] t[x]).address@ != (#[trigger] t[y]).address@ by {
                    assert(t[x].address@ == accounts@[x].address@);
                    assert(t[y].address@ == accounts@[y].address@);
                }
            }
            accounts.set(i, a2);
        },
        None => {
            let a = Account {
                address,
                balance: delta,
                pending_balance: delta,
                nonce: 0,
                created_at: now,
            };
            proof {
                lemma_account_push(accounts@, a);
                lemma_sum_push(accounts@, a);
                let t = accounts@.push(a);
                assert forall|x: int, y: int| 0 <= x < y < t.len() implies (
                #[trigger] t[x]).address@ != (#[trigger] t[y]).address@ by {
                    if y == accounts@.len() {
                        assert(t[x] == accounts@[x]);
                        assert(t[y] == a);
                    } else {
                        assert(t[x] == accounts@[x]);
                        assert(t[y] == accounts@[y]);
                    }
                }
            }
            accounts.push(a);
        },
    }
}

/// Debits a sender and advances its nonce.
fn debit_sender(accounts: &mut Vec<Account>, i: usize, amount: i64, fee: i64)
    requires
        accounts_wf(old(accounts)@),
        i < old(accounts)@.len(),
        amount >= 0,
        fee >= 0,
        old(accounts)@[i as int].balance >= amount + fee,
        old(accounts)@[i as int].nonce < i64::MAX,
    ensures
        accounts_wf(final(accounts)@),
        forall|x: Seq<u8>|
            #[trigger] eff_balance(final(accounts)@, x) == eff_balance(old(accounts)@, x) - (
            if x == old(accounts)@[i as int].address@ {
                amount + fee
            } else {
                0
            }),
        forall|x: Seq<u8>|
            #[trigger] eff_pending(final(accounts)@, x) == eff_pending(old(accounts)@, x) - (
            if x == old(accounts)@[i as int].address@ {
                amount + fee
            } else {
                0
            }),
        forall|x: Seq<u8>|
            #[trigger] eff_nonce(final(accounts)@, x) == eff_nonce(old(accounts)@, x) + (
            if x == old(accounts)@[i as int].address@ {
                1int
            } else {
                0int
            }),
        forall|x: Seq<u8>|
            #[trigger] has_account(final(accounts)@, x) == has_account(old(accounts)@, x),
        sum_balances(final(accounts)@) == sum_balances(old(accounts)@) - amount - fee,
{
    let a = accounts[i];
    proof {
        lemma_account_unique(accounts@, i as int);
        assert(a.pending_balance == a.balance);
    }
    let a2 = Account {
        balance: a.balance - amount - fee,
        pending_balance: a.pending_balance - amount - fee,
        nonce: a.nonce + 1,
        ..a
    };
    proof {
        lemma_account_update(accounts@, i as int, a2);
        lemma_sum_update(accounts@, i as int, a2);
        let t = accounts@.update(i as int, a2);
        assert forall|x: int, y: int| 0 <= x < y < t.len() implies (#[trigger] t[x]).address@
            != (#[trigger] t[y]).address@ by {
            assert(t[x].address@ == accounts@[x].address@);
            assert(t[y].address@ == accounts@[y].address@);
        }
    }
    accounts.set(i, a2);
}

/// Parses a hex-encoded 32-byte address; `Err(false)` is malformed hex,
/// `Err(true)` a wrong length.
fn parse_addr32(s: &str) -> (r: Result<[u8; 32], bool>)
    ensures
        !is_hex_str(s@) ==> r == Result::<[u8; 32], bool>::Err(false),
        is_hex_str(s@) && s@.len() != 64 ==> r == Result::<[u8; 32], bool>::Err(true),
        is_hex_str(s@) && s@.len() == 64 ==> (r matches Ok(a) && a@ == bytes_of_hex(s@)),
{
    match hex_decode(s) {
        None => Err(false),
        Some(v) => {
            if v.len() != 32 {
                Err(true)
            } else {
                let a = read_bytes32(v.as_slice(), 0);
                proof {
                    assert(a@ =~= bytes_of_hex(s@));
                }
                Ok(a)
            }
        },
    }
}

/// Parses a hex-encoded 64-byte signature; `Err(false)` is malformed hex,
/// `Err(true)` a wrong length.
fn parse_sig64(s: &str) -> (r: Result<[u8; 64], bool>)
    ensures
        !is_hex_str(s@) ==> r == Result::<[u8; 64], bool>::Err(false),
        is_hex_str(s@) && s@.len() != 128 ==> r == Result::<[u8; 64], bool>::Err(true),
        is_hex_str(s@) && s@.len() == 128 ==> (r matches Ok(a) && a@ == bytes_of_hex(s@)),
{
    match hex_decode(s) {
        None => Err(false),
        Some(v) => {
            if v.len() != 64 {
                Err(true)
            } else {
                let a = read_bytes64(v.as_slice(), 0);
                proof {
                    assert(a@ =~= bytes_of_hex(s@));
                }
                Ok(a)
            }
        },
    }
}


/// A transfer instruction as it arrives at the request edge: addresses and
/// the signature still hex-encoded.
#[derive(Debug, Clone)]
pub struct TransferRequest {
    pub from: Option<String>,
    pub to: String,
    pub amount: i64,
    pub fee: i64,
    pub nonce: i64,
    pub signature: String,
}

/// What a transfer request answers with.
#[derive(Debug, Clone)]
pub struct TransactionResponse {
    pub tx_id: String,
    pub status: String,
}

/// A request to create an account for a public key.
#[derive(Debug, Clone)]
pub struct CreateAccountRequest {
    pub public_key: [u8; 32],
}

/// The address of a created account.
#[derive(Debug, Clone)]
pub struct CreateAccountResponse {
    pub address: [u8; 32],
}

/// The balances of an account.
#[derive(Debug, Clone)]
pub struct BalanceResponse {
    pub balance: i64,
    pub pending_balance: i64,
}

/// The first check a transfer request fails, or `Valid`: range checks,
/// parsing, sender lookup, nonce succession, balance sufficiency, the
/// signature, then room for the credits.
#[derive(Debug, Clone, Copy, PartialEq, Eq, Structural)]
pub enum TransferCheck {
    Valid,
    BadAmount,
    BadFee,
    BadFromHex,
    BadFromLen,
    BadToHex,
    BadToLen,
    BadSigHex,
    BadSigLen,
    UnknownSender,
    BadNonce { expected: i64 },
    NoFunds,
    BadSignature,
    NoIssuer,
    NonceOverflow,
    CreditOverflow,
}

/// Replays a transfer request's checks against a ledger snapshot. A
/// request with a sender must carry its exact nonce, afford amount plus
/// fee, and verify under the sender's key over the canonical message; a
/// mint must verify under the issuer key over the mint message. The
/// credits must fit the 64-bit balances.
pub open spec fn spec_transfer_check(
    accounts: Seq<Account>,
    issuer: Option<[u8; 32]>,
    collector: Seq<u8>,
    req: TransferRequest,
) -> TransferCheck {
    if req.amount <= 0 {
        TransferCheck::BadAmount
    } else if req.fee < 0 || req.fee > MAX_FEE {
        TransferCheck::BadFee
    } else {
        match req.from {
            Some(f) => if !is_hex_str(f@) {
                TransferCheck::BadFromHex
            } else if f@.len() != 64 {
                TransferCheck::BadFromLen
            } else if !is_hex_str(req.to@) {
                TransferCheck::BadToHex
            } else if req.to@.len() != 64 {
                TransferCheck::BadToLen
            } else if !is_hex_str(req.signature@) {
                TransferCheck::BadSigHex
            } else if req.signature@.len() != 128 {
                TransferCheck::BadSigLen
            } else {
                let fb = bytes_of_hex(f@);
                let tb = bytes_of_hex(req.to@);
                let sg = bytes_of_hex(req.signature@);
                match find_account(accounts, fb) {
                    None => TransferCheck::UnknownSender,
                    Some(sender) => if req.nonce != sender.nonce {
                        TransferCheck::BadNonce { expected: sender.nonce }
                    } else if sender.nonce == i64::MAX {
                        TransferCheck::NonceOverflow
                    } else if sender.balance < req.amount + req.fee {
                        TransferCheck::NoFunds
                    } else if !ed25519_verifies(
                        fb,
                        sha256_of(transfer_msg_input(fb, tb, req.amount, req.fee, req.nonce, fb)),
                        sg,
                    ) {
                        TransferCheck::BadSignature
                    } else {
                        let bal1_to = eff_balance(accounts, tb) - (if tb == fb {
                            req.amount + req.fee
                        } else {
                            0int
                        });
                        let to_over = has_account(accounts, tb) && bal1_to + req.amount
                            > i64::MAX;
                        let bal2_c = eff_balance(accounts, collector) - (if collector == fb {
                            req.amount + req.fee
                        } else {
                            0int
                        }) + (if collector == tb {
                            req.amount as int
                        } else {
                            0int
                        });
                        let pres2 = has_account(accounts, collector) || collector == tb;
                        let c_over = req.fee > 0 && pres2 && bal2_c + req.fee > i64::MAX;
                        if to_over || c_over {
                            TransferCheck::CreditOverflow
                        } else {
                            TransferCheck::Valid
                        }
                    },
                }
            },
            None => if !is_hex_str(req.to@) {
                TransferCheck::BadToHex
            } else if req.to@.len() != 64 {
                TransferCheck::BadToLen
            } else if !is_hex_str(req.signature@) {
                TransferCheck::BadSigHex
            } else if req.signature@.len() != 128 {
                TransferCheck::BadSigLen
            } else {
                match issuer {
                    None => TransferCheck::NoIssuer,
                    Some(ik) => {
                        let tb = bytes_of_hex(req.to@);
                        let sg = bytes_of_hex(req.signature@);
                        if !ed25519_verifies(ik@, mint_message_spec(tb, req.amount as int), sg) {
                            TransferCheck::BadSignature
                        } else if has_account(accounts, tb) && eff_balance(accounts, tb)
                            + req.amount > i64::MAX {
                            TransferCheck::CreditOverflow
                        } else {
                            TransferCheck::Valid
                        }
                    },
                }
            },
        }
    }
}

/// The message carried by a nonce-mismatch error.
pub open spec fn nonce_error_msg(expected: i64, got: i64) -> Seq<char> {
    "Expected "@ + dec_str(expected as int) + ", got "@ + dec_str(got as int)
}


/// Executes a signed transfer (or mint) against the ledger, atomically:
/// on success every balance moves exactly as the request says - the
/// sender pays amount plus fee, the receiver gains the amount, the fee
/// collector gains the fee, supply is conserved - the sender's nonce
/// advances by one, the executed row is recorded, and one lifecycle event
/// is broadcast after the commit. On any failure the state is exactly as
/// before and nothing is broadcast.
pub fn transfer(state: &mut AppState, req: &TransferRequest, tx_id: String) -> (r: Result<
    TransactionResponse,
    AppError,
>)
    requires
        old(state).wf(),
    ensures
        final(state).wf(),
        r is Err ==> *final(state) == *old(state),
        match spec_transfer_check(
            old(state).accounts@,
            old(state).issuer_spec(),
            old(state).fee_collector@,
            *req,
        ) {
            TransferCheck::Valid => r matches Ok(resp) && resp.tx_id@ == tx_id@ && resp.status@
                == "executed"@,
            TransferCheck::BadAmount => r matches Err(e) && (e matches AppError::InvalidInput(m)
                && m@ == "Transfer amount must be positive"@),
            TransferCheck::BadFee => r matches Err(e) && (e matches AppError::InvalidInput(m)
                && m@ == "Invalid fee"@),
            TransferCheck::BadFromHex => r matches Err(e) && (e matches AppError::InvalidInput(m)
                && m@ == "Invalid from address"@),
            TransferCheck::BadFromLen => r matches Err(e) && (e matches AppError::InvalidInput(m)
                && m@ == "Invalid from address length"@),
            TransferCheck::BadToHex => r matches Err(e) && (e matches AppError::InvalidInput(m)
                && m@ == "Invalid to address"@),
            TransferCheck::BadToLen => r matches Err(e) && (e matches AppError::InvalidInput(m)
                && m@ == "Invalid to address length"@),
            TransferCheck::BadSigHex => r matches Err(e) && (e matches AppError::InvalidInput(m)
                && m@ == "Invalid signature"@),
            TransferCheck::BadSigLen => r matches Err(e) && (e matches AppError::InvalidInput(m)
                && m@ == "Invalid signature length"@),
            TransferCheck::UnknownSender => r matches Err(e) && (e matches AppError::NotFound(m)
                && m@ == "Sender account not found"@),
            TransferCheck::BadNonce { expected } => r matches Err(e) && (e matches
                AppError::InvalidNonce(m) && m@ == nonce_error_msg(expected, req.nonce)),
            TransferCheck::NoFunds => r matches Err(e) && (e matches
                AppError::InsufficientBalance(m) && m@ == "Insufficient balance"@),
            TransferCheck::BadSignature => r matches Err(e) && (e matches
                AppError::InvalidSignature(m) && m@ == "Invalid signature"@),
            TransferCheck::NoIssuer => r matches Err(e) && (e matches AppError::InvalidSignature(
                m,
            ) && m@ == "No issuer key configured"@),
            TransferCheck::NonceOverflow => r matches Err(e) && (e matches AppError::DatabaseError(
                m,
            ) && m@ == "nonce overflow"@),
            TransferCheck::CreditOverflow => r matches Err(e) && (e matches
                AppError::DatabaseError(m) && m@ == "balance overflow"@),
        },
        // What a committed transfer does to the ledger.
        (spec_transfer_check(
            old(state).accounts@,
            old(state).issuer_spec(),
            old(state).fee_collector@,
            *req,
        ) is Valid && req.from is Some) ==> ({
            let fb = bytes_of_hex(req.from->0@);
            let tb = bytes_of_hex(req.to@);
            let sg = bytes_of_hex(req.signature@);
            let cb = old(state).fee_collector@;
            &&& sum_balances(final(state).accounts@) == sum_balances(old(state).accounts@)
            &&& forall|x: Seq<u8>|
                #[trigger] eff_balance(final(state).accounts@, x) == eff_balance(
                    old(state).accounts@,
                    x,
                ) - (if x == fb {
                    req.amount + req.fee
                } else {
                    0int
                }) + (if x == tb {
                    req.amount as int
                } else {
                    0int
                }) + (if x == cb && req.fee > 0 {
                    req.fee as int
                } else {
                    0int
                })
            &&& forall|x: Seq<u8>|
                #[trigger] eff_nonce(final(state).accounts@, x) == eff_nonce(
                    old(state).accounts@,
                    x,
                ) + (if x == fb {
                    1int
                } else {
                    0int
                })
            &&& forall|x: Seq<u8>|
                #[trigger] has_account(final(state).accounts@, x) == (has_account(
                    old(state).accounts@,
                    x,
                ) || x == tb || (x == cb && req.fee > 0))
            &&& final(state).transactions@.len() == old(state).transactions@.len() + 1
            &&& final(state).transactions@.drop_last() == old(state).transactions@
            &&& ({
                let row = final(state).transactions@.last();
                &&& row.tx_id@ == tx_id@
                &&& row.from matches Some(a) && a@ == fb
                &&& row.to@ == tb
                &&& row.amount == req.amount
                &&& row.fee == req.fee
                &&& row.nonce == req.nonce
                &&& row.signature@ == sg
                &&& row.status == TransactionStatus::Executed
            })
            &&& final(state).proofs@ == old(state).proofs@
            &&& final(state).assigned@ == old(state).assigned@
            &&& final(state).issuer_spec() == old(state).issuer_spec()
            &&& final(state).fee_collector == old(state).fee_collector
            &&& final(state).bus.queues_spec() == published_queues(
                old(state).bus.queues_spec(),
                old(state).bus.capacity_spec(),
                WebSocketUpdate::Transaction(
                    TransactionUpdate {
                        tx_id,
                        status: TransactionStatus::Executed,
                        message: None,
                    },
                ),
            )
        }),
        // What a committed mint does to the ledger.
        (spec_transfer_check(
            old(state).accounts@,
            old(state).issuer_spec(),
            old(state).fee_collector@,
            *req,
        ) is Valid && req.from is None) ==> ({
            let tb = bytes_of_hex(req.to@);
            let sg = bytes_of_hex(req.signature@);
            &&& sum_balances(final(state).accounts@) == sum_balances(old(state).accounts@)
                + req.amount
            &&& forall|x: Seq<u8>|
                #[trigger] eff_balance(final(state).accounts@, x) == eff_balance(
                    old(state).accounts@,
                    x,
                ) + (if x == tb {
                    req.amount as int
                } else {
                    0int
                })
            &&& forall|x: Seq<u8>|
                #[trigger] eff_nonce(final(state).accounts@, x) == eff_nonce(
                    old(state).accounts@,
                    x,
                )
            &&& forall|x: Seq<u8>|
                #[trigger] has_account(final(state).accounts@, x) == (has_account(
                    old(state).accounts@,
                    x,
                ) || x == tb)
            &&& final(state).transactions@.len() == old(state).transactions@.len() + 1
            &&& final(state).transactions@.drop_last() == old(state).transactions@
            &&& ({
                let row = final(state).transactions@.last();
                &&& row.tx_id@ == tx_id@
                &&& row.from is None
                &&& row.to@ == tb
                &&& row.amount == req.amount
                &&& row.fee == req.fee
                &&& row.nonce == req.nonce
                &&& row.signature@ == sg
                &&& row.status == TransactionStatus::Executed
            })
            &&& final(state).proofs@ == old(state).proofs@
            &&& final(state).assigned@ == old(state).assigned@
            &&& final(state).issuer_spec() == old(state).issuer_spec()
            &&& final(state).fee_collector == old(state).fee_collector
            &&& final(state).bus.queues_spec() == published_queues(
                old(state).bus.queues_spec(),
                old(state).bus.capacity_spec(),
                WebSocketUpdate::Transaction(
                    TransactionUpdate {
                        tx_id,
                        status: TransactionStatus::Executed,
                        message: None,
                    },
                ),
            )
        }),
{
    if req.amount <= 0 {
        return Err(
            AppError::InvalidInput(String::from_str("Transfer amount must be positive")),
        );
    }
    if req.fee < 0 || req.fee > MAX_FEE {
        return Err(AppError::InvalidInput(String::from_str("Invalid fee")));
    }
    match &req.from {
        Some(f) => {
            let fa: [u8; 32] = match parse_addr32(f.as_str()) {
                Ok(a) => a,
                Err(false) => {
                    return Err(AppError::InvalidInput(String::from_str("Invalid from address")));
                },
                Err(true) => {
                    return Err(
                        AppError::InvalidInput(String::from_str("Invalid from address length")),
                    );
                },
            };
            let ta: [u8; 32] = match parse_addr32(req.to.as_str()) {
                Ok(a) => a,
                Err(false) => {
                    return Err(AppError::InvalidInput(String::from_str("Invalid to address")));
                },
                Err(true) => {
                    return Err(
                        AppError::InvalidInput(String::from_str("Invalid to address length")),
                    );
                },
            };
            let sg: [u8; 64] = match parse_sig64(req.signature.as_str()) {
                Ok(a) => a,
                Err(false) => {
                    return Err(AppError::InvalidInput(String::from_str("Invalid signature")));
                },
                Err(true) => {
                    return Err(
                        AppError::InvalidInput(String::from_str("Invalid signature length")),
                    );
                },
            };
            let si: usize = match find_account_index(&state.accounts, &fa) {
                Some(i) => i,
                None => {
                    return Err(AppError::NotFound(String::from_str("Sender account not found")));
                },
            };
            let sender: Account = state.accounts[si];
            if req.nonce != sender.nonce {
                let msg = String::from_str("Expected ").concat(
                    i64_to_string(sender.nonce).as_str(),
                ).concat(", got ").concat(i64_to_string(req.nonce).as_str());
                return Err(AppError::InvalidNonce(msg));
            }
            if sender.nonce == i64::MAX {
                return Err(AppError::DatabaseError(String::from_str("nonce overflow")));
            }
            if (sender.balance as i128) < (req.amount as i128) + (req.fee as i128) {
                return Err(
                    AppError::InsufficientBalance(String::from_str("Insufficient balance")),
                );
            }
            let witness = TransferProof {
                from_addr: fa,
                to_addr: ta,
                amount: req.amount,
                fee: req.fee,
                nonce: req.nonce,
                signature: sg,
                public_key: fa,
            };
            if !verify_transfer_signature(&witness) {
                return Err(AppError::InvalidSignature(String::from_str("Invalid signature")));
            }
            // Room for the credits, checked before anything changes.
            let cb_arr: [u8; 32] = state.fee_collector;
            let to_existing = find_account_index(&state.accounts, &ta);
            let eff_to: i128 = match to_existing {
                Some(ti) => state.accounts[ti].balance as i128,
                None => 0,
            };
            let to_is_sender: bool = bytes32_eq(&ta, &fa);
            let debit: i128 = (req.amount as i128) + (req.fee as i128);
            let bal1_to: i128 = if to_is_sender {
                eff_to - debit
            } else {
                eff_to
            };
            if to_existing.is_some() && bal1_to + (req.amount as i128) > (i64::MAX as i128) {
                return Err(AppError::DatabaseError(String::from_str("balance overflow")));
            }
            let c_existing = find_account_index(&state.accounts, &cb_arr);
            let eff_c: i128 = match c_existing {
                Some(ci) => state.accounts[ci].balance as i128,
                None => 0,
            };
            let c_is_sender: bool = bytes32_eq(&cb_arr, &fa);
            let c_is_to: bool = bytes32_eq(&cb_arr, &ta);
            let bal2_c: i128 = eff_c - (if c_is_sender {
                debit
            } else {
                0
            }) + (if c_is_to {
                req.amount as i128
            } else {
                0
            });
            let pres2: bool = c_existing.is_some() || c_is_to;
            if req.fee > 0 && pres2 && bal2_c + (req.fee as i128) > (i64::MAX as i128) {
                return Err(AppError::DatabaseError(String::from_str("balance overflow")));
            }
            // Commit: debit, credit, credit the fee, record, broadcast.
            let now: i64 = state.clock;
            let mut work = copy_accounts(&state.accounts);
            debit_sender(&mut work, si, req.amount, req.fee);
            upsert_credit(&mut work, ta, req.amount, now);
            if req.fee > 0 {
                upsert_credit(&mut work, cb_arr, req.fee, now);
            }
            state.accounts = work;
            let row = Transaction {
                tx_id: tx_id.clone(),
                from: Some(fa),
                to: ta,
                amount: req.amount,
                fee: req.fee,
                nonce: req.nonce,
                signature: sg,
                timestamp: now,
                status: TransactionStatus::Executed,
            };
            proof {
                assert(state.transactions@.push(row).drop_last() =~= state.transactions@);
            }
            state.transactions.push(row);
            if state.clock < i64::MAX {
                state.clock = state.clock + 1;
            }
            let update = WebSocketUpdate::Transaction(
                TransactionUpdate {
                    tx_id: tx_id.clone(),
                    status: TransactionStatus::Executed,
                    message: None,
                },
            );
            state.bus.publish(&update);
            Ok(TransactionResponse { tx_id, status: String::from_str("executed") })
        },
        None => {
            let ta: [u8; 32] = match parse_addr32(req.to.as_str()) {
                Ok(a) => a,
                Err(false) => {
                    return Err(AppError::InvalidInput(String::from_str("Invalid to address")));
                },
                Err(true) => {
                    return Err(
                        AppError::InvalidInput(String::from_str("Invalid to address length")),
                    );
                },
            };
            let sg: [u8; 64] = match parse_sig64(req.signature.as_str()) {
                Ok(a) => a,
                Err(false) => {
                    return Err(AppError::InvalidInput(String::from_str("Invalid signature")));
                },
                Err(true) => {
                    return Err(
                        AppError::InvalidInput(String::from_str("Invalid signature length")),
                    );
                },
            };
            let issuer: [u8; 32] = match state.get_issuer_key() {
                Some(k) => k,
                None => {
                    return Err(
                        AppError::InvalidSignature(String::from_str("No issuer key configured")),
                    );
                },
            };
            if !verify_mint_signature(&issuer, &ta, req.amount, &sg) {
                return Err(AppError::InvalidSignature(String::from_str("Invalid signature")));
            }
            let to_existing = find_account_index(&state.accounts, &ta);
            let eff_to: i128 = match to_existing {
                Some(ti) => state.accounts[ti].balance as i128,
                None => 0,
            };
            if to_existing.is_some() && eff_to + (req.amount as i128) > (i64::MAX as i128) {
                return Err(AppError::DatabaseError(String::from_str("balance overflow")));
            }
            let now: i64 = state.clock;
            let mut work = copy_accounts(&state.accounts);
            upsert_credit(&mut work, ta, req.amount, now);
            state.accounts = work;
            let row = Transaction {
                tx_id: tx_id.clone(),
                from: None,
                to: ta,
                amount: req.amount,
                fee: req.fee,
                nonce: req.nonce,
                signature: sg,
                timestamp: now,
                status: TransactionStatus::Executed,
            };
            proof {
                assert(state.transactions@.push(row).drop_last() =~= state.transactions@);
            }
            state.transactions.push(row);
            if state.clock < i64::MAX {
                state.clock = state.clock + 1;
            }
            let update = WebSocketUpdate::Transaction(
                TransactionUpdate {
                    tx_id: tx_id.clone(),
                    status: TransactionStatus::Executed,
                    message: None,
                },
            );
            state.bus.publish(&update);
            Ok(TransactionResponse { tx_id, status: String::from_str("executed") })
        },
    }
}


/// Whether a transaction involves an address, as sender or receiver.
pub open spec fn tx_matches(t: Transaction, addr: Seq<u8>) -> bool {
    (t.from matches Some(f) && f@ == addr) || t.to@ == addr
}

/// The transactions involving an address, newest first.
pub open spec fn txs_for(s: Seq<Transaction>, addr: Seq<u8>) -> Seq<Transaction>
    decreases s.len(),
{
    if s.len() == 0 {
        Seq::empty()
    } else {
        (if tx_matches(s.last(), addr) {
            seq![s.last()]
        } else {
            Seq::empty()
        }) + txs_for(s.drop_last(), addr)
    }
}

/// Copies a transaction row.
pub fn clone_transaction(t: &Transaction) -> (r: Transaction)
    ensures
        r == *t,
{
    Transaction {
        tx_id: t.tx_id.clone(),
        from: t.from,
        to: t.to,
        amount: t.amount,
        fee: t.fee,
        nonce: t.nonce,
        signature: t.signature,
        timestamp: t.timestamp,
        status: t.status,
    }
}

/// The first transaction carrying an id.
pub open spec fn find_tx(s: Seq<Transaction>, id: Seq<char>) -> Option<Transaction>
    decreases s.len(),
{
    if s.len() == 0 {
        None
    } else if s[0].tx_id@ == id {
        Some(s[0])
    } else {
        find_tx(s.subrange(1, s.len() as int), id)
    }
}

/// The first proof row carrying a batch id.
pub open spec fn find_proof(s: Seq<ProofRecord>, id: Seq<char>) -> Option<ProofRecord>
    decreases s.len(),
{
    if s.len() == 0 {
        None
    } else if s[0].batch_id@ == id {
        Some(s[0])
    } else {
        find_proof(s.subrange(1, s.len() as int), id)
    }
}

/// One stored transaction row as the status listing reports it.
#[derive(Debug, Clone)]
pub struct TransactionStatusResponse {
    pub tx_id: String,
    pub status: String,
    pub error: Option<String>,
    pub created_at: i64,
    pub updated_at: i64,
}

/// One stored proof row as the status listing reports it.
#[derive(Debug, Clone)]
pub struct ProofStatusResponse {
    pub batch_id: String,
    pub status: String,
    pub error: Option<String>,
    pub created_at: i64,
    pub updated_at: i64,
}

/// A client's subscription command over the push channel.
#[derive(Debug, Clone)]
pub struct SubscribeCommand {
    pub command: String,
    pub tx_id: Option<String>,
    pub batch_id: Option<String>,
}

impl AppState {
    /// The transactions an address took part in, newest first.
    pub fn get_transactions(&self, address: [u8; 32]) -> (r: Vec<Transaction>)
        ensures
            r@ == txs_for(self.transactions@, address@),
    {
        let n: usize = self.transactions.len();
        let mut out: Vec<Transaction> = Vec::new();
        let mut i: usize = n;
        proof {
            assert(self.transactions@.subrange(0, n as int) =~= self.transactions@);
        }
        while i > 0
            invariant
                i <= n,
                n == self.transactions@.len(),
                out@ == txs_for(self.transactions@, address@).subrange(
                    0,
                    txs_for(self.transactions@, address@).len() - txs_for(
                        self.transactions@.subrange(0, i as int),
                        address@,
                    ).len(),
                ),
                txs_for(self.transactions@.subrange(0, i as int), address@).len() <= txs_for(
                    self.transactions@,
                    address@,
                ).len(),
                txs_for(self.transactions@, address@) == out@ + txs_for(
                    self.transactions@.subrange(0, i as int),
                    address@,
                ),
            decreases i,
        {
            i = i - 1;
            let t = &self.transactions[i];
            let from_hit: bool = match &t.from {
                Some(f) => bytes32_eq(f, &address),
                None => false,
            };
            let hit: bool = from_hit || bytes32_eq(&t.to, &address);
            proof {
                let pre = self.transactions@.subrange(0, i as int + 1);
                assert(pre.drop_last() =~= self.transactions@.subrange(0, i as int));
                assert(pre.last() == self.transactions@[i as int]);
                assert(hit == tx_matches(self.transactions@[i as int], address@));
            }
            if hit {
                out.push(clone_transaction(t));
            }
            proof {
                assert(txs_for(self.transactions@, address@) =~= out@ + txs_for(
                    self.transactions@.subrange(0, i as int),
                    address@,
                ));
            }
        }
        proof {
            assert(self.transactions@.subrange(0, 0) =~= Seq::<Transaction>::empty());
            assert(txs_for(Seq::<Transaction>::empty(), address@) =~= Seq::<Transaction>::empty());
            assert(out@ =~= txs_for(self.transactions@, address@));
        }
        out
    }

    /// The latest transaction rows, newest first, at most a hundred.
    pub fn list_transactions(&self) -> (r: Vec<TransactionStatusResponse>)
        ensures
            r@.len() == if self.transactions@.len() < 100 {
                self.transactions@.len() as int
            } else {
                100int
            },
            forall|k: int|
                0 <= k < r@.len() ==> {
                    let t = self.transactions@[self.transactions@.len() - 1 - k];
                    &&& (#[trigger] r@[k]).tx_id@ == t.tx_id@
                    &&& r@[k].status@ == t.status.as_str_spec()
                    &&& r@[k].error is None
                    &&& r@[k].created_at == t.timestamp
                    &&& r@[k].updated_at == t.timestamp
                },
    {
        let n: usize = self.transactions.len();
        let limit: usize = if n < 100 {
            n
        } else {
            100
        };
        let mut out: Vec<TransactionStatusResponse> = Vec::new();
        let mut k: usize = 0;
        while k < limit
            invariant
                k <= limit,
                limit <= n,
                n == self.transactions@.len(),
                out@.len() == k,
                forall|j: int|
                    0 <= j < k ==> {
                        let t = self.transactions@[n - 1 - j];
                        &&& (#[trigger] out@[j]).tx_id@ == t.tx_id@
                        &&& out@[j].status@ == t.status.as_str_spec()
                        &&& out@[j].error is None
                        &&& out@[j].created_at == t.timestamp
                        &&& out@[j].updated_at == t.timestamp
                    },
            decreases limit - k,
        {
            let t = &self.transactions[n - 1 - k];
            let status_str = String::from_str(t.status.as_str());
            out.push(
                TransactionStatusResponse {
                    tx_id: t.tx_id.clone(),
                    status: status_str,
                    error: None,
                    created_at: t.timestamp,
                    updated_at: t.timestamp,
                },
            );
            k = k + 1;
        }
        out
    }

    /// The latest proof rows, newest first, at most a hundred.
    pub fn list_proofs(&self) -> (r: Vec<ProofStatusResponse>)
        ensures
            r@.len() == if self.proofs@.len() < 100 {
                self.proofs@.len() as int
            } else {
                100int
            },
            forall|k: int|
                0 <= k < r@.len() ==> {
                    let p = self.proofs@[self.proofs@.len() - 1 - k];
                    &&& (#[trigger] r@[k]).batch_id@ == p.batch_id@
                    &&& r@[k].status@ == p.status.as_str_spec()
                    &&& r@[k].error == p.error
                    &&& r@[k].created_at == p.created_at
                    &&& r@[k].updated_at == p.updated_at
                },
    {
        let n: usize = self.proofs.len();
        let limit: usize = if n < 100 {
            n
        } else {
            100
        };
        let mut out: Vec<ProofStatusResponse> = Vec::new();
        let mut k: usize = 0;
        while k < limit
            invariant
                k <= limit,
                limit <= n,
                n == self.proofs@.len(),
                out@.len() == k,
                forall|j: int|
                    0 <= j < k ==> {
                        let p = self.proofs@[n - 1 - j];
                        &&& (#[trigger] out@[j]).batch_id@ == p.batch_id@
                        &&& out@[j].status@ == p.status.as_str_spec()
                        &&& out@[j].error == p.error
                        &&& out@[j].created_at == p.created_at
                        &&& out@[j].updated_at == p.updated_at
                    },
            decreases limit - k,
        {
            let p = &self.proofs[n - 1 - k];
            let status_str = String::from_str(p.status.as_str());
            let err = match &p.error {
                Some(e) => Some(e.clone()),
                None => None,
            };
            out.push(
                ProofStatusResponse {
                    batch_id: p.batch_id.clone(),
                    status: status_str,
                    error: err,
                    created_at: p.created_at,
                    updated_at: p.updated_at,
                },
            );
            k = k + 1;
        }
        out
    }

    /// Answers a subscription command with a snapshot update of the row it
    /// asks about, if that row exists.
    pub fn handle_subscribe_command(&self, cmd: &SubscribeCommand) -> (r: Option<WebSocketUpdate>)
        ensures
            (cmd.command@ == "subscribe_transaction"@ && cmd.tx_id is Some) ==> match find_tx(
                self.transactions@,
                cmd.tx_id->0@,
            ) {
                Some(t) => r matches Some(u) && (u matches WebSocketUpdate::Transaction(tu)
                    && tu.tx_id@ == cmd.tx_id->0@ && tu.status == t.status && tu.message is None),
                None => r is None,
            },
            (cmd.command@ == "subscribe_proof"@ && cmd.batch_id is Some) ==> match find_proof(
                self.proofs@,
                cmd.batch_id->0@,
            ) {
                Some(p) => r matches Some(u) && (u matches WebSocketUpdate::Proof(pu)
                    && pu.proof_id@ == cmd.batch_id->0@ && pu.status == p.status && pu.message
                    == p.error && pu.num_transactions == p.num_transactions),
                None => r is None,
            },
            cmd.command@ != "subscribe_transaction"@ && cmd.command@ != "subscribe_proof"@
                ==> r is None,
            cmd.tx_id is None && cmd.batch_id is None ==> r is None,
    {
        proof {
            reveal_strlit("subscribe_transaction");
            reveal_strlit("subscribe_proof");
            assert("subscribe_transaction"@.len() == 21);
            assert("subscribe_proof"@.len() == 15);
        }
        if str_eq(cmd.command.as_str(), "subscribe_transaction") {
            match &cmd.tx_id {
                Some(id) => {
                    match self.find_tx_index(id) {
                        Some(i) => Some(
                            WebSocketUpdate::Transaction(
                                TransactionUpdate {
                                    tx_id: id.clone(),
                                    status: self.transactions[i].status,
                                    message: None,
                                },
                            ),
                        ),
                        None => None,
                    }
                },
                None => None,
            }
        } else if str_eq(cmd.command.as_str(), "subscribe_proof") {
            match &cmd.batch_id {
                Some(id) => {
                    match self.find_proof_index(id) {
                        Some(i) => {
                            let err = match &self.proofs[i].error {
                                Some(e) => Some(e.clone()),
                                None => None,
                            };
                            Some(
                                WebSocketUpdate::Proof(
                                    ProofUpdate {
                                        proof_id: id.clone(),
                                        status: self.proofs[i].status,
                                        message: err,
                                        num_transactions: self.proofs[i].num_transactions,
                                    },
                                ),
                            )
                        },
                        None => None,
                    }
                },
                None => None,
            }
        } else {
            None
        }
    }

    /// The index of a transaction id.
    fn find_tx_index(&self, id: &String) -> (r: Option<usize>)
        ensures
            match r {
                Some(i) => i < self.transactions@.len() && find_tx(self.transactions@, id@)
                    == Some(self.transactions@[i as int]),
                None => find_tx(self.transactions@, id@) is None,
            },
    {
        let n: usize = self.transactions.len();
        let mut i: usize = 0;
        while i < n
            invariant
                i <= n,
                n == self.transactions@.len(),
                forall|j: int| 0 <= j < i ==> (#[trigger] self.transactions@[j]).tx_id@ != id@,
            decreases n - i,
        {
            if self.transactions[i].tx_id == *id {
                proof {
                    lemma_tx_at(self.transactions@, id@, i as int);
                }
                return Some(i);
            }
            i = i + 1;
        }
        proof {
            lemma_tx_none(self.transactions@, id@);
        }
        None
    }

    /// The index of a proof batch id.
    fn find_proof_index(&self, id: &String) -> (r: Option<usize>)
        ensures
            match r {
                Some(i) => i < self.proofs@.len() && find_proof(self.proofs@, id@) == Some(
                    self.proofs@[i as int],
                ),
                None => find_proof(self.proofs@, id@) is None,
            },
    {
        let n: usize = self.proofs.len();
        let mut i: usize = 0;
        while i < n
            invariant
                i <= n,
                n == self.proofs@.len(),
                forall|j: int| 0 <= j < i ==> (#[trigger] self.proofs@[j]).batch_id@ != id@,
            decreases n - i,
        {
            if self.proofs[i].batch_id == *id {
                proof {
                    lemma_proof_at(self.proofs@, id@, i as int);
                }
                return Some(i);
            }
            i = i + 1;
        }
        proof {
            lemma_proof_none(self.proofs@, id@);
        }
        None
    }
}

/// When a transaction id first occurs at `i`, the scan finds that row.
proof fn lemma_tx_at(s: Seq<Transaction>, id: Seq<char>, i: int)
    requires
        0 <= i < s.len(),
        s[i].tx_id@ == id,
        forall|j: int| 0 <= j < i ==> (#[trigger] s[j]).tx_id@ != id,
    ensures
        find_tx(s, id) == Some(s[i]),
    decreases i,
{
    if i > 0 {
        lemma_tx_at(s.subrange(1, s.len() as int), id, i - 1);
    }
}

/// When no transaction carries the id, the scan finds nothing.
proof fn lemma_tx_none(s: Seq<Transaction>, id: Seq<char>)
    requires
        forall|j: int| 0 <= j < s.len() ==> (#[trigger] s[j]).tx_id@ != id,
    ensures
        find_tx(s, id) is None,
    decreases s.len(),
{
    if s.len() > 0 {
        lemma_tx_none(s.subrange(1, s.len() as int), id);
    }
}

/// When a batch id first occurs at `i`, the scan finds that row.
proof fn lemma_proof_at(s: Seq<ProofRecord>, id: Seq<char>, i: int)
    requires
        0 <= i < s.len(),
        s[i].batch_id@ == id,
        forall|j: int| 0 <= j < i ==> (#[trigger] s[j]).batch_id@ != id,
    ensures
        find_proof(s, id) == Some(s[i]),
    decreases i,
{
    if i > 0 {
        lemma_proof_at(s.subrange(1, s.len() as int), id, i - 1);
    }
}

/// When no proof row carries the id, the scan finds nothing.
proof fn lemma_proof_none(s: Seq<ProofRecord>, id: Seq<char>)
    requires
        forall|j: int| 0 <= j < s.len() ==> (#[trigger] s[j]).batch_id@ != id,
    ensures
        find_proof(s, id) is None,
    decreases s.len(),
{
    if s.len() > 0 {
        lemma_proof_none(s.subrange(1, s.len() as int), id);
    }
}


/// The per-address listing is newest first: when the ledger's rows are in
/// timestamp order, the listing's timestamps never increase.
pub proof fn lemma_txs_for_newest_first(s: Seq<Transaction>, addr: Seq<u8>)
    requires
        forall|i: int, j: int|
            0 <= i < j < s.len() ==> (#[trigger] s[i]).timestamp <= (#[trigger] s[j]).timestamp,
    ensures
        forall|i: int, j: int|
            0 <= i < j < txs_for(s, addr).len() ==> (#[trigger] txs_for(s, addr)[i]).timestamp
                >= (#[trigger] txs_for(s, addr)[j]).timestamp,
    decreases s.len(),
{
    if s.len() > 0 {
        let t = s.drop_last();
        lemma_txs_for_newest_first(t, addr);
        lemma_txs_for_members(t, addr);
        let r = txs_for(s, addr);
        if tx_matches(s.last(), addr) {
            assert forall|i: int, j: int| 0 <= i < j < r.len() implies (
            #[trigger] r[i]).timestamp >= (#[trigger] r[j]).timestamp by {
                if i == 0 {
                    assert(r[j] == txs_for(t, addr)[j - 1]);
                } else {
                    assert(r[i] == txs_for(t, addr)[i - 1]);
                    assert(r[j] == txs_for(t, addr)[j - 1]);
                }
            }
        } else {
            assert(r =~= txs_for(t, addr));
        }
    }
}

/// Every listed transaction is a row of the ledger.
proof fn lemma_txs_for_members(s: Seq<Transaction>, addr: Seq<u8>)
    ensures
        forall|i: int|
            0 <= i < txs_for(s, addr).len() ==> exists|k: int|
                0 <= k < s.len() && (#[trigger] txs_for(s, addr)[i]) == s[k],
    decreases s.len(),
{
    if s.len() > 0 {
        let t = s.drop_last();
        lemma_txs_for_members(t, addr);
        let r = txs_for(s, addr);
        assert forall|i: int| 0 <= i < r.len() implies exists|k: int|
            0 <= k < s.len() && (#[trigger] r[i]) == s[k] by {
            if tx_matches(s.last(), addr) {
                if i == 0 {
                    assert(r[0] == s.last());
                    assert(r[0] == s[s.len() - 1]);
                } else {
                    assert(r[i] == txs_for(t, addr)[i - 1]);
                    let k = choose|k: int|
                        0 <= k < t.len() && txs_for(t, addr)[i - 1] == t[k];
                    assert(s[k] == t[k]);
                }
            } else {
                assert(r =~= txs_for(t, addr));
                let k = choose|k: int| 0 <= k < t.len() && txs_for(t, addr)[i] == t[k];
                assert(s[k] == t[k]);
            }
        }
    }
}

} // verus!
