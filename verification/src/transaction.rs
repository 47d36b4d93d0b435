//! Transaction records and their dispute lifecycle.
//!
//! A transaction record is created by a successfully applied deposit or
//! withdrawal and is then mutated in place by dispute, resolve and
//! chargeback.  The record's `type_transaction` doubles as its lifecycle
//! state: `Deposit` and `Withdrawal` are the posted states, `Dispute` means
//! the funds are currently held, and `ChargedBack` is terminal.
//!
//! The module also defines [`tx_sum`], a weighted sum over a ledger (a map
//! from transaction id to record), together with the lemmas the engine
//! needs to track how one insertion or update moves such a sum.

use vstd::prelude::*;

verus! {

#[derive(Debug, Clone, Copy, PartialEq, Eq, Structural)]
pub enum TransactionType {
    Deposit,
    Withdrawal,
    Dispute,
    ChargedBack,
}

/// One ledger record.  `amount` is in ticks (see [`crate::amount`]).
#[derive(Debug, Clone, Copy, PartialEq, Eq, Structural)]
pub struct Transaction {
    pub client_id: u16,
    pub amount: u64,
    pub type_transaction: TransactionType,
}

/// Net contribution of a record to `available + held`: deposits count
/// positively whether posted or under dispute, withdrawals negatively, and
/// charged-back funds have left the account.
pub open spec fn net_weight(t: Transaction) -> int {
    match t.type_transaction {
        TransactionType::Deposit => t.amount as int,
        TransactionType::Dispute => t.amount as int,
        TransactionType::ChargedBack => 0,
        TransactionType::Withdrawal => -(t.amount as int),
    }
}

/// Contribution of a record to the held balance: only records currently
/// under dispute hold funds.
pub open spec fn disputed_weight(t: Transaction) -> int {
    if t.type_transaction is Dispute {
        t.amount as int
    } else {
        0
    }
}

/// Contribution of a posted deposit.
pub open spec fn deposit_weight(t: Transaction) -> int {
    if t.type_transaction is Deposit {
        t.amount as int
    } else {
        0
    }
}

/// Contribution of a posted withdrawal.
pub open spec fn withdrawal_weight(t: Transaction) -> int {
    if t.type_transaction is Withdrawal {
        t.amount as int
    } else {
        0
    }
}

pub open spec fn net_fn() -> spec_fn(Transaction) -> int {
    |t: Transaction| net_weight(t)
}

pub open spec fn disputed_fn() -> spec_fn(Transaction) -> int {
    |t: Transaction| disputed_weight(t)
}

pub open spec fn deposit_fn() -> spec_fn(Transaction) -> int {
    |t: Transaction| deposit_weight(t)
}

pub open spec fn withdrawal_fn() -> spec_fn(Transaction) -> int {
    |t: Transaction| withdrawal_weight(t)
}

/// Net worth of a ledger: what `available + held` must equal.
pub open spec fn net_sum(h: Map<u32, Transaction>) -> int {
    tx_sum(h, net_fn())
}

/// Total amount currently under dispute: what `held` must equal.
pub open spec fn disputed_sum(h: Map<u32, Transaction>) -> int {
    tx_sum(h, disputed_fn())
}

/// Total amount of records in the posted deposit state.
pub open spec fn deposit_sum(h: Map<u32, Transaction>) -> int {
    tx_sum(h, deposit_fn())
}

/// Total amount of records in the posted withdrawal state.
pub open spec fn withdrawal_sum(h: Map<u32, Transaction>) -> int {
    tx_sum(h, withdrawal_fn())
}

/// Sum of `f` over all records of a finite ledger.
pub open spec fn tx_sum(m: Map<u32, Transaction>, f: spec_fn(Transaction) -> int) -> int
    decreases m.dom().len(),
    when m.dom().finite()
{
    if m.dom().len() > 0 {
        let k = m.dom().choose();
        f(m[k]) + tx_sum(m.remove(k), f)
    } else {
        0
    }
}

/// Removing any one record takes exactly its weight out of the sum.
pub proof fn lemma_tx_sum_remove(m: Map<u32, Transaction>, f: spec_fn(Transaction) -> int, k: u32)
    requires
        m.dom().finite(),
        m.dom().contains(k),
    ensures
        tx_sum(m, f) == f(m[k]) + tx_sum(m.remove(k), f),
    decreases m.dom().len(),
{
    let k0 = m.dom().choose();
    if k0 == k {
    } else {
        lemma_tx_sum_remove(m.remove(k0), f, k);
        lemma_tx_sum_remove(m.remove(k), f, k0);
        assert(m.remove(k0).remove(k) =~= m.remove(k).remove(k0));
    }
}

/// Inserting a record moves the sum by its weight, minus the weight of any
/// record it overwrites.
pub proof fn lemma_tx_sum_insert(
    m: Map<u32, Transaction>,
    f: spec_fn(Transaction) -> int,
    k: u32,
    v: Transaction,
)
    requires
        m.dom().finite(),
    ensures
        tx_sum(m.insert(k, v), f) == tx_sum(m, f) + f(v) - if m.dom().contains(k) {
            f(m[k])
        } else {
            0
        },
{
    lemma_tx_sum_remove(m.insert(k, v), f, k);
    if m.dom().contains(k) {
        lemma_tx_sum_remove(m, f, k);
        assert(m.insert(k, v).remove(k) =~= m.remove(k));
    } else {
        assert(m.insert(k, v).remove(k) =~= m);
    }
}

/// A sum whose every summand is zero is zero.
pub proof fn lemma_tx_sum_zero(m: Map<u32, Transaction>, f: spec_fn(Transaction) -> int)
    requires
        m.dom().finite(),
        forall|k: u32| m.dom().contains(k) ==> f(m[k]) == 0,
    ensures
        tx_sum(m, f) == 0,
    decreases m.dom().len(),
{
    if m.dom().len() > 0 {
        let k0 = m.dom().choose();
        lemma_tx_sum_zero(m.remove(k0), f);
    }
}

/// Sums are pointwise linear: if `f` is everywhere `g - h` on the ledger,
/// the sums relate the same way.
pub proof fn lemma_tx_sum_sub(
    m: Map<u32, Transaction>,
    f: spec_fn(Transaction) -> int,
    g: spec_fn(Transaction) -> int,
    h: spec_fn(Transaction) -> int,
)
    requires
        m.dom().finite(),
        forall|k: u32| m.dom().contains(k) ==> f(#[trigger] m[k]) == g(m[k]) - h(m[k]),
    ensures
        tx_sum(m, f) == tx_sum(m, g) - tx_sum(m, h),
    decreases m.dom().len(),
{
    if m.dom().len() > 0 {
        let k0 = m.dom().choose();
        lemma_tx_sum_sub(m.remove(k0), f, g, h);
    }
}

} // verus!
