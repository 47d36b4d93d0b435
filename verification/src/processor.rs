//! The engine loop's state: the map from client id to account and the set
//! of every transaction id ever accepted (for global uniqueness).
//!
//! [`Processor::process_data`] consumes one operation and is specified
//! against the pure transition function [`spec_step`]; every law about the
//! engine is proved over that function and carried to the executable code
//! by `process_data`'s contract.

use crate::account::{Account, AccountModel};
use crate::amount::MAX_TICKS;
use crate::parser::{Operation, TypeOperation};
use crate::processor::executors::spec_execute;
use crate::transaction::{deposit_fn, deposit_sum, disputed_fn, disputed_sum, net_fn, net_sum};
use crate::transaction::{lemma_tx_sum_insert, lemma_tx_sum_sub, lemma_tx_sum_zero};
use crate::transaction::{withdrawal_fn, withdrawal_sum, Transaction};
use std::collections::{HashMap, HashSet};
use vstd::prelude::*;

pub mod executors;

verus! {

broadcast use vstd::std_specs::hash::group_hash_axioms;

/// Outcome of one operation: either something to record in the ledger, or
/// a rejection.  Rejections are expected and non-fatal; they must leave
/// every account exactly as it was.
#[derive(Debug, Clone, Copy, PartialEq, Eq, Structural)]
pub enum OperationStatus {
    /// A deposit or withdrawal was applied; the new record must be added
    /// to the ledger under the operation's transaction id.
    Successful(Transaction),
    /// A dispute, resolve or chargeback went through; the record under
    /// this id must be overwritten with the given state.
    UpdateTransaction(u32, Transaction),
    AccountLocked,
    RepeatedTransaction,
    EmptyAmount,
    NonExistingTx,
    DisputeError,
    Unknown,
}

/// True of every outcome that applies no change.
pub open spec fn is_rejection(st: OperationStatus) -> bool {
    !(st is Successful) && !(st is UpdateTransaction)
}

/// Mathematical model of the engine state.
pub struct ProcModel {
    pub accounts: Map<u16, AccountModel>,
    pub txs: Set<u32>,
}

/// The model of a freshly created account.
pub open spec fn fresh_model(client: u16) -> AccountModel {
    AccountModel {
        client_id: client,
        available: 0,
        held: 0,
        locked: false,
        history: Map::<u32, Transaction>::empty(),
    }
}

/// One step of the engine: the account-creation gate, the lock gate, the
/// global duplicate-id gate, then the executor, whose outcome is applied
/// to the ledger.
pub open spec fn spec_step(m: ProcModel, op: Operation) -> (ProcModel, OperationStatus) {
    let c = op.client;
    if !m.accounts.contains_key(c) && !(op.type_operation is deposit) {
        // only a deposit may create an account
        (m, OperationStatus::Unknown)
    } else if m.accounts.contains_key(c) && m.accounts[c].locked {
        (m, OperationStatus::AccountLocked)
    } else if (op.type_operation is deposit || op.type_operation is withdrawal)
        && m.txs.contains(op.tx) {
        (m, OperationStatus::RepeatedTransaction)
    } else {
        let a0 = if m.accounts.contains_key(c) {
            m.accounts[c]
        } else {
            fresh_model(c)
        };
        let r = spec_execute(a0, op);
        let a1 = r.0;
        match r.1 {
            OperationStatus::Successful(t) => (
                ProcModel {
                    accounts: m.accounts.insert(
                        c,
                        AccountModel { history: a1.history.insert(op.tx, t), ..a1 },
                    ),
                    txs: m.txs.insert(op.tx),
                },
                r.1,
            ),
            OperationStatus::UpdateTransaction(tx, t) => (
                ProcModel {
                    accounts: m.accounts.insert(
                        c,
                        AccountModel { history: a1.history.insert(tx, t), ..a1 },
                    ),
                    txs: m.txs,
                },
                r.1,
            ),
            _ => (ProcModel { accounts: m.accounts.insert(c, a1), txs: m.txs }, r.1),
        }
    }
}

/// Everything that holds of one well-formed account within the engine:
/// balances within range, the held balance exactly the sum of the amounts
/// under dispute, available + held exactly the ledger's net worth, and
/// every record owned by this client.
pub open spec fn acc_inv(c: u16, a: AccountModel) -> bool {
    &&& a.client_id == c
    &&& a.available <= MAX_TICKS
    &&& a.held <= MAX_TICKS
    &&& a.history.dom().finite()
    &&& a.held as int == disputed_sum(a.history)
    &&& a.available + a.held == net_sum(a.history)
    &&& forall|tx: u32|
        a.history.contains_key(tx) ==> (#[trigger] a.history[tx]).client_id == c
}

/// The engine invariant: every account is well formed and every recorded
/// transaction id is in the global set.
pub open spec fn inv(m: ProcModel) -> bool {
    &&& forall|c: u16|
        m.accounts.contains_key(c) ==> acc_inv(c, #[trigger] m.accounts[c])
    &&& forall|c: u16, tx: u32|
        m.accounts.contains_key(c) && #[trigger] m.accounts[c].history.contains_key(tx)
            ==> m.txs.contains(tx)
}

/// One engine step preserves the invariant.
pub proof fn lemma_step_preserves_inv(m: ProcModel, op: Operation)
    requires
        inv(m),
    ensures
        inv(spec_step(m, op).0),
{
    let c = op.client;
    let m1 = spec_step(m, op).0;
    if !m.accounts.contains_key(c) && !(op.type_operation is deposit) {
    } else if m.accounts.contains_key(c) && m.accounts[c].locked {
    } else if (op.type_operation is deposit || op.type_operation is withdrawal)
        && m.txs.contains(op.tx) {
    } else {
        let a0 = if m.accounts.contains_key(c) {
            m.accounts[c]
        } else {
            fresh_model(c)
        };
        if !m.accounts.contains_key(c) {
            lemma_tx_sum_zero(a0.history, disputed_fn());
            lemma_tx_sum_zero(a0.history, net_fn());
        }
        assert(acc_inv(c, a0));
        let r = spec_execute(a0, op);
        let a1 = r.0;
        match r.1 {
            OperationStatus::Successful(t) => {
                let na = AccountModel { history: a1.history.insert(op.tx, t), ..a1 };
                lemma_tx_sum_insert(a1.history, disputed_fn(), op.tx, t);
                lemma_tx_sum_insert(a1.history, net_fn(), op.tx, t);
                assert(acc_inv(c, na));
                assert forall|c2: u16| m1.accounts.contains_key(c2) implies acc_inv(
                    c2,
                    m1.accounts[c2],
                ) by {
                    if c2 != c {
                        assert(m1.accounts[c2] == m.accounts[c2]);
                    }
                }
                assert forall|c2: u16, tx: u32|
                    m1.accounts.contains_key(c2) && #[trigger] m1.accounts[c2].history.contains_key(
                        tx,
                    ) implies m1.txs.contains(tx) by {
                    if c2 != c {
                        assert(m1.accounts[c2] == m.accounts[c2]);
                    }
                }
            },
            OperationStatus::UpdateTransaction(tx, t) => {
                let na = AccountModel { history: a1.history.insert(tx, t), ..a1 };
                lemma_tx_sum_insert(a1.history, disputed_fn(), tx, t);
                lemma_tx_sum_insert(a1.history, net_fn(), tx, t);
                assert(acc_inv(c, na));
                assert forall|c2: u16| m1.accounts.contains_key(c2) implies acc_inv(
                    c2,
                    m1.accounts[c2],
                ) by {
                    if c2 != c {
                        assert(m1.accounts[c2] == m.accounts[c2]);
                    }
                }
                assert forall|c2: u16, tx2: u32|
                    m1.accounts.contains_key(c2) && #[trigger] m1.accounts[c2].history.contains_key(
                        tx2,
                    ) implies m1.txs.contains(tx2) by {
                    if c2 != c {
                        assert(m1.accounts[c2] == m.accounts[c2]);
                    }
                }
            },
            _ => {
                assert(a1 == a0);
                assert forall|c2: u16| m1.accounts.contains_key(c2) implies acc_inv(
                    c2,
                    m1.accounts[c2],
                ) by {
                    if c2 != c {
                        assert(m1.accounts[c2] == m.accounts[c2]);
                    }
                }
                assert forall|c2: u16, tx2: u32|
                    m1.accounts.contains_key(c2) && #[trigger] m1.accounts[c2].history.contains_key(
                        tx2,
                    ) implies m1.txs.contains(tx2) by {
                    if c2 != c {
                        assert(m1.accounts[c2] == m.accounts[c2]);
                    }
                }
            },
        }
    }
}

/// The engine's owned state: the account table, the set of accepted
/// transaction ids, and the list of known clients (for emission).
pub struct Processor {
    database: HashMap<u16, Account>,
    transactions: HashSet<u32>,
    clients: Vec<u16>,
}

impl View for Processor {
    type V = ProcModel;

    closed spec fn view(&self) -> ProcModel {
        ProcModel {
            accounts: self.database@.map_values(|a: Account| a@),
            txs: self.transactions@,
        }
    }
}

impl Processor {
    /// The engine invariant, plus: the client list holds exactly the known
    /// clients, each once.
    pub open spec fn wf(self) -> bool {
        &&& inv(self@)
        &&& self.client_ids_spec().no_duplicates()
        &&& forall|i: int|
            0 <= i < self.client_ids_spec().len() ==> self@.accounts.contains_key(
                #[trigger] self.client_ids_spec()[i],
            )
        &&& forall|c: u16| self@.accounts.contains_key(c) ==> self.client_ids_spec().contains(c)
    }

    /// An engine with no accounts and no history.
    pub fn build() -> (r: Self)
        ensures
            r.wf(),
            r@.accounts == Map::<u16, AccountModel>::empty(),
            r@.txs == Set::<u32>::empty(),
            r.client_ids_spec() == Seq::<u16>::empty(),
    {
        let r = Self {
            database: HashMap::new(),
            transactions: HashSet::new(),
            clients: Vec::new(),
        };
        proof {
            assert(r@.accounts =~= Map::<u16, AccountModel>::empty());
        }
        r
    }

    /// The clients known to the engine, in order of first appearance.
    pub closed spec fn client_ids_spec(self) -> Seq<u16> {
        self.clients@
    }

    /// Consumes one operation and applies its outcome, exactly as
    /// [`spec_step`] says.
    pub fn process_data(&mut self, operation: Operation) -> (r: OperationStatus)
        requires
            old(self).wf(),
        ensures
            final(self).wf(),
            final(self)@ == spec_step(old(self)@, operation).0,
            r == spec_step(old(self)@, operation).1,
            final(self).client_ids_spec() == if !old(self)@.accounts.contains_key(
                operation.client,
            ) && operation.type_operation is deposit && !old(self)@.txs.contains(operation.tx) {
                old(self).client_ids_spec().push(operation.client)
            } else {
                old(self).client_ids_spec()
            },
    {
        proof {
            lemma_step_preserves_inv(old(self)@, operation);
        }
        let client: u16 = operation.client;
        let tx: u32 = operation.tx;
        let account_exists: bool = self.database.contains_key(&client);

        // it is only possible to create an account with a deposit
        if !account_exists && operation.type_operation != TypeOperation::deposit {
            return OperationStatus::Unknown;
        }

        // a locked account accepts nothing further
        if account_exists {
            let is_locked: bool = match self.database.get(&client) {
                Some(a) => a.locked,
                None => false,
            };
            if is_locked {
                return OperationStatus::AccountLocked;
            }
        }

        // a transaction id accepted once is never accepted again
        if (operation.type_operation == TypeOperation::deposit || operation.type_operation
            == TypeOperation::withdrawal) && self.transactions.contains(&tx) {
            return OperationStatus::RepeatedTransaction;
        }

        let mut account: Account = if account_exists {
            match self.database.remove(&client) {
                Some(a) => a,
                // never taken: the key was checked above
                None => Account::build(client),
            }
        } else {
            self.clients.push(client);
            Account::build(client)
        };

        let status: OperationStatus = Self::execute_operation(&mut account, operation);

        match status {
            OperationStatus::Successful(t) => {
                account.transaction_history.insert(tx, t);
                self.transactions.insert(tx);
            },
            OperationStatus::UpdateTransaction(tx2, t) => {
                account.transaction_history.insert(tx2, t);
            },
            _ => {},
        }
        self.database.insert(client, account);

        proof {
            assert(self@.accounts =~= spec_step(old(self)@, operation).0.accounts);
            assert(self@.txs =~= spec_step(old(self)@, operation).0.txs);
            let cl0 = old(self).client_ids_spec();
            let cl1 = self.client_ids_spec();
            if !account_exists {
                assert(!cl0.contains(client));
                assert(cl1 == cl0.push(client));
                assert forall|i: int, j: int| 0 <= i < j < cl1.len() implies cl1[i] != cl1[j] by {
                    if j == cl1.len() - 1 {
                        assert(cl1[i] == cl0[i]);
                    }
                }
            }
            assert forall|i: int| 0 <= i < cl1.len() implies self@.accounts.contains_key(
                #[trigger] cl1[i],
            ) by {
                if i < cl0.len() {
                    assert(old(self)@.accounts.contains_key(cl0[i]));
                }
            }
            assert forall|c2: u16| self@.accounts.contains_key(c2) implies cl1.contains(c2) by {
                if c2 == client {
                    if account_exists {
                        assert(cl0.contains(c2));
                        let w = choose|w: int| 0 <= w < cl0.len() && cl0[w] == c2;
                        assert(cl1[w] == c2);
                    } else {
                        assert(cl1[cl1.len() - 1] == c2);
                    }
                } else {
                    assert(old(self)@.accounts.contains_key(c2));
                    assert(cl0.contains(c2));
                    let w = choose|w: int| 0 <= w < cl0.len() && cl0[w] == c2;
                    assert(cl1[w] == c2);
                }
            }
        }
        status
    }

    /// The known client ids, in order of first appearance.
    pub fn client_ids(&self) -> (r: Vec<u16>)
        ensures
            r@ == self.client_ids_spec(),
    {
        let mut out: Vec<u16> = Vec::new();
        let mut i: usize = 0;
        while i < self.clients.len()
            invariant
                i <= self.clients@.len(),
                out@ =~= self.clients@.take(i as int),
            decreases self.clients@.len() - i,
        {
            out.push(self.clients[i]);
            i = i + 1;
        }
        proof {
            assert(out@ =~= self.clients@);
        }
        out
    }

    /// The account of one client, if the engine knows it.
    pub fn get_account(&self, client: u16) -> (r: Option<&Account>)
        ensures
            match r {
                Some(a) => self@.accounts.contains_key(client) && a@ == self@.accounts[client],
                None => !self@.accounts.contains_key(client),
            },
    {
        self.database.get(&client)
    }
}

/// Conservation: an account none of whose records has ever been disputed
/// or charged back holds nothing, and its available balance is exactly the
/// sum of its accepted deposits minus the sum of its accepted withdrawals,
/// in ticks.
pub proof fn lemma_conservation(m: ProcModel, c: u16)
    requires
        inv(m),
        m.accounts.contains_key(c),
        forall|tx: u32|
            m.accounts[c].history.contains_key(tx) ==> {
                let t = #[trigger] m.accounts[c].history[tx];
                !(t.type_transaction is Dispute) && !(t.type_transaction is ChargedBack)
            },
    ensures
        m.accounts[c].held == 0,
        m.accounts[c].available as int == deposit_sum(m.accounts[c].history) - withdrawal_sum(
            m.accounts[c].history,
        ),
{
    let a = m.accounts[c];
    assert(acc_inv(c, a));
    assert forall|k: u32| a.history.dom().contains(k) implies disputed_fn()(a.history[k]) == 0 by {
        assert(a.history.contains_key(k));
    }
    lemma_tx_sum_zero(a.history, disputed_fn());
    assert forall|k: u32| a.history.dom().contains(k) implies net_fn()(#[trigger] a.history[k])
        == deposit_fn()(a.history[k]) - withdrawal_fn()(a.history[k]) by {
        assert(a.history.contains_key(k));
    }
    lemma_tx_sum_sub(a.history, net_fn(), deposit_fn(), withdrawal_fn());
}

/// Held invariant: at every state the engine maintains, an account's held
/// balance equals the sum of the amounts of its records currently under
/// dispute, exactly in ticks.
pub proof fn lemma_held_invariant(m: ProcModel, c: u16)
    requires
        inv(m),
        m.accounts.contains_key(c),
    ensures
        m.accounts[c].held as int == disputed_sum(m.accounts[c].history),
{
    assert(acc_inv(c, m.accounts[c]));
}

/// Lock finality: an operation addressed to a locked account is rejected
/// with `AccountLocked` and changes nothing, and no operation whatever its
/// client touches the locked account's state.
pub proof fn lemma_lock_finality(m: ProcModel, op: Operation, c: u16)
    requires
        m.accounts.contains_key(c),
        m.accounts[c].locked,
    ensures
        op.client == c ==> spec_step(m, op) == (m, OperationStatus::AccountLocked),
        spec_step(m, op).0.accounts.contains_key(c),
        spec_step(m, op).0.accounts[c] == m.accounts[c],
        spec_step(m, op).0.accounts[c].locked,
{
}

/// Idempotent rejection: a rejected operation leaves every existing
/// account and the set of accepted transaction ids exactly as they were;
/// at most it creates a fresh empty account for a new client's deposit.
pub proof fn lemma_idempotent_rejection(m: ProcModel, op: Operation)
    requires
        is_rejection(spec_step(m, op).1),
    ensures
        spec_step(m, op).0.txs == m.txs,
        forall|c: u16|
            m.accounts.contains_key(c) ==> spec_step(m, op).0.accounts.contains_key(c)
                && spec_step(m, op).0.accounts[c] == #[trigger] m.accounts[c],
        forall|c: u16|
            spec_step(m, op).0.accounts.contains_key(c) && !m.accounts.contains_key(c)
                ==> spec_step(m, op).0.accounts[c] == fresh_model(c),
{
}

/// Dispute-only-on-deposit: a dispute that carries an amount, or that
/// references a withdrawal's id, is always rejected and transitions no
/// record.
pub proof fn lemma_dispute_only_on_deposit(m: ProcModel, op: Operation)
    requires
        op.type_operation is dispute,
        op.amount is Some || (m.accounts.contains_key(op.client)
            && m.accounts[op.client].history.contains_key(op.tx)
            && m.accounts[op.client].history[op.tx].type_transaction is Withdrawal),
    ensures
        is_rejection(spec_step(m, op).1),
        spec_step(m, op).0.txs == m.txs,
        forall|c: u16|
            m.accounts.contains_key(c) ==> spec_step(m, op).0.accounts.contains_key(c)
                && spec_step(m, op).0.accounts[c] == #[trigger] m.accounts[c],
{
    lemma_idempotent_rejection(m, op);
}

/// The engine state after a whole sequence of operations, applied in
/// arrival order.
pub open spec fn spec_run(m: ProcModel, ops: Seq<Operation>) -> ProcModel
    decreases ops.len(),
{
    if ops.len() == 0 {
        m
    } else {
        spec_run(spec_step(m, ops[0]).0, ops.skip(1))
    }
}

/// The engine invariant holds at every state reachable by any sequence of
/// operations.
pub proof fn lemma_run_preserves_inv(m: ProcModel, ops: Seq<Operation>)
    requires
        inv(m),
    ensures
        inv(spec_run(m, ops)),
    decreases ops.len(),
{
    if ops.len() > 0 {
        lemma_step_preserves_inv(m, ops[0]);
        lemma_run_preserves_inv(spec_step(m, ops[0]).0, ops.skip(1));
    }
}

/// Lock finality over a whole run: once an account is locked, no sequence
/// of further operations changes any of its fields.
pub proof fn lemma_lock_finality_run(m: ProcModel, ops: Seq<Operation>, c: u16)
    requires
        m.accounts.contains_key(c),
        m.accounts[c].locked,
    ensures
        spec_run(m, ops).accounts.contains_key(c),
        spec_run(m, ops).accounts[c] == m.accounts[c],
    decreases ops.len(),
{
    if ops.len() > 0 {
        lemma_lock_finality(m, ops[0], c);
        lemma_lock_finality_run(spec_step(m, ops[0]).0, ops.skip(1), c);
    }
}

} // verus!
