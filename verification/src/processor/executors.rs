//! The operation executor: a pure decision function over one account.
//!
//! Each handler is specified against a spec-level twin (`spec_deposit`,
//! `spec_dispute`, ...) that maps an account model and an operation to the
//! next account model and an outcome.  The executor never touches the
//! ledger itself: a `Successful` or `UpdateTransaction` outcome tells the
//! engine loop what to write there.

use crate::account::{Account, AccountModel};
use crate::amount::MAX_TICKS;
use crate::parser::{Operation, TypeOperation};
use crate::processor::{OperationStatus, Processor};
use crate::transaction::{Transaction, TransactionType};
use vstd::prelude::*;

verus! {

broadcast use vstd::std_specs::hash::group_hash_axioms;

/// A deposit posts a new record and credits the available balance; it is
/// refused on a reused id, a missing amount, or at the numeric cap.
pub open spec fn spec_deposit(a: AccountModel, op: Operation) -> (AccountModel, OperationStatus) {
    if a.history.contains_key(op.tx) {
        (a, OperationStatus::RepeatedTransaction)
    } else {
        match op.amount {
            None => (a, OperationStatus::EmptyAmount),
            Some(amt) => if a.available + amt <= MAX_TICKS {
                (
                    AccountModel { available: (a.available + amt) as u64, ..a },
                    OperationStatus::Successful(
                        Transaction {
                            client_id: a.client_id,
                            amount: amt,
                            type_transaction: TransactionType::Deposit,
                        },
                    ),
                )
            } else {
                (a, OperationStatus::Unknown)
            },
        }
    }
}

/// A withdrawal posts a new record and debits the available balance; it is
/// refused on a reused id, a missing amount, or insufficient funds.
pub open spec fn spec_withdrawal(a: AccountModel, op: Operation) -> (
    AccountModel,
    OperationStatus,
) {
    if a.history.contains_key(op.tx) {
        (a, OperationStatus::RepeatedTransaction)
    } else {
        match op.amount {
            None => (a, OperationStatus::EmptyAmount),
            Some(amt) => if amt <= a.available {
                (
                    AccountModel { available: (a.available - amt) as u64, ..a },
                    OperationStatus::Successful(
                        Transaction {
                            client_id: a.client_id,
                            amount: amt,
                            type_transaction: TransactionType::Withdrawal,
                        },
                    ),
                )
            } else {
                (a, OperationStatus::Unknown)
            },
        }
    }
}

/// A dispute may target only a posted deposit, must carry no amount, and
/// moves the record's amount from available to held.
pub open spec fn spec_dispute(a: AccountModel, op: Operation) -> (AccountModel, OperationStatus) {
    if !a.history.contains_key(op.tx) {
        (a, OperationStatus::NonExistingTx)
    } else {
        let t = a.history[op.tx];
        if !(t.type_transaction is Deposit) || op.amount is Some {
            (a, OperationStatus::DisputeError)
        } else if t.amount <= a.available && a.held + t.amount <= MAX_TICKS {
            (
                AccountModel {
                    available: (a.available - t.amount) as u64,
                    held: (a.held + t.amount) as u64,
                    ..a
                },
                OperationStatus::UpdateTransaction(
                    op.tx,
                    Transaction {
                        client_id: t.client_id,
                        amount: t.amount,
                        type_transaction: TransactionType::Dispute,
                    },
                ),
            )
        } else {
            (a, OperationStatus::Unknown)
        }
    }
}

/// A resolve may target only a disputed record, must carry no amount, and
/// releases the held funds back to available; the record returns to its
/// plain deposit state.
pub open spec fn spec_resolve(a: AccountModel, op: Operation) -> (AccountModel, OperationStatus) {
    if !a.history.contains_key(op.tx) {
        (a, OperationStatus::NonExistingTx)
    } else {
        let t = a.history[op.tx];
        if !(t.type_transaction is Dispute) || op.amount is Some {
            (a, OperationStatus::DisputeError)
        } else if t.amount <= a.held && a.available + t.amount <= MAX_TICKS {
            (
                AccountModel {
                    available: (a.available + t.amount) as u64,
                    held: (a.held - t.amount) as u64,
                    ..a
                },
                OperationStatus::UpdateTransaction(
                    op.tx,
                    Transaction {
                        client_id: t.client_id,
                        amount: t.amount,
                        type_transaction: TransactionType::Deposit,
                    },
                ),
            )
        } else {
            (a, OperationStatus::DisputeError)
        }
    }
}

/// A chargeback may target only a disputed record, must carry no amount;
/// the held funds leave the account for good and the account is locked.
pub open spec fn spec_chargeback(a: AccountModel, op: Operation) -> (
    AccountModel,
    OperationStatus,
) {
    if !a.history.contains_key(op.tx) {
        (a, OperationStatus::NonExistingTx)
    } else {
        let t = a.history[op.tx];
        if !(t.type_transaction is Dispute) || op.amount is Some {
            (a, OperationStatus::DisputeError)
        } else if t.amount <= a.held {
            (
                AccountModel { held: (a.held - t.amount) as u64, locked: true, ..a },
                OperationStatus::UpdateTransaction(
                    op.tx,
                    Transaction {
                        client_id: t.client_id,
                        amount: t.amount,
                        type_transaction: TransactionType::ChargedBack,
                    },
                ),
            )
        } else {
            (a, OperationStatus::DisputeError)
        }
    }
}

/// The executor: a locked account refuses every operation; otherwise the
/// operation is routed by kind.
pub open spec fn spec_execute(a: AccountModel, op: Operation) -> (AccountModel, OperationStatus) {
    if a.locked {
        (a, OperationStatus::AccountLocked)
    } else {
        match op.type_operation {
            TypeOperation::deposit => spec_deposit(a, op),
            TypeOperation::withdrawal => spec_withdrawal(a, op),
            TypeOperation::dispute => spec_dispute(a, op),
            TypeOperation::resolve => spec_resolve(a, op),
            TypeOperation::chargeback => spec_chargeback(a, op),
        }
    }
}

impl Processor {
    fn execute_deposit(account: &mut Account, operation: Operation) -> (r: OperationStatus)
        ensures
            final(account)@ == spec_deposit(old(account)@, operation).0,
            r == spec_deposit(old(account)@, operation).1,
    {
        if account.transaction_history.contains_key(&operation.tx) {
            return OperationStatus::RepeatedTransaction;
        }
        match operation.amount {
            Some(amount) => {
                if account.add_funds(amount) {
                    OperationStatus::Successful(
                        Transaction {
                            client_id: account.client_id(),
                            amount,
                            type_transaction: TransactionType::Deposit,
                        },
                    )
                } else {
                    OperationStatus::Unknown
                }
            },
            None => OperationStatus::EmptyAmount,
        }
    }

    fn execute_withdrawal(account: &mut Account, operation: Operation) -> (r: OperationStatus)
        ensures
            final(account)@ == spec_withdrawal(old(account)@, operation).0,
            r == spec_withdrawal(old(account)@, operation).1,
    {
        if account.transaction_history.contains_key(&operation.tx) {
            return OperationStatus::RepeatedTransaction;
        }
        match operation.amount {
            Some(amount) => {
                if account.substract_funds(amount) {
                    OperationStatus::Successful(
                        Transaction {
                            client_id: account.client_id(),
                            amount,
                            type_transaction: TransactionType::Withdrawal,
                        },
                    )
                } else {
                    OperationStatus::Unknown
                }
            },
            None => OperationStatus::EmptyAmount,
        }
    }

    fn execute_dispute(account: &mut Account, operation: Operation) -> (r: OperationStatus)
        ensures
            final(account)@ == spec_dispute(old(account)@, operation).0,
            r == spec_dispute(old(account)@, operation).1,
    {
        let looked_up: Option<Transaction> = match account.transaction_history.get(&operation.tx) {
            Some(t) => Some(*t),
            None => None,
        };
        match looked_up {
            None => OperationStatus::NonExistingTx,
            Some(transaction) => {
                if transaction.type_transaction != TransactionType::Deposit
                    || operation.amount.is_some() {
                    return OperationStatus::DisputeError;
                }
                if !account.block_funds(transaction.amount) {
                    return OperationStatus::Unknown;
                }
                OperationStatus::UpdateTransaction(
                    operation.tx,
                    Transaction {
                        client_id: transaction.client_id,
                        amount: transaction.amount,
                        type_transaction: TransactionType::Dispute,
                    },
                )
            },
        }
    }

    fn execute_resolve(account: &mut Account, operation: Operation) -> (r: OperationStatus)
        ensures
            final(account)@ == spec_resolve(old(account)@, operation).0,
            r == spec_resolve(old(account)@, operation).1,
    {
        let looked_up: Option<Transaction> = match account.transaction_history.get(&operation.tx) {
            Some(t) => Some(*t),
            None => None,
        };
        match looked_up {
            None => OperationStatus::NonExistingTx,
            Some(transaction) => {
                if transaction.type_transaction != TransactionType::Dispute
                    || operation.amount.is_some() {
                    return OperationStatus::DisputeError;
                }
                if !account.unblock_funds(transaction.amount) {
                    return OperationStatus::DisputeError;
                }
                OperationStatus::UpdateTransaction(
                    operation.tx,
                    Transaction {
                        client_id: transaction.client_id,
                        amount: transaction.amount,
                        // no longer disputed: back to its plain deposit state
                        type_transaction: TransactionType::Deposit,
                    },
                )
            },
        }
    }

    fn execute_chargeback(account: &mut Account, operation: Operation) -> (r: OperationStatus)
        ensures
            final(account)@ == spec_chargeback(old(account)@, operation).0,
            r == spec_chargeback(old(account)@, operation).1,
    {
        let looked_up: Option<Transaction> = match account.transaction_history.get(&operation.tx) {
            Some(t) => Some(*t),
            None => None,
        };
        match looked_up {
            None => OperationStatus::NonExistingTx,
            Some(transaction) => {
                if transaction.type_transaction != TransactionType::Dispute
                    || operation.amount.is_some() {
                    return OperationStatus::DisputeError;
                }
                if !account.retire_blocked_funds(transaction.amount) {
                    return OperationStatus::DisputeError;
                }
                account.lock();
                OperationStatus::UpdateTransaction(
                    operation.tx,
                    Transaction {
                        client_id: transaction.client_id,
                        amount: transaction.amount,
                        type_transaction: TransactionType::ChargedBack,
                    },
                )
            },
        }
    }

    /// Dispatches one operation against one account, without touching the
    /// ledger; the outcome says what the engine loop should record.
    pub fn execute_operation(account: &mut Account, operation: Operation) -> (r: OperationStatus)
        ensures
            final(account)@ == spec_execute(old(account)@, operation).0,
            r == spec_execute(old(account)@, operation).1,
    {
        // a locked account accepts no further operations of any kind
        if account.locked {
            return OperationStatus::AccountLocked;
        }
        match operation.type_operation {
            TypeOperation::deposit => Self::execute_deposit(account, operation),
            TypeOperation::withdrawal => Self::execute_withdrawal(account, operation),
            TypeOperation::dispute => Self::execute_dispute(account, operation),
            TypeOperation::resolve => Self::execute_resolve(account, operation),
            TypeOperation::chargeback => Self::execute_chargeback(account, operation),
        }
    }
}

} // verus!
