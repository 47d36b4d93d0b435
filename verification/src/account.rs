//! Per-client account state: available and held balances in ticks, the
//! lock flag, and the account's own transaction history.
//!
//! The credit/debit primitives here are the only way balances are ever
//! mutated.  Each checks its own range condition and leaves the account
//! untouched when it fails, so non-negativity and the [`MAX_TICKS`] cap
//! hold by construction.

use crate::amount::{dec_str_of, to_decimal, MAX_TICKS};
use crate::transaction::Transaction;
use std::collections::HashMap;
use vstd::prelude::*;

verus! {

broadcast use vstd::std_specs::hash::group_hash_axioms;

/// Mathematical model of an account: the balances and the ledger as a map.
pub struct AccountModel {
    pub client_id: u16,
    pub available: u64,
    pub held: u64,
    pub locked: bool,
    pub history: Map<u32, Transaction>,
}

#[derive(Debug, PartialEq, Eq)]
pub struct Account {
    pub client_id: u16,
    pub held_funds: u64,
    pub available_funds: u64,
    pub locked: bool,
    /// This account's ledger, keyed by transaction id.
    pub transaction_history: HashMap<u32, Transaction>,
}

impl View for Account {
    type V = AccountModel;

    open spec fn view(&self) -> AccountModel {
        AccountModel {
            client_id: self.client_id,
            available: self.available_funds,
            held: self.held_funds,
            locked: self.locked,
            history: self.transaction_history@,
        }
    }
}

impl Account {
    /// Both balances are within the representable range.
    pub open spec fn wf(self) -> bool {
        self.available_funds <= MAX_TICKS && self.held_funds <= MAX_TICKS
    }

    /// A fresh, unlocked account with zero balances and an empty history.
    pub fn build(client_id: u16) -> (r: Self)
        ensures
            r.client_id == client_id,
            r.available_funds == 0,
            r.held_funds == 0,
            !r.locked,
            r.transaction_history@ == Map::<u32, Transaction>::empty(),
            r.wf(),
    {
        Self {
            client_id,
            held_funds: 0,
            available_funds: 0,
            locked: false,
            transaction_history: HashMap::new(),
        }
    }

    /// Credits `amount` ticks into `dest`, refusing any result above the
    /// cap; `dest` is unchanged on failure.
    pub fn add(dest: &mut u64, amount: u64) -> (r: bool)
        ensures
            r == (*old(dest) + amount <= MAX_TICKS),
            r ==> *final(dest) == *old(dest) + amount,
            !r ==> *final(dest) == *old(dest),
    {
        if amount > MAX_TICKS || *dest > MAX_TICKS - amount {
            false
        } else {
            *dest = *dest + amount;
            true
        }
    }

    /// Debits `amount` ticks from `dest`, refusing to go below zero;
    /// `dest` is unchanged on failure.
    fn substract(dest: &mut u64, amount: u64) -> (r: bool)
        ensures
            r == (amount <= *old(dest)),
            r ==> *final(dest) == *old(dest) - amount,
            !r ==> *final(dest) == *old(dest),
    {
        if *dest < amount {
            false
        } else {
            *dest = *dest - amount;
            true
        }
    }

    fn add_held_funds(&mut self, amount: u64) -> (r: bool)
        ensures
            r == (old(self).held_funds + amount <= MAX_TICKS),
            r ==> final(self).held_funds == old(self).held_funds + amount,
            !r ==> final(self).held_funds == old(self).held_funds,
            final(self).available_funds == old(self).available_funds,
            final(self).locked == old(self).locked,
            final(self).client_id == old(self).client_id,
            final(self).transaction_history == old(self).transaction_history,
    {
        Self::add(&mut self.held_funds, amount)
    }

    fn substract_held_funds(&mut self, amount: u64) -> (r: bool)
        ensures
            r == (amount <= old(self).held_funds),
            r ==> final(self).held_funds == old(self).held_funds - amount,
            !r ==> final(self).held_funds == old(self).held_funds,
            final(self).available_funds == old(self).available_funds,
            final(self).locked == old(self).locked,
            final(self).client_id == old(self).client_id,
            final(self).transaction_history == old(self).transaction_history,
    {
        Self::substract(&mut self.held_funds, amount)
    }

    /// Moves `amount` from available to held (a dispute taking hold of
    /// funds).  If the held credit fails at the numeric cap, the prior
    /// debit is rolled back, so the account is unchanged on failure.
    pub fn block_funds(&mut self, amount: u64) -> (r: bool)
        ensures
            r == (amount <= old(self).available_funds && old(self).held_funds + amount
                <= MAX_TICKS),
            r ==> final(self).available_funds == old(self).available_funds - amount,
            r ==> final(self).held_funds == old(self).held_funds + amount,
            !r ==> final(self).available_funds == old(self).available_funds,
            !r ==> final(self).held_funds == old(self).held_funds,
            final(self).locked == old(self).locked,
            final(self).client_id == old(self).client_id,
            final(self).transaction_history == old(self).transaction_history,
    {
        if self.substract_funds(amount) {
            if self.add_held_funds(amount) {
                true
            } else {
                // Roll the debit back: this restores the exact old value.
                self.available_funds = self.available_funds + amount;
                false
            }
        } else {
            false
        }
    }

    /// Moves `amount` from held back to available (a dispute resolving).
    /// Symmetric rollback on failure.
    pub fn unblock_funds(&mut self, amount: u64) -> (r: bool)
        ensures
            r == (amount <= old(self).held_funds && old(self).available_funds + amount
                <= MAX_TICKS),
            r ==> final(self).held_funds == old(self).held_funds - amount,
            r ==> final(self).available_funds == old(self).available_funds + amount,
            !r ==> final(self).held_funds == old(self).held_funds,
            !r ==> final(self).available_funds == old(self).available_funds,
            final(self).locked == old(self).locked,
            final(self).client_id == old(self).client_id,
            final(self).transaction_history == old(self).transaction_history,
    {
        if self.substract_held_funds(amount) {
            if self.add_funds(amount) {
                true
            } else {
                // Roll the debit back: this restores the exact old value.
                self.held_funds = self.held_funds + amount;
                false
            }
        } else {
            false
        }
    }

    /// Removes `amount` from held permanently (chargeback).
    pub fn retire_blocked_funds(&mut self, amount: u64) -> (r: bool)
        ensures
            r == (amount <= old(self).held_funds),
            r ==> final(self).held_funds == old(self).held_funds - amount,
            !r ==> final(self).held_funds == old(self).held_funds,
            final(self).available_funds == old(self).available_funds,
            final(self).locked == old(self).locked,
            final(self).client_id == old(self).client_id,
            final(self).transaction_history == old(self).transaction_history,
    {
        self.substract_held_funds(amount)
    }

    /// Credits `amount` into the available balance.
    pub fn add_funds(&mut self, amount: u64) -> (r: bool)
        ensures
            r == (old(self).available_funds + amount <= MAX_TICKS),
            r ==> final(self).available_funds == old(self).available_funds + amount,
            !r ==> final(self).available_funds == old(self).available_funds,
            final(self).held_funds == old(self).held_funds,
            final(self).locked == old(self).locked,
            final(self).client_id == old(self).client_id,
            final(self).transaction_history == old(self).transaction_history,
    {
        Self::add(&mut self.available_funds, amount)
    }

    /// Debits `amount` from the available balance.
    pub fn substract_funds(&mut self, amount: u64) -> (r: bool)
        ensures
            r == (amount <= old(self).available_funds),
            r ==> final(self).available_funds == old(self).available_funds - amount,
            !r ==> final(self).available_funds == old(self).available_funds,
            final(self).held_funds == old(self).held_funds,
            final(self).locked == old(self).locked,
            final(self).client_id == old(self).client_id,
            final(self).transaction_history == old(self).transaction_history,
    {
        Self::substract(&mut self.available_funds, amount)
    }

    /// The available balance as decimal text with four fractional digits.
    pub fn available_funds(&self) -> (r: String)
        ensures
            r@ == dec_str_of(self.available_funds),
    {
        to_decimal(self.available_funds)
    }

    /// The held balance as decimal text with four fractional digits.
    pub fn held_funds(&self) -> (r: String)
        ensures
            r@ == dec_str_of(self.held_funds),
    {
        to_decimal(self.held_funds)
    }

    /// The total balance (available + held) as decimal text.  For any
    /// account the engine maintains, the sum is within range.
    pub fn total_funds(&self) -> (r: String)
        requires
            self.wf(),
        ensures
            r@ == dec_str_of((self.available_funds + self.held_funds) as u64),
    {
        to_decimal(self.available_funds + self.held_funds)
    }

    pub fn locked(&self) -> (r: bool)
        ensures
            r == self.locked,
    {
        self.locked
    }

    /// Irreversibly locks the account.
    pub fn lock(&mut self)
        ensures
            final(self).locked,
            final(self).available_funds == old(self).available_funds,
            final(self).held_funds == old(self).held_funds,
            final(self).client_id == old(self).client_id,
            final(self).transaction_history == old(self).transaction_history,
    {
        self.locked = true;
    }

    pub fn client_id(&self) -> (r: u16)
        ensures
            r == self.client_id,
    {
        self.client_id
    }
}

} // verus!
