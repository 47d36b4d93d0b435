//! A small payments engine: it consumes an ordered stream of client ledger
//! operations (deposits, withdrawals, disputes, resolves, chargebacks) and
//! maintains one account per client, with exact fixed-point balances.
//!
//! Amounts are held as an integer count of ticks (1 tick = 0.0001 of the
//! external decimal unit), so balance arithmetic is exact; the decimal text
//! form is parsed and produced by the codec in [`amount`].

pub mod account;
pub mod amount;
pub mod parser;
pub mod processor;
pub mod transaction;
