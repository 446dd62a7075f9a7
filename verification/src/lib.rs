//! A small bank: named accounts that hold exact amounts of money, and the
//! operations that create them and move money into, out of and between them.
//!
//! - `decimal`: the decimal text of amounts, its grammar and its value.
//! - `account`: amounts in minor units, and the accounts that hold them.
//! - `ledger`: what each operation does to a sequence of accounts, and what
//!   holds of the operations.
//! - `banking_system`: the accounts of the bank and the operations on them.

pub mod account;
pub mod banking_system;
pub mod decimal;
pub mod ledger;
