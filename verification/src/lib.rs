//! A bill-based digital cash ledger.
//!
//! The ledger is a set of bills, each with an owner, an amount and a serial
//! number, together with a counter of the bills ever issued. A transaction
//! either mints one new bill or consumes whole bills and issues new ones in
//! their place. [`DigitalCashSystem::next_state`] is the transition function:
//! it applies a valid transaction and leaves the ledger untouched otherwise.

pub mod bill;
pub mod bill_set;
pub mod ledger;
pub mod rules;
pub mod state;
pub mod system;
pub mod theorems;
pub mod transaction;
pub mod value;

pub use bill::{Bill, User};
pub use bill_set::BillSet;
pub use ledger::Ledger;
pub use state::State;
pub use system::DigitalCashSystem;
pub use transaction::CashTransaction;
