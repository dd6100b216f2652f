//! The transactions of a digital cash system.

use vstd::prelude::*;

use crate::bill::{Bill, User};

verus! {

/// The state transitions that users can make in a digital cash system
pub enum CashTransaction {
    /// Mint a single new bill owned by the minter
    Mint { minter: User, amount: u64 },
    /// Send some money from some users to other users. The money does not all need
    /// to come from the same user, and it does not all need to go to the same user.
    /// The total amount received must be less than or equal to the amount spent.
    /// The discrepancy between the amount sent and received is destroyed. Therefore,
    /// no dedicated burn transaction is required.
    Transfer { spends: Vec<Bill>, receives: Vec<Bill> },
}

} // verus!
