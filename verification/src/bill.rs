//! Bills, their owners, and the sums and serial sets of bill sequences.

use vstd::prelude::*;

verus! {

/// The parties that can own a bill. Ownership is a tag on the bill; the
/// ledger does not authenticate it.
#[derive(Clone, Copy, Debug, PartialEq, Eq, Hash, Structural)]
pub enum User {
    Alice,
    Bob,
    Charlie,
}

/// A single bill: an indivisible amount of cash with an owner and a serial
/// number. Two bills are equal when all three fields are equal.
#[derive(Clone, Copy, Debug, PartialEq, Eq, Hash, Structural)]
pub struct Bill {
    pub owner: User,
    pub amount: u64,
    pub serial: u64,
}

/// The sum of the amounts of a sequence of bills.
pub open spec fn total_amount(bills: Seq<Bill>) -> nat
    decreases bills.len(),
{
    if bills.len() == 0 {
        0
    } else {
        total_amount(bills.drop_last()) + bills.last().amount as nat
    }
}

/// The serial numbers that occur in a sequence of bills.
pub open spec fn serials_of(bills: Seq<Bill>) -> Set<u64> {
    Set::new(|serial: u64| exists|i: int| 0 <= i < bills.len() && #[trigger] bills[i].serial == serial)
}

/// The serial numbers that the bills of a set carry.
pub open spec fn serials_in(bills: Set<Bill>) -> Set<u64> {
    Set::new(|serial: u64| exists|b: Bill| #[trigger] bills.contains(b) && b.serial == serial)
}

} // verus!
