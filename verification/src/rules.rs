//! The rules of the ledger: which transactions are valid in which state, and
//! what a transaction makes of a state.

use vstd::prelude::*;

use crate::bill::{serials_of, total_amount, Bill, User};
use crate::ledger::Ledger;
use crate::transaction::CashTransaction;

verus! {

/// A mint is valid when it mints something.
pub open spec fn mint_valid(amount: u64) -> bool {
    amount > 0
}

/// The bill that a mint issues: it carries the counter as its serial.
pub open spec fn minted_bill(ledger: Ledger, minter: User, amount: u64) -> Bill {
    Bill { owner: minter, amount, serial: ledger.next_serial as u64 }
}

/// A transfer must issue at least one bill: one that only consumes is not
/// accepted as a way to burn cash.
pub open spec fn receives_present(receives: Seq<Bill>) -> bool {
    receives.len() > 0
}

/// A transfer issues no more than it consumes. What it consumes beyond what
/// it issues is destroyed.
pub open spec fn value_conserved(spends: Seq<Bill>, receives: Seq<Bill>) -> bool {
    total_amount(receives) <= total_amount(spends)
}

/// Every bill that a transfer consumes is in circulation, with the same
/// owner, amount and serial, and none is listed twice: a bill in circulation
/// answers for one spend only.
pub open spec fn spends_available(circulating: Set<Bill>, spends: Seq<Bill>) -> bool {
    &&& spends.no_duplicates()
    &&& forall|i: int| 0 <= i < spends.len() ==> circulating.contains(#[trigger] spends[i])
}

/// Every bill that a transfer issues is worth something.
pub open spec fn receives_positive(receives: Seq<Bill>) -> bool {
    forall|j: int| 0 <= j < receives.len() ==> (#[trigger] receives[j]).amount > 0
}

/// No two bills of the sequence carry the same serial.
pub open spec fn serials_distinct(bills: Seq<Bill>) -> bool {
    forall|i: int, j: int|
        0 <= i < j < bills.len() ==> (#[trigger] bills[i]).serial != (#[trigger] bills[j]).serial
}

/// No bill of the sequence carries a serial of `taken`.
pub open spec fn serials_avoid(bills: Seq<Bill>, taken: Set<u64>) -> bool {
    forall|j: int| 0 <= j < bills.len() ==> !taken.contains((#[trigger] bills[j]).serial)
}

/// The serial of every bill that a transfer issues is new: no bill that the
/// transfer consumes carries it, no other bill that it issues, and no bill
/// in circulation. A serial is not even reused for the bill that replaces
/// its bearer.
pub open spec fn serials_fresh(ledger: Ledger, spends: Seq<Bill>, receives: Seq<Bill>) -> bool {
    &&& serials_avoid(receives, serials_of(spends))
    &&& serials_distinct(receives)
    &&& serials_avoid(receives, ledger.serials())
}

/// When a transfer is valid in a ledger. All of the checks are made against
/// the ledger as it is before the transfer.
pub open spec fn transfer_valid(ledger: Ledger, spends: Seq<Bill>, receives: Seq<Bill>) -> bool {
    &&& receives_present(receives)
    &&& value_conserved(spends, receives)
    &&& spends_available(ledger.bills, spends)
    &&& receives_positive(receives)
    &&& serials_fresh(ledger, spends, receives)
}

/// When a transaction is valid in a ledger.
pub open spec fn valid(ledger: Ledger, t: CashTransaction) -> bool {
    match t {
        CashTransaction::Mint { minter, amount } => mint_valid(amount),
        CashTransaction::Transfer { spends, receives } => transfer_valid(
            ledger,
            spends@,
            receives@,
        ),
    }
}

/// The number of bills that a transaction issues where it is valid.
pub open spec fn issued(t: CashTransaction) -> nat {
    match t {
        CashTransaction::Mint { minter, amount } => 1,
        CashTransaction::Transfer { spends, receives } => receives@.len(),
    }
}

/// What a valid transaction makes of a ledger. A mint inserts the minted
/// bill. A transfer takes the bills that it consumes out of circulation and
/// then inserts the bills that it issues; each of these keeps the serial
/// that the transaction gave it.
pub open spec fn apply(ledger: Ledger, t: CashTransaction) -> Ledger {
    match t {
        CashTransaction::Mint { minter, amount } => ledger.insert(
            minted_bill(ledger, minter, amount),
        ),
        CashTransaction::Transfer { spends, receives } => ledger.remove_all(spends@).insert_all(
            receives@,
        ),
    }
}

/// The transition function: a valid transaction is applied, and any other
/// leaves the ledger as it is.
pub open spec fn step(ledger: Ledger, t: CashTransaction) -> Ledger {
    if valid(ledger, t) {
        apply(ledger, t)
    } else {
        ledger
    }
}

/// The ledger after a sequence of transactions, each applied to what the
/// ones before it left.
pub open spec fn run(ledger: Ledger, ts: Seq<CashTransaction>) -> Ledger
    decreases ts.len(),
{
    if ts.len() == 0 {
        ledger
    } else {
        step(run(ledger, ts.drop_last()), ts.last())
    }
}

} // verus!
