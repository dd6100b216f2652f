//! The mathematical model of a ledger: a set of bills and a counter.

use vstd::prelude::*;

use crate::bill::{serials_in, Bill};
use crate::value::value_of;

verus! {

/// What a ledger state holds: the bills in circulation and the serial
/// counter. The counter is the number of bills ever inserted, unless it was
/// set by hand.
pub struct Ledger {
    pub bills: Set<Bill>,
    pub next_serial: nat,
}

impl Ledger {
    /// No bills in circulation, and none issued so far.
    pub open spec fn empty() -> Ledger {
        Ledger { bills: Set::empty(), next_serial: 0 }
    }

    /// The ledger after `bill` is inserted: the bill is in circulation and
    /// the counter has advanced by one, whatever the serial of the bill.
    pub open spec fn insert(self, bill: Bill) -> Ledger {
        Ledger { bills: self.bills.insert(bill), next_serial: self.next_serial + 1 }
    }

    /// The ledger after `bill` is taken out of circulation. The counter
    /// stays.
    pub open spec fn remove(self, bill: Bill) -> Ledger {
        Ledger { bills: self.bills.remove(bill), next_serial: self.next_serial }
    }

    /// The ledger with its counter set to `serial`.
    pub open spec fn with_serial(self, serial: nat) -> Ledger {
        Ledger { bills: self.bills, next_serial: serial }
    }

    /// The ledger after every bill of `bills` is inserted, one after the
    /// other: the counter advances once per bill of the sequence, also for
    /// one that was in circulation already.
    pub open spec fn insert_all(self, bills: Seq<Bill>) -> Ledger {
        Ledger {
            bills: self.bills.union(bills.to_set()),
            next_serial: self.next_serial + bills.len(),
        }
    }

    /// The ledger after every bill of `bills` is taken out of circulation.
    pub open spec fn remove_all(self, bills: Seq<Bill>) -> Ledger {
        Ledger { bills: self.bills.difference(bills.to_set()), next_serial: self.next_serial }
    }

    /// Inserting no bill changes nothing.
    pub proof fn lemma_insert_all_empty(self)
        ensures
            self.insert_all(Seq::empty()) == self,
    {
        assert(self.insert_all(Seq::empty()).bills =~= self.bills);
    }

    /// Inserting a sequence with one more bill is inserting the sequence and
    /// then that bill.
    pub proof fn lemma_insert_all_push(self, bills: Seq<Bill>, bill: Bill)
        ensures
            self.insert_all(bills.push(bill)) == self.insert_all(bills).insert(bill),
    {
        bills.lemma_push_to_set_commute(bill);
        assert(self.insert_all(bills.push(bill)).bills =~= self.insert_all(bills).insert(
            bill,
        ).bills);
    }

    /// Removing no bill changes nothing.
    pub proof fn lemma_remove_all_empty(self)
        ensures
            self.remove_all(Seq::empty()) == self,
    {
        assert(self.remove_all(Seq::empty()).bills =~= self.bills);
    }

    /// Removing a sequence with one more bill is removing the sequence and
    /// then that bill.
    pub proof fn lemma_remove_all_push(self, bills: Seq<Bill>, bill: Bill)
        ensures
            self.remove_all(bills.push(bill)) == self.remove_all(bills).remove(bill),
    {
        bills.lemma_push_to_set_commute(bill);
        assert(self.remove_all(bills.push(bill)).bills =~= self.remove_all(bills).remove(
            bill,
        ).bills);
    }

    /// The ledger that a bulk import of `bills` into the empty ledger gives.
    /// The counter ends at the length of the sequence; the serials that the
    /// bills carry play no part in it.
    pub open spec fn import(bills: Seq<Bill>) -> Ledger {
        Ledger::empty().insert_all(bills)
    }

    /// The serial numbers in circulation.
    pub open spec fn serials(self) -> Set<u64> {
        serials_in(self.bills)
    }

    /// The sum of the amounts of the bills in circulation.
    pub open spec fn total_value(self) -> nat {
        value_of(self.bills)
    }

    /// No two bills in circulation share a serial.
    pub open spec fn serials_unique(self) -> bool {
        forall|a: Bill, b: Bill|
            #![trigger self.bills.contains(a), self.bills.contains(b)]
            self.bills.contains(a) && self.bills.contains(b) && a.serial == b.serial ==> a == b
    }

    /// Every serial in circulation lies below the counter.
    pub open spec fn serials_issued(self) -> bool {
        forall|b: Bill| #[trigger] self.bills.contains(b) ==> b.serial < self.next_serial
    }

    /// Every bill in circulation is worth something.
    pub open spec fn amounts_positive(self) -> bool {
        forall|b: Bill| #[trigger] self.bills.contains(b) ==> b.amount > 0
    }

    /// The invariant of a ledger in normal operation. A bulk import or a
    /// counter set by hand can break it; transitions preserve it as long as
    /// the serials they bring in lie below the counter they leave.
    pub open spec fn well_formed(self) -> bool {
        &&& self.serials_unique()
        &&& self.serials_issued()
        &&& self.amounts_positive()
    }

    /// What holds of the contents of every state in memory: the bills are
    /// finitely many and the counter fits a `u64`.
    pub open spec fn representable(self) -> bool {
        &&& self.bills.finite()
        &&& self.next_serial <= u64::MAX
    }
}

} // verus!
