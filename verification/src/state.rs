//! The ledger state: the bills in circulation and the serial counter.

use vstd::prelude::*;
use vstd::std_specs::cmp::PartialEqSpecImpl;
use vstd::std_specs::convert::FromSpecImpl;

use crate::bill::Bill;
use crate::bill_set::BillSet;
use crate::ledger::Ledger;

verus! {

/// The state of a digital cash system: the set of bills in circulation and
/// the serial number that the next minted bill gets.
#[derive(Debug)]
pub struct State {
    /// The set of currently circulating bills
    bills: BillSet,
    /// The next serial number to use when a bill is created.
    next_serial: u64,
}

impl View for State {
    type V = Ledger;

    closed spec fn view(&self) -> Ledger {
        Ledger { bills: self.bills@, next_serial: self.next_serial as nat }
    }
}

impl State {
    /// The contents of a state are finitely many bills and a counter that
    /// fits a `u64`.
    pub proof fn lemma_representable(&self)
        ensures
            self@.representable(),
    {
        self.bills.lemma_finite();
    }

    /// The empty state: no bills, and the counter at zero.
    pub fn new() -> (state: Self)
        ensures
            state@ == Ledger::empty(),
    {
        State { bills: BillSet::new(), next_serial: 0 }
    }

    /// Sets the counter, and leaves the bills as they are.
    pub fn set_serial(&mut self, serial: u64)
        ensures
            final(self)@ == old(self)@.with_serial(serial as nat),
    {
        self.next_serial = serial;
    }

    /// The counter: the serial number that the next minted bill gets.
    pub fn next_serial(&self) -> (serial: u64)
        ensures
            serial == self@.next_serial,
    {
        self.next_serial
    }

    /// The bills in circulation.
    pub fn bills(&self) -> (bills: &BillSet)
        ensures
            bills@ == self@.bills,
    {
        &self.bills
    }

    /// Whether `bill` is in circulation: owner, amount and serial must all
    /// match.
    pub fn contains(&self, bill: &Bill) -> (found: bool)
        ensures
            found == self@.bills.contains(*bill),
    {
        self.bills.contains(bill)
    }

    fn increment_serial(&mut self)
        requires
            old(self)@.next_serial < u64::MAX,
        ensures
            final(self)@ == old(self)@.with_serial(old(self)@.next_serial + 1),
    {
        self.next_serial += 1
    }

    /// Puts `elem` into circulation and advances the counter by one. The
    /// counter advances whatever serial `elem` carries, and also when `elem`
    /// was in circulation already.
    pub fn add_bill(&mut self, elem: Bill)
        requires
            old(self)@.next_serial < u64::MAX,
        ensures
            final(self)@ == old(self)@.insert(elem),
    {
        self.bills.insert(elem);
        self.increment_serial()
    }

    /// Takes `bill` out of circulation. Returns whether it was in
    /// circulation; where it was not, nothing changes.
    pub fn remove(&mut self, bill: &Bill) -> (removed: bool)
        ensures
            final(self)@ == old(self)@.remove(*bill),
            removed == old(self)@.bills.contains(*bill),
    {
        self.bills.remove(bill)
    }

    /// The state that holds the bills of `bills`, with the counter at the
    /// number of bills given. The serials of the bills are not consulted.
    pub fn from_slice(bills: &[Bill]) -> (state: Self)
        ensures
            state@ == Ledger::import(bills@),
    {
        let mut state = State::new();
        let mut i: usize = 0;
        proof {
            Ledger::empty().lemma_insert_all_empty();
            assert(bills@.take(0) =~= Seq::empty());
        }
        while i < bills.len()
            invariant
                i <= bills@.len(),
                state@ == Ledger::import(bills@.take(i as int)),
            decreases bills@.len() - i,
        {
            state.add_bill(bills[i]);
            proof {
                Ledger::empty().lemma_insert_all_push(bills@.take(i as int), bills@[i as int]);
                assert(bills@.take(i + 1) =~= bills@.take(i as int).push(bills@[i as int]));
            }
            i += 1;
        }
        assert(bills@.take(i as int) =~= bills@);
        state
    }
}

impl<const N: usize> From<[Bill; N]> for State {
    /// The state that holds the bills of `value`, with the counter at `N`.
    fn from(value: [Bill; N]) -> (state: Self)
        ensures
            state@ == Ledger::import(value@),
    {
        State::from_slice(value.as_slice())
    }
}

impl<const N: usize> FromSpecImpl<[Bill; N]> for State {
    /// The conversion fixes the bills and the counter of the state that it
    /// gives, not the order in which the state keeps its bills: what it
    /// promises is the `ensures` of `from`, which speaks of the view.
    open spec fn obeys_from_spec() -> bool {
        false
    }

    /// Some state that holds the bills of `v`, with the counter at `N`.
    closed spec fn from_spec(v: [Bill; N]) -> State {
        choose|state: State| state@ == Ledger::import(v@)
    }
}

impl Clone for State {
    /// A copy with the same bills and the same counter.
    fn clone(&self) -> (copy: Self)
        ensures
            copy@ == self@,
    {
        State { bills: self.bills.clone(), next_serial: self.next_serial }
    }
}

impl PartialEq for State {
    /// Two states are equal when they hold the same bills and their counters
    /// agree.
    fn eq(&self, other: &State) -> (equal: bool) {
        self.next_serial == other.next_serial && self.bills == other.bills
    }
}

impl PartialEqSpecImpl for State {
    open spec fn obeys_eq_spec() -> bool {
        true
    }

    open spec fn eq_spec(&self, other: &State) -> bool {
        self@ == other@
    }
}

impl Eq for State {

}

} // verus!
