//! The digital cash system: the checks that a transaction must pass, and the
//! transition function.

use std::collections::HashSet;
use vstd::prelude::*;

use crate::bill::{serials_in, serials_of, total_amount, Bill};
use crate::bill_set::BillSet;
use crate::rules::{
    issued, receives_positive, serials_avoid, serials_distinct, spends_available, step, valid,
};
use crate::state::State;
use crate::transaction::CashTransaction;

verus! {

/// This state machine models a multi-user currency system. It tracks a set of bills in
/// circulation, and updates that set when money is transferred.
pub struct DigitalCashSystem;

impl DigitalCashSystem {
    /// Whether a transfer fails because it issues no bill at all.
    pub fn is_empty_receive_fails(receives: &[Bill]) -> (fails: bool)
        ensures
            fails == (receives@.len() == 0),
    {
        receives.len() == 0
    }

    /// Whether a transfer fails because it issues more than it consumes.
    pub fn is_overflow_receives_fails(total_spent: u128, total_received: u128) -> (fails: bool)
        ensures
            fails == (total_received > total_spent),
    {
        total_received > total_spent
    }

    /// Whether a transfer fails because a bill that it consumes is not in
    /// circulation, or is listed a second time.
    pub fn has_unavailable_spend(spends: &[Bill], circulating: &BillSet) -> (fails: bool)
        ensures
            fails == !spends_available(circulating@, spends@),
    {
        let mut i: usize = 0;
        while i < spends.len()
            invariant
                i <= spends@.len(),
                spends_available(circulating@, spends@.take(i as int)),
            decreases spends@.len() - i,
        {
            if !circulating.contains(&spends[i]) {
                return true;
            }
            let mut j: usize = 0;
            while j < i
                invariant
                    j <= i < spends@.len(),
                    forall|k: int| 0 <= k < j ==> spends@[k] != spends@[i as int],
                decreases i - j,
            {
                if spends[j] == spends[i] {
                    return true;
                }
                j += 1;
            }
            i += 1;
        }
        assert(spends@.take(i as int) =~= spends@);
        false
    }

    /// Whether a transfer fails because a bill that it issues is worth
    /// nothing, or carries a serial that is not new: one among
    /// `spends_serials`, one among `existing_bills`, or the serial of a bill
    /// that comes before it in `receives`.
    pub fn has_incorrect_serial(
        receives: &[Bill],
        spends_serials: &HashSet<u64>,
        existing_bills: &HashSet<u64>,
    ) -> (fails: bool)
        ensures
            fails == !(receives_positive(receives@) && serials_avoid(receives@, spends_serials@)
                && serials_distinct(receives@) && serials_avoid(receives@, existing_bills@)),
    {
        let mut new_serials: HashSet<u64> = HashSet::new();
        let mut i: usize = 0;
        while i < receives.len()
            invariant
                i <= receives@.len(),
                new_serials@ == serials_of(receives@.take(i as int)),
                receives_positive(receives@.take(i as int)),
                serials_avoid(receives@.take(i as int), spends_serials@),
                serials_distinct(receives@.take(i as int)),
                serials_avoid(receives@.take(i as int), existing_bills@),
            decreases receives@.len() - i,
        {
            let bill = receives[i];
            if bill.amount == 0 {
                return true;
            }
            if spends_serials.contains(&bill.serial) || new_serials.contains(&bill.serial)
                || existing_bills.contains(&bill.serial) {
                return true;
            }
            new_serials.insert(bill.serial);
            proof {
                lemma_serials_of_push(receives@.take(i as int), bill);
                assert(receives@.take(i + 1) =~= receives@.take(i as int).push(bill));
            }
            i += 1;
        }
        assert(receives@.take(i as int) =~= receives@);
        false
    }

    /// The sum of the amounts of `bills`. A `u128` holds the sum of as many
    /// `u64` amounts as a slice can have.
    pub fn get_total_amount(bills: &[Bill]) -> (total: u128)
        ensures
            total == total_amount(bills@),
    {
        let mut total: u128 = 0;
        let mut i: usize = 0;
        while i < bills.len()
            invariant
                i <= bills@.len(),
                total == total_amount(bills@.take(i as int)),
                total <= i * u64::MAX,
            decreases bills@.len() - i,
        {
            assert(bills@.take(i + 1).drop_last() =~= bills@.take(i as int));
            total = total + bills[i].amount as u128;
            i += 1;
        }
        assert(bills@.take(i as int) =~= bills@);
        total
    }

    /// The transition function. A transaction that is valid in
    /// `starting_state` is applied: a mint puts the minted bill into
    /// circulation, a transfer takes out the bills that it consumes and puts
    /// in the bills that it issues, and the counter advances once for each
    /// bill put in. Any other transaction is refused, and the state returned
    /// equals `starting_state`.
    ///
    /// The counter must have room for the bills that a valid transaction
    /// issues.
    pub fn next_state(starting_state: &State, t: &CashTransaction) -> (next: State)
        requires
            valid(starting_state@, *t) ==> starting_state@.next_serial + issued(*t) <= u64::MAX,
        ensures
            next@ == step(starting_state@, *t),
            !valid(starting_state@, *t) ==> next@ == starting_state@,
            next@.next_serial >= starting_state@.next_serial,
    {
        let mut next_state = starting_state.clone();

        match t {
            CashTransaction::Mint { minter, amount } => {
                if *amount == 0 {
                    return next_state;
                }
                let new_bill = Bill {
                    owner: *minter,
                    amount: *amount,
                    serial: next_state.next_serial(),
                };
                next_state.add_bill(new_bill);
            },
            CashTransaction::Transfer { spends, receives } => {
                if Self::is_empty_receive_fails(receives.as_slice()) {
                    return next_state;
                }
                let total_spent = Self::get_total_amount(spends.as_slice());
                let total_received = Self::get_total_amount(receives.as_slice());

                if Self::is_overflow_receives_fails(total_spent, total_received) {
                    return next_state;
                }
                if Self::has_unavailable_spend(spends.as_slice(), starting_state.bills()) {
                    return next_state;
                }
                let spends_serials = Self::get_serials_set_from_vec(spends.as_slice());
                let existing_serials = Self::get_serials_set_from_hashset(starting_state.bills());

                if Self::has_incorrect_serial(
                    receives.as_slice(),
                    &spends_serials,
                    &existing_serials,
                ) {
                    return next_state;
                }
                let mut i: usize = 0;
                proof {
                    starting_state@.lemma_remove_all_empty();
                    assert(spends@.take(0) =~= Seq::empty());
                }
                while i < spends.len()
                    invariant
                        i <= spends@.len(),
                        next_state@ == starting_state@.remove_all(spends@.take(i as int)),
                    decreases spends@.len() - i,
                {
                    next_state.remove(&spends[i]);
                    proof {
                        starting_state@.lemma_remove_all_push(
                            spends@.take(i as int),
                            spends@[i as int],
                        );
                        assert(spends@.take(i + 1) =~= spends@.take(i as int).push(
                            spends@[i as int],
                        ));
                    }
                    i += 1;
                }
                assert(spends@.take(i as int) =~= spends@);
                let ghost cleared = next_state@;
                let mut j: usize = 0;
                proof {
                    cleared.lemma_insert_all_empty();
                    assert(receives@.take(0) =~= Seq::empty());
                }
                while j < receives.len()
                    invariant
                        j <= receives@.len(),
                        cleared.next_serial + receives@.len() <= u64::MAX,
                        next_state@ == cleared.insert_all(receives@.take(j as int)),
                    decreases receives@.len() - j,
                {
                    next_state.add_bill(receives[j]);
                    proof {
                        cleared.lemma_insert_all_push(
                            receives@.take(j as int),
                            receives@[j as int],
                        );
                        assert(receives@.take(j + 1) =~= receives@.take(j as int).push(
                            receives@[j as int],
                        ));
                    }
                    j += 1;
                }
                assert(receives@.take(j as int) =~= receives@);
            },
        }

        next_state
    }

    /// The serials that the bills of a sequence carry.
    pub fn get_serials_set_from_vec(bills: &[Bill]) -> (serials: HashSet<u64>)
        ensures
            serials@ == serials_of(bills@),
    {
        let mut serials: HashSet<u64> = HashSet::new();
        let mut i: usize = 0;
        while i < bills.len()
            invariant
                i <= bills@.len(),
                serials@ == serials_of(bills@.take(i as int)),
            decreases bills@.len() - i,
        {
            serials.insert(bills[i].serial);
            proof {
                lemma_serials_of_push(bills@.take(i as int), bills@[i as int]);
                assert(bills@.take(i + 1) =~= bills@.take(i as int).push(bills@[i as int]));
            }
            i += 1;
        }
        assert(bills@.take(i as int) =~= bills@);
        serials
    }

    /// The serials that the bills of a set carry.
    pub fn get_serials_set_from_hashset(bills: &BillSet) -> (serials: HashSet<u64>)
        ensures
            serials@ == serials_in(bills@),
    {
        let items = bills.as_slice();
        let serials = Self::get_serials_set_from_vec(items);
        assert(serials@ =~= serials_in(bills@)) by {
            assert forall|serial: u64| serials_of(items@).contains(serial) implies exists|b: Bill|
                #[trigger] bills@.contains(b) && b.serial == serial by {
                let i = choose|i: int| 0 <= i < items@.len() && #[trigger] items@[i].serial == serial;
                assert(bills@.contains(items@[i]));
            }
        }
        serials
    }
}

/// The serials of a sequence with one more bill are the serials of the
/// sequence and the serial of that bill.
proof fn lemma_serials_of_push(bills: Seq<Bill>, bill: Bill)
    ensures
        serials_of(bills.push(bill)) =~= serials_of(bills).insert(bill.serial),
{
    let longer = bills.push(bill);
    assert forall|serial: u64| serials_of(bills).insert(bill.serial).contains(
        serial,
    ) implies serials_of(longer).contains(serial) by {
        if serial == bill.serial {
            assert(longer[bills.len() as int].serial == serial);
        } else {
            let i = choose|i: int| 0 <= i < bills.len() && #[trigger] bills[i].serial == serial;
            assert(longer[i].serial == serial);
        }
    }
}

} // verus!
