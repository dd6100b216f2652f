//! The bill store, the checks on a transfer, and what holds across
//! transitions.

use std::collections::HashSet;

use digital_cash::{Bill, BillSet, CashTransaction, DigitalCashSystem, State, User};

fn bill(owner: User, amount: u64, serial: u64) -> Bill {
    Bill {
        owner,
        amount,
        serial,
    }
}

fn value_in_circulation(state: &State) -> u128 {
    DigitalCashSystem::get_total_amount(state.bills().as_slice())
}

fn circulating_serials_are_unique(state: &State) -> bool {
    let serials = DigitalCashSystem::get_serials_set_from_hashset(state.bills());
    serials.len() == state.bills().as_slice().len()
}

#[test]
fn new_state_is_empty() {
    let state = State::new();
    assert_eq!(state.next_serial(), 0);
    assert!(state.bills().as_slice().is_empty());
    assert_eq!(state, State::from([]));
}

#[test]
fn add_bill_advances_counter_by_one() {
    let mut state = State::new();
    state.add_bill(bill(User::Alice, 5, 77));
    assert_eq!(state.next_serial(), 1);
    assert!(state.contains(&bill(User::Alice, 5, 77)));
    state.add_bill(bill(User::Bob, 6, 3));
    assert_eq!(state.next_serial(), 2);
    assert_eq!(state.bills().as_slice().len(), 2);
}

#[test]
fn add_bill_twice_keeps_one_copy_and_counts_both() {
    let mut state = State::new();
    state.add_bill(bill(User::Alice, 5, 0));
    state.add_bill(bill(User::Alice, 5, 0));
    assert_eq!(state.next_serial(), 2);
    assert_eq!(state.bills().as_slice().len(), 1);
}

#[test]
fn contains_matches_all_three_fields() {
    let state = State::from([bill(User::Alice, 20, 0)]);
    assert!(state.contains(&bill(User::Alice, 20, 0)));
    assert!(!state.contains(&bill(User::Bob, 20, 0)));
    assert!(!state.contains(&bill(User::Alice, 21, 0)));
    assert!(!state.contains(&bill(User::Alice, 20, 1)));
}

#[test]
fn remove_takes_out_an_exact_match_only() {
    let mut state = State::from([bill(User::Alice, 20, 0), bill(User::Bob, 7, 1)]);
    assert!(!state.remove(&bill(User::Alice, 20, 1)));
    assert_eq!(state, State::from([bill(User::Alice, 20, 0), bill(User::Bob, 7, 1)]));
    assert!(state.remove(&bill(User::Alice, 20, 0)));
    assert!(!state.contains(&bill(User::Alice, 20, 0)));
    assert!(state.contains(&bill(User::Bob, 7, 1)));
    assert_eq!(state.next_serial(), 2);
}

#[test]
fn set_serial_changes_the_counter_only() {
    let mut state = State::from([bill(User::Alice, 20, 0)]);
    state.set_serial(59);
    assert_eq!(state.next_serial(), 59);
    assert!(state.contains(&bill(User::Alice, 20, 0)));
    state.set_serial(3);
    assert_eq!(state.next_serial(), 3);
}

#[test]
fn bulk_import_counts_bills_and_ignores_their_serials() {
    let state = State::from([bill(User::Charlie, 68, 54), bill(User::Alice, 4000, 58)]);
    assert_eq!(state.next_serial(), 2);
    assert!(state.contains(&bill(User::Charlie, 68, 54)));
    assert!(state.contains(&bill(User::Alice, 4000, 58)));
}

#[test]
fn bulk_import_from_slice_agrees_with_array() {
    let bills = vec![bill(User::Alice, 1, 0), bill(User::Bob, 2, 1), bill(User::Bob, 2, 1)];
    let state = State::from_slice(&bills);
    assert_eq!(state.next_serial(), 3);
    assert_eq!(state.bills().as_slice().len(), 2);
    assert_eq!(
        state,
        State::from([bill(User::Alice, 1, 0), bill(User::Bob, 2, 1), bill(User::Bob, 2, 1)])
    );
}

#[test]
fn equality_ignores_order_of_bills() {
    let a = State::from([bill(User::Alice, 1, 0), bill(User::Bob, 2, 1)]);
    let b = State::from([bill(User::Bob, 2, 1), bill(User::Alice, 1, 0)]);
    assert_eq!(a, b);
}

#[test]
fn equality_compares_bills_and_counter() {
    let a = State::from([bill(User::Alice, 1, 0), bill(User::Bob, 2, 1)]);
    let mut other_counter = a.clone();
    other_counter.set_serial(3);
    assert_ne!(a, other_counter);
    let other_bill = State::from([bill(User::Alice, 1, 0), bill(User::Bob, 3, 1)]);
    assert_ne!(a, other_bill);
    let fewer = {
        let mut s = State::from([bill(User::Alice, 1, 0)]);
        s.set_serial(2);
        s
    };
    assert_ne!(a, fewer);
    assert_ne!(fewer, a);
}

#[test]
fn clone_is_equal_and_independent() {
    let a = State::from([bill(User::Alice, 1, 0)]);
    let mut b = a.clone();
    assert_eq!(a, b);
    b.add_bill(bill(User::Bob, 2, 1));
    assert_ne!(a, b);
    assert_eq!(a.next_serial(), 1);
}

#[test]
fn bill_set_insert_and_remove_report_what_they_did() {
    let mut set = BillSet::new();
    assert!(set.insert(bill(User::Alice, 1, 0)));
    assert!(!set.insert(bill(User::Alice, 1, 0)));
    assert!(set.insert(bill(User::Alice, 1, 1)));
    assert_eq!(set.as_slice().len(), 2);
    assert!(set.remove(&bill(User::Alice, 1, 0)));
    assert!(!set.remove(&bill(User::Alice, 1, 0)));
    assert!(!set.contains(&bill(User::Alice, 1, 0)));
    assert!(set.contains(&bill(User::Alice, 1, 1)));
}

#[test]
fn total_amount_is_exact_beyond_u64() {
    assert_eq!(DigitalCashSystem::get_total_amount(&[]), 0);
    assert_eq!(
        DigitalCashSystem::get_total_amount(&[bill(User::Alice, 40, 0), bill(User::Bob, 2, 1)]),
        42
    );
    assert_eq!(
        DigitalCashSystem::get_total_amount(&[
            bill(User::Alice, u64::MAX, 1),
            bill(User::Alice, 42, 2)
        ]),
        18446744073709551657
    );
}

#[test]
fn empty_receive_check() {
    assert!(DigitalCashSystem::is_empty_receive_fails(&[]));
    assert!(!DigitalCashSystem::is_empty_receive_fails(&[bill(User::Alice, 1, 0)]));
}

#[test]
fn overflow_check_allows_equal_totals() {
    assert!(!DigitalCashSystem::is_overflow_receives_fails(42, 42));
    assert!(!DigitalCashSystem::is_overflow_receives_fails(42, 30));
    assert!(DigitalCashSystem::is_overflow_receives_fails(42, 43));
}

#[test]
fn unavailable_spend_check() {
    let state = State::from([bill(User::Alice, 40, 0), bill(User::Bob, 40, 1)]);
    let circulating = state.bills();
    assert!(!DigitalCashSystem::has_unavailable_spend(&[], circulating));
    assert!(!DigitalCashSystem::has_unavailable_spend(
        &[bill(User::Bob, 40, 1), bill(User::Alice, 40, 0)],
        circulating
    ));
    assert!(DigitalCashSystem::has_unavailable_spend(
        &[bill(User::Alice, 40, 0), bill(User::Alice, 40, 0)],
        circulating
    ));
    assert!(DigitalCashSystem::has_unavailable_spend(
        &[bill(User::Alice, 40, 0), bill(User::Charlie, 40, 1)],
        circulating
    ));
}

#[test]
fn serial_sets_collect_every_serial_once() {
    let bills = [bill(User::Alice, 1, 7), bill(User::Bob, 2, 7), bill(User::Bob, 2, 9)];
    let from_vec = DigitalCashSystem::get_serials_set_from_vec(&bills);
    assert_eq!(from_vec, HashSet::from([7, 9]));
    let state = State::from(bills);
    let from_set = DigitalCashSystem::get_serials_set_from_hashset(state.bills());
    assert_eq!(from_set, HashSet::from([7, 9]));
    assert!(DigitalCashSystem::get_serials_set_from_vec(&[]).is_empty());
}

#[test]
fn incorrect_serial_check() {
    let spent = HashSet::from([0]);
    let existing = HashSet::from([0, 5]);
    let ok = [bill(User::Alice, 1, 1), bill(User::Bob, 1, 2)];
    assert!(!DigitalCashSystem::has_incorrect_serial(&ok, &spent, &existing));
    assert!(!DigitalCashSystem::has_incorrect_serial(&[], &spent, &existing));
    let zero = [bill(User::Alice, 1, 1), bill(User::Bob, 0, 2)];
    assert!(DigitalCashSystem::has_incorrect_serial(&zero, &spent, &existing));
    let reuses_spent = [bill(User::Alice, 1, 0)];
    assert!(DigitalCashSystem::has_incorrect_serial(&reuses_spent, &spent, &HashSet::new()));
    let reuses_existing = [bill(User::Alice, 1, 5)];
    assert!(DigitalCashSystem::has_incorrect_serial(&reuses_existing, &spent, &existing));
    let repeats = [bill(User::Alice, 1, 1), bill(User::Bob, 2, 1)];
    assert!(DigitalCashSystem::has_incorrect_serial(&repeats, &spent, &existing));
}

#[test]
fn mint_of_zero_is_refused() {
    let start = State::from([bill(User::Alice, 20, 0)]);
    let end = DigitalCashSystem::next_state(
        &start,
        &CashTransaction::Mint {
            minter: User::Bob,
            amount: 0,
        },
    );
    assert_eq!(end, start);
    assert_eq!(end.next_serial(), 1);
}

#[test]
fn mint_takes_the_counter_as_serial() {
    let mut start = State::from([bill(User::Alice, 20, 0)]);
    start.set_serial(7);
    let end = DigitalCashSystem::next_state(
        &start,
        &CashTransaction::Mint {
            minter: User::Bob,
            amount: 3,
        },
    );
    assert!(end.contains(&bill(User::Bob, 3, 7)));
    assert!(end.contains(&bill(User::Alice, 20, 0)));
    assert_eq!(end.next_serial(), 8);
    assert_eq!(end.bills().as_slice().len(), 2);
}

#[test]
fn mint_adds_exactly_its_amount() {
    let start = State::from([bill(User::Alice, 20, 0)]);
    let end = DigitalCashSystem::next_state(
        &start,
        &CashTransaction::Mint {
            minter: User::Bob,
            amount: 22,
        },
    );
    assert_eq!(value_in_circulation(&start), 20);
    assert_eq!(value_in_circulation(&end), 42);
}

#[test]
fn empty_receives_leave_the_state_unchanged() {
    let start = State::from([bill(User::Alice, 20, 0)]);
    let end = DigitalCashSystem::next_state(
        &start,
        &CashTransaction::Transfer {
            spends: vec![bill(User::Alice, 20, 0)],
            receives: vec![],
        },
    );
    assert_eq!(end, start);
    assert!(end.contains(&bill(User::Alice, 20, 0)));
    assert_eq!(end.next_serial(), 1);
}

#[test]
fn transfer_may_burn_part_of_what_it_spends() {
    let start = State::from([bill(User::Alice, 42, 0)]);
    let end = DigitalCashSystem::next_state(
        &start,
        &CashTransaction::Transfer {
            spends: vec![bill(User::Alice, 42, 0)],
            receives: vec![bill(User::Bob, 30, 1)],
        },
    );
    let mut expected = State::from([bill(User::Bob, 30, 1)]);
    expected.set_serial(2);
    assert_eq!(end, expected);
    assert_eq!(value_in_circulation(&start), 42);
    assert_eq!(value_in_circulation(&end), 30);
}

#[test]
fn transfer_between_owners_keeps_the_value() {
    let start = State::from([bill(User::Alice, 40, 0), bill(User::Charlie, 42, 1)]);
    let end = DigitalCashSystem::next_state(
        &start,
        &CashTransaction::Transfer {
            spends: vec![bill(User::Charlie, 42, 1), bill(User::Alice, 40, 0)],
            receives: vec![bill(User::Bob, 82, 2)],
        },
    );
    let mut expected = State::from([bill(User::Bob, 82, 2)]);
    expected.set_serial(3);
    assert_eq!(end, expected);
    assert_eq!(value_in_circulation(&end), value_in_circulation(&start));
}

#[test]
fn spend_with_another_owner_is_refused() {
    let start = State::from([bill(User::Alice, 20, 0)]);
    let end = DigitalCashSystem::next_state(
        &start,
        &CashTransaction::Transfer {
            spends: vec![bill(User::Bob, 20, 0)],
            receives: vec![bill(User::Bob, 20, 1)],
        },
    );
    assert_eq!(end, start);
}

#[test]
fn receives_that_share_a_serial_are_refused() {
    let start = State::from([bill(User::Alice, 20, 0)]);
    let end = DigitalCashSystem::next_state(
        &start,
        &CashTransaction::Transfer {
            spends: vec![bill(User::Alice, 20, 0)],
            receives: vec![bill(User::Alice, 10, 1), bill(User::Bob, 10, 1)],
        },
    );
    assert_eq!(end, start);
}

#[test]
fn receive_with_a_circulating_serial_is_refused() {
    let start = State::from([bill(User::Alice, 20, 0), bill(User::Bob, 5, 1)]);
    let end = DigitalCashSystem::next_state(
        &start,
        &CashTransaction::Transfer {
            spends: vec![bill(User::Alice, 20, 0)],
            receives: vec![bill(User::Charlie, 20, 1)],
        },
    );
    assert_eq!(end, start);
}

#[test]
fn new_serials_need_not_follow_the_counter() {
    let start = State::from([bill(User::Alice, 20, 0)]);
    let end = DigitalCashSystem::next_state(
        &start,
        &CashTransaction::Transfer {
            spends: vec![bill(User::Alice, 20, 0)],
            receives: vec![bill(User::Alice, 10, 9), bill(User::Bob, 10, 4)],
        },
    );
    let mut expected = State::from([bill(User::Alice, 10, 9), bill(User::Bob, 10, 4)]);
    expected.set_serial(3);
    assert_eq!(end, expected);
}

#[test]
fn refused_transfer_has_no_partial_effect() {
    let start = State::from([bill(User::Alice, 40, 0), bill(User::Charlie, 42, 1)]);
    let spends = vec![bill(User::Alice, 40, 0), bill(User::Charlie, 42, 1)];
    let receives = vec![bill(User::Bob, 20, 2), bill(User::Bob, 20, 3), bill(User::Alice, 0, 4)];
    let end = DigitalCashSystem::next_state(
        &start,
        &CashTransaction::Transfer {
            spends: spends.clone(),
            receives: receives.clone(),
        },
    );
    assert_eq!(end, start);
    for spent in &spends {
        assert!(end.contains(spent));
    }
    for received in &receives {
        assert!(!end.contains(received));
    }
    assert_eq!(end.next_serial(), start.next_serial());
}

#[test]
fn counter_never_goes_back() {
    let transactions = vec![
        CashTransaction::Mint {
            minter: User::Alice,
            amount: 20,
        },
        CashTransaction::Mint {
            minter: User::Bob,
            amount: 0,
        },
        CashTransaction::Transfer {
            spends: vec![bill(User::Alice, 20, 0)],
            receives: vec![bill(User::Bob, 5, 1), bill(User::Charlie, 5, 2)],
        },
        CashTransaction::Transfer {
            spends: vec![bill(User::Alice, 20, 0)],
            receives: vec![bill(User::Bob, 5, 3)],
        },
        CashTransaction::Transfer {
            spends: vec![bill(User::Bob, 5, 1), bill(User::Charlie, 5, 2)],
            receives: vec![bill(User::Alice, 10, 3)],
        },
    ];
    let expected_counters: [u64; 5] = [1, 1, 3, 3, 4];
    let mut state = State::new();
    for (transaction, expected) in transactions.iter().zip(expected_counters) {
        let next = DigitalCashSystem::next_state(&state, transaction);
        assert!(next.next_serial() >= state.next_serial());
        assert_eq!(next.next_serial(), expected);
        state = next;
    }
    let mut expected = State::from([bill(User::Alice, 10, 3)]);
    expected.set_serial(4);
    assert_eq!(state, expected);
}

#[test]
fn serials_stay_unique_and_below_the_counter() {
    let transactions = vec![
        CashTransaction::Mint {
            minter: User::Alice,
            amount: 20,
        },
        CashTransaction::Mint {
            minter: User::Bob,
            amount: 7,
        },
        CashTransaction::Transfer {
            spends: vec![bill(User::Alice, 20, 0)],
            receives: vec![bill(User::Bob, 5, 2), bill(User::Charlie, 5, 3)],
        },
        CashTransaction::Transfer {
            spends: vec![bill(User::Bob, 7, 1)],
            receives: vec![bill(User::Bob, 7, 3)],
        },
        CashTransaction::Mint {
            minter: User::Charlie,
            amount: 1,
        },
    ];
    let mut state = State::new();
    for transaction in &transactions {
        state = DigitalCashSystem::next_state(&state, transaction);
        assert!(circulating_serials_are_unique(&state));
        for circulating in state.bills().as_slice() {
            assert!(circulating.serial < state.next_serial());
            assert!(circulating.amount > 0);
        }
    }
    assert_eq!(state.next_serial(), 5);
    assert_eq!(state.bills().as_slice().len(), 4);
    assert!(state.contains(&bill(User::Charlie, 1, 4)));
}
