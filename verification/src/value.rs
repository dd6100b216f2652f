//! The value of a set of bills, and how it changes as bills come and go.

use vstd::prelude::*;

use crate::bill::{total_amount, Bill};

verus! {

/// Adds the amount of a bill to a sum.
pub open spec fn add_amount() -> spec_fn(nat, Bill) -> nat {
    |sum: nat, b: Bill| sum + b.amount as nat
}

/// The sum of the amounts of a finite set of bills.
pub open spec fn value_of(bills: Set<Bill>) -> nat {
    bills.fold(0nat, add_amount())
}

/// A bill that joins a set adds its amount to the value of the set.
pub proof fn lemma_value_of_insert(bills: Set<Bill>, bill: Bill)
    requires
        bills.finite(),
        !bills.contains(bill),
    ensures
        value_of(bills.insert(bill)) == value_of(bills) + bill.amount,
{
    assert(vstd::set::fold::is_fun_commutative(add_amount()));
    vstd::set::fold::lemma_fold_insert(bills, 0nat, add_amount(), bill);
}

/// A bill that leaves a set takes its amount from the value of the set.
pub proof fn lemma_value_of_remove(bills: Set<Bill>, bill: Bill)
    requires
        bills.finite(),
        bills.contains(bill),
    ensures
        value_of(bills.remove(bill)) + bill.amount == value_of(bills),
{
    lemma_value_of_insert(bills.remove(bill), bill);
}

/// Bills of a set that leave it, each listed once, take the sum of their
/// amounts from the value of the set.
pub proof fn lemma_value_of_difference(bills: Set<Bill>, leaving: Seq<Bill>)
    requires
        bills.finite(),
        leaving.no_duplicates(),
        forall|i: int| 0 <= i < leaving.len() ==> bills.contains(#[trigger] leaving[i]),
    ensures
        value_of(bills.difference(leaving.to_set())) + total_amount(leaving) == value_of(bills),
    decreases leaving.len(),
{
    if leaving.len() == 0 {
        assert(bills.difference(leaving.to_set()) =~= bills);
    } else {
        let rest = leaving.drop_last();
        let last = leaving.last();
        lemma_value_of_difference(bills, rest);
        let kept = bills.difference(rest.to_set());
        lemma_value_of_remove(kept, last);
        assert(leaving =~= rest.push(last));
        rest.lemma_push_to_set_commute(last);
        assert(bills.difference(leaving.to_set()) =~= kept.remove(last));
    }
}

/// Bills that join a set add at most the sum of their amounts to the value
/// of the set, and exactly that sum where they are all new to the set and
/// each is listed once.
pub proof fn lemma_value_of_union(bills: Set<Bill>, joining: Seq<Bill>)
    requires
        bills.finite(),
    ensures
        bills.union(joining.to_set()).finite(),
        value_of(bills.union(joining.to_set())) <= value_of(bills) + total_amount(joining),
        joining.no_duplicates() && (forall|j: int|
            0 <= j < joining.len() ==> !bills.contains(#[trigger] joining[j])) ==> value_of(
            bills.union(joining.to_set()),
        ) == value_of(bills) + total_amount(joining),
    decreases joining.len(),
{
    if joining.len() == 0 {
        assert(bills.union(joining.to_set()) =~= bills);
    } else {
        let rest = joining.drop_last();
        let last = joining.last();
        lemma_value_of_union(bills, rest);
        let grown = bills.union(rest.to_set());
        assert(joining =~= rest.push(last));
        rest.lemma_push_to_set_commute(last);
        assert(bills.union(joining.to_set()) =~= grown.insert(last));
        if grown.contains(last) {
            assert(grown.insert(last) =~= grown);
        } else {
            lemma_value_of_insert(grown, last);
        }
    }
}

} // verus!
