//! An unordered collection of bills in which no bill occurs twice.

use vstd::prelude::*;
use vstd::std_specs::cmp::PartialEqSpecImpl;

use crate::bill::Bill;

verus! {

/// A finite set of bills. Membership tests compare all three fields of a
/// bill. The bills are kept in a vector that never holds the same bill twice;
/// the order in which they are kept is not observable.
#[derive(Debug)]
pub struct BillSet {
    items: Vec<Bill>,
}

impl View for BillSet {
    type V = Set<Bill>;

    closed spec fn view(&self) -> Set<Bill> {
        self.items@.to_set()
    }
}

impl BillSet {
    #[verifier::type_invariant]
    spec fn distinct(&self) -> bool {
        self.items@.no_duplicates()
    }

    /// The bills of a set are finitely many.
    pub proof fn lemma_finite(&self)
        ensures
            self@.finite(),
    {
        vstd::seq_lib::seq_to_set_is_finite(self.items@);
    }

    /// The empty set.
    pub fn new() -> (set: Self)
        ensures
            set@ == Set::<Bill>::empty(),
    {
        BillSet { items: Vec::new() }
    }

    /// Where in the vector `bill` is kept, if it is in the set.
    fn position(&self, bill: &Bill) -> (at: Option<usize>)
        ensures
            match at {
                Some(i) => i < self.items@.len() && self.items@[i as int] == *bill,
                None => !self.items@.contains(*bill),
            },
    {
        let mut i: usize = 0;
        while i < self.items.len()
            invariant
                i <= self.items@.len(),
                forall|j: int| 0 <= j < i ==> self.items@[j] != *bill,
            decreases self.items@.len() - i,
        {
            if self.items[i] == *bill {
                return Some(i);
            }
            i += 1;
        }
        None
    }

    /// Whether `bill` is in the set: owner, amount and serial must all match.
    pub fn contains(&self, bill: &Bill) -> (found: bool)
        ensures
            found == self@.contains(*bill),
    {
        self.position(bill).is_some()
    }

    /// Adds `bill` to the set. Returns whether the bill was new; a bill that
    /// is already in the set is not added again.
    pub fn insert(&mut self, bill: Bill) -> (added: bool)
        ensures
            final(self)@ == old(self)@.insert(bill),
            added == !old(self)@.contains(bill),
    {
        proof {
            use_type_invariant(&*self);
        }
        if self.position(&bill).is_some() {
            false
        } else {
            let ghost before = self.items@;
            let mut items: Vec<Bill> = Vec::new();
            std::mem::swap(&mut items, &mut self.items);
            items.push(bill);
            proof {
                before.lemma_push_to_set_commute(bill);
            }
            self.items = items;
            true
        }
    }

    /// Removes `bill` from the set. Returns whether the bill was in the set;
    /// removing a bill that is not in the set changes nothing.
    pub fn remove(&mut self, bill: &Bill) -> (removed: bool)
        ensures
            final(self)@ == old(self)@.remove(*bill),
            removed == old(self)@.contains(*bill),
    {
        proof {
            use_type_invariant(&*self);
        }
        match self.position(bill) {
            Some(i) => {
                let ghost before = self.items@;
                let mut items: Vec<Bill> = Vec::new();
                std::mem::swap(&mut items, &mut self.items);
                items.remove(i);
                proof {
                    lemma_remove_to_set(before, i as int);
                }
                self.items = items;
                true
            },
            None => false,
        }
    }

    /// The bills of the set, each once, in no particular order.
    pub fn as_slice(&self) -> (bills: &[Bill])
        ensures
            bills@.no_duplicates(),
            bills@.to_set() == self@,
    {
        proof {
            use_type_invariant(self);
        }
        self.items.as_slice()
    }
}

/// Removing one position from a sequence without duplicates removes exactly
/// the element at that position from its set of elements, and leaves the
/// sequence without duplicates.
proof fn lemma_remove_to_set(s: Seq<Bill>, i: int)
    requires
        s.no_duplicates(),
        0 <= i < s.len(),
    ensures
        s.remove(i).no_duplicates(),
        s.remove(i).to_set() =~= s.to_set().remove(s[i]),
{
    let r = s.remove(i);
    assert forall|b: Bill| r.to_set().contains(b) == s.to_set().remove(s[i]).contains(b) by {
        if s.contains(b) && b != s[i] {
            let j = choose|j: int| 0 <= j < s.len() && s[j] == b;
            if j < i {
                assert(r[j] == b);
            } else {
                assert(r[j - 1] == b);
            }
        }
    }
}

impl Clone for BillSet {
    /// A copy that holds the same bills.
    fn clone(&self) -> (copy: Self)
        ensures
            copy@ == self@,
    {
        proof {
            use_type_invariant(self);
        }
        let mut items: Vec<Bill> = Vec::new();
        let mut i: usize = 0;
        while i < self.items.len()
            invariant
                i <= self.items@.len(),
                items@ == self.items@.take(i as int),
            decreases self.items@.len() - i,
        {
            items.push(self.items[i]);
            i += 1;
        }
        assert(items@ =~= self.items@);
        BillSet { items }
    }
}

impl PartialEq for BillSet {
    /// Two sets are equal when they hold the same bills.
    fn eq(&self, other: &BillSet) -> (equal: bool) {
        proof {
            use_type_invariant(self);
            use_type_invariant(other);
            self.items@.unique_seq_to_set();
            other.items@.unique_seq_to_set();
            self.lemma_finite();
            other.lemma_finite();
        }
        if self.items.len() != other.items.len() {
            return false;
        }
        let mut i: usize = 0;
        while i < self.items.len()
            invariant
                i <= self.items@.len(),
                forall|j: int| 0 <= j < i ==> other@.contains(self.items@[j]),
            decreases self.items@.len() - i,
        {
            if !other.contains(&self.items[i]) {
                return false;
            }
            i += 1;
        }
        proof {
            vstd::set_lib::lemma_subset_equality(self@, other@);
        }
        true
    }
}

impl PartialEqSpecImpl for BillSet {
    open spec fn obeys_eq_spec() -> bool {
        true
    }

    open spec fn eq_spec(&self, other: &BillSet) -> bool {
        self@ == other@
    }
}

impl Eq for BillSet {

}

} // verus!
