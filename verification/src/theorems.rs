//! What holds of the ledger under its rules: value is conserved, serials
//! stay unique, a refused transaction has no effect, and the counter never
//! goes back.

use vstd::prelude::*;

use crate::bill::total_amount;
use crate::ledger::Ledger;
use crate::rules::{issued, minted_bill, run, step, valid};
use crate::transaction::CashTransaction;
use crate::value::{lemma_value_of_difference, lemma_value_of_insert, lemma_value_of_union};

verus! {

/// Whether the serial of every bill that a transfer issues lies below the
/// counter that the transfer leaves. A mint always issues such a serial.
pub open spec fn issues_below_counter(ledger: Ledger, t: CashTransaction) -> bool {
    match t {
        CashTransaction::Mint { minter, amount } => true,
        CashTransaction::Transfer { spends, receives } => forall|j: int|
            0 <= j < receives@.len() ==> (#[trigger] receives@[j]).serial < ledger.next_serial
                + receives@.len(),
    }
}

/// Whether every transaction of a sequence, applied in turn from `ledger`,
/// issues serials below the counter that it leaves.
pub open spec fn run_issues_below_counter(ledger: Ledger, ts: Seq<CashTransaction>) -> bool
    decreases ts.len(),
{
    ts.len() > 0 ==> run_issues_below_counter(ledger, ts.drop_last()) && issues_below_counter(
        run(ledger, ts.drop_last()),
        ts.last(),
    )
}

/// A transfer never adds to the value in circulation. A valid one issues no
/// more than it consumes, and the value in circulation after it is the value
/// before it, less what it consumes, plus what it issues.
pub proof fn lemma_transfer_conserves_value(ledger: Ledger, t: CashTransaction)
    requires
        ledger.bills.finite(),
        t is Transfer,
    ensures
        step(ledger, t).total_value() <= ledger.total_value(),
        valid(ledger, t) ==> total_amount(t->receives@) <= total_amount(t->spends@),
        valid(ledger, t) ==> step(ledger, t).total_value() + total_amount(t->spends@)
            == ledger.total_value() + total_amount(t->receives@),
{
    if valid(ledger, t) {
        let kept = ledger.bills.difference(t->spends@.to_set());
        lemma_value_of_difference(ledger.bills, t->spends@);
        lemma_value_of_union(kept, t->receives@);
    }
}

/// A valid mint adds exactly the minted amount to the value in circulation,
/// in a ledger whose serials all lie below its counter. A mint that is not
/// valid adds nothing.
pub proof fn lemma_mint_adds_amount(ledger: Ledger, t: CashTransaction)
    requires
        ledger.representable(),
        ledger.serials_issued(),
        t is Mint,
    ensures
        valid(ledger, t) ==> step(ledger, t).total_value() == ledger.total_value() + t->amount,
        !valid(ledger, t) ==> step(ledger, t).total_value() == ledger.total_value(),
{
    if valid(ledger, t) {
        lemma_value_of_insert(ledger.bills, minted_bill(ledger, t->minter, t->amount));
    }
}

/// The bill that a valid mint issues carries the counter as its serial,
/// which lies below the counter that the mint leaves.
pub proof fn lemma_mint_issues_next_serial(ledger: Ledger, t: CashTransaction)
    requires
        ledger.representable(),
        t is Mint,
        valid(ledger, t),
    ensures
        step(ledger, t).bills == ledger.bills.insert(minted_bill(ledger, t->minter, t->amount)),
        minted_bill(ledger, t->minter, t->amount).serial == ledger.next_serial,
        minted_bill(ledger, t->minter, t->amount).serial < step(ledger, t).next_serial,
{
}

/// A transfer keeps the serials in circulation unique.
pub proof fn lemma_transfer_keeps_serials_unique(ledger: Ledger, t: CashTransaction)
    requires
        ledger.serials_unique(),
        t is Transfer,
    ensures
        step(ledger, t).serials_unique(),
{
}

/// A transaction keeps a ledger well formed: serials unique and below the
/// counter, amounts positive. This holds of every mint for which the counter
/// has room, and of every transfer that issues serials below the counter
/// that it leaves.
pub proof fn lemma_step_preserves_well_formed(ledger: Ledger, t: CashTransaction)
    requires
        ledger.well_formed(),
        step(ledger, t).next_serial <= u64::MAX,
        issues_below_counter(ledger, t),
    ensures
        step(ledger, t).well_formed(),
{
    if t is Transfer {
        lemma_transfer_keeps_serials_unique(ledger, t);
    }
}

/// A sequence of transactions keeps a ledger well formed, as long as the
/// counter has room for it and every transfer in it issues serials below the
/// counter that it leaves. In particular no two bills in circulation ever
/// share a serial.
pub proof fn lemma_run_preserves_well_formed(ledger: Ledger, ts: Seq<CashTransaction>)
    requires
        ledger.well_formed(),
        run(ledger, ts).next_serial <= u64::MAX,
        run_issues_below_counter(ledger, ts),
    ensures
        run(ledger, ts).well_formed(),
    decreases ts.len(),
{
    if ts.len() > 0 {
        lemma_step_counter_never_decreases(run(ledger, ts.drop_last()), ts.last());
        lemma_run_preserves_well_formed(ledger, ts.drop_last());
        lemma_step_preserves_well_formed(run(ledger, ts.drop_last()), ts.last());
    }
}

/// A transaction that is not valid leaves the ledger exactly as it was.
pub proof fn lemma_invalid_changes_nothing(ledger: Ledger, t: CashTransaction)
    requires
        !valid(ledger, t),
    ensures
        step(ledger, t) == ledger,
{
}

/// A transfer that is refused has no partial effect: no bill that it lists
/// as consumed has left circulation, no bill that it lists as issued has
/// entered it, and the counter stands where it stood.
pub proof fn lemma_refused_transfer_has_no_effect(ledger: Ledger, t: CashTransaction)
    requires
        t is Transfer,
        !valid(ledger, t),
    ensures
        forall|i: int|
            0 <= i < t->spends@.len() ==> step(ledger, t).bills.contains(#[trigger] t->spends@[i])
                == ledger.bills.contains(t->spends@[i]),
        forall|j: int|
            0 <= j < t->receives@.len() ==> step(ledger, t).bills.contains(
                #[trigger] t->receives@[j],
            ) == ledger.bills.contains(t->receives@[j]),
        step(ledger, t).next_serial == ledger.next_serial,
{
}

/// No transaction makes the counter go back, and a valid one advances it by
/// the number of bills that it issues.
pub proof fn lemma_step_counter_never_decreases(ledger: Ledger, t: CashTransaction)
    ensures
        step(ledger, t).next_serial >= ledger.next_serial,
        valid(ledger, t) ==> step(ledger, t).next_serial == ledger.next_serial + issued(t),
{
}

/// No sequence of transactions makes the counter go back.
pub proof fn lemma_run_counter_never_decreases(ledger: Ledger, ts: Seq<CashTransaction>)
    ensures
        run(ledger, ts).next_serial >= ledger.next_serial,
    decreases ts.len(),
{
    if ts.len() > 0 {
        lemma_run_counter_never_decreases(ledger, ts.drop_last());
        lemma_step_counter_never_decreases(run(ledger, ts.drop_last()), ts.last());
    }
}

} // verus!
