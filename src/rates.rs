use vstd::prelude::*;
use crate::uint::modulus;

verus! {

/// The result of a deposit-rate scan over `rates` in index order: the running best
/// starts at 0 with index 0, and a rate replaces it only when strictly higher.
pub open spec fn best_deposit(rates: Seq<nat>) -> (nat, nat)
    decreases rates.len(),
{
    if rates.len() == 0 {
        (0, 0)
    } else {
        let prev = best_deposit(rates.drop_last());
        if rates.last() > prev.0 {
            (rates.last(), (rates.len() - 1) as nat)
        } else {
            prev
        }
    }
}

/// The result of a borrow-rate scan over `rates` in index order: the running best
/// starts at `2^256 - 1` with index 0, and a rate replaces it only when strictly lower.
pub open spec fn best_borrow(rates: Seq<nat>) -> (nat, nat)
    decreases rates.len(),
{
    if rates.len() == 0 {
        ((modulus() - 1) as nat, 0)
    } else {
        let prev = best_borrow(rates.drop_last());
        if rates.last() < prev.0 {
            (rates.last(), (rates.len() - 1) as nat)
        } else {
            prev
        }
    }
}

/// On a nonempty list the deposit scan finds the highest rate, at the lowest
/// index that holds it.
pub proof fn lemma_best_deposit_is_first_maximum(rates: Seq<nat>)
    requires
        rates.len() > 0,
    ensures
        best_deposit(rates).1 < rates.len(),
        rates[best_deposit(rates).1 as int] == best_deposit(rates).0,
        forall|j: int| 0 <= j < rates.len() ==> rates[j] <= best_deposit(rates).0,
        forall|j: int| 0 <= j < best_deposit(rates).1 ==> rates[j] < best_deposit(rates).0,
    decreases rates.len(),
{
    let prefix = rates.drop_last();
    if rates.len() > 1 {
        lemma_best_deposit_is_first_maximum(prefix);
    } else {
        assert(best_deposit(prefix) == best_deposit(Seq::<nat>::empty()));
    }
    assert(forall|j: int| 0 <= j < prefix.len() ==> prefix[j] == rates[j]);
}

/// On a nonempty list of 256-bit values the borrow scan finds the lowest rate,
/// at the lowest index that holds it.
pub proof fn lemma_best_borrow_is_first_minimum(rates: Seq<nat>)
    requires
        rates.len() > 0,
        forall|j: int| 0 <= j < rates.len() ==> rates[j] < modulus(),
    ensures
        best_borrow(rates).1 < rates.len(),
        rates[best_borrow(rates).1 as int] == best_borrow(rates).0,
        forall|j: int| 0 <= j < rates.len() ==> best_borrow(rates).0 <= rates[j],
        forall|j: int| 0 <= j < best_borrow(rates).1 ==> best_borrow(rates).0 < rates[j],
    decreases rates.len(),
{
    let prefix = rates.drop_last();
    if rates.len() > 1 {
        lemma_best_borrow_is_first_minimum(prefix);
    } else {
        assert(best_borrow(prefix) == best_borrow(Seq::<nat>::empty()));
    }
    assert(forall|j: int| 0 <= j < prefix.len() ==> prefix[j] == rates[j]);
}

} // verus!
