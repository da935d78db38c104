//! Decides which books of a catalog still have to be fetched.

use vstd::prelude::*;
use crate::api::Book;
use crate::inventory::LocalInventory;

verus! {

/// The books of `catalog` whose name is not in `existing`, in catalog order.
pub open spec fn missing(catalog: Seq<Book>, existing: Set<Seq<char>>) -> Seq<Book> {
    catalog.filter(|book: Book| !existing.contains(book.name@))
}

/// Selects the books that the destination lacks.
pub fn plan(catalog: &Vec<Book>, existing: &LocalInventory) -> (pending: Vec<Book>)
    ensures
        pending@ == missing(catalog@, existing@),
        pending.len() <= catalog.len(),
{
    let mut pending: Vec<Book> = Vec::new();
    let ghost wanted = |book: Book| !existing@.contains(book.name@);
    proof {
        reveal(Seq::filter);
        assert(catalog@.take(0).filter(wanted) =~= Seq::<Book>::empty());
    }
    let mut i: usize = 0;
    while i < catalog.len()
        invariant
            i <= catalog.len(),
            wanted == |book: Book| !existing@.contains(book.name@),
            pending@ == catalog@.take(i as int).filter(wanted),
        decreases catalog.len() - i,
    {
        proof {
            reveal(Seq::filter);
            assert(catalog@.take(i + 1).drop_last() =~= catalog@.take(i as int));
        }
        if !existing.contains(&catalog[i].name) {
            pending.push(catalog[i].clone());
        }
        i += 1;
    }
    proof {
        assert(catalog@.take(i as int) =~= catalog@);
        catalog@.lemma_filter_len(wanted);
    }
    pending
}

/// Whether `sub` is `full` read at the positions `at`, which go strictly
/// upwards: a selection that keeps the order and repeats nothing.
pub open spec fn is_selection(sub: Seq<Book>, full: Seq<Book>, at: Seq<int>) -> bool {
    &&& at.len() == sub.len()
    &&& forall|k: int| 0 <= k < at.len() ==> 0 <= #[trigger] at[k] < full.len() && sub[k] == full[at[k]]
    &&& forall|j: int, k: int| 0 <= j < k < at.len() ==> #[trigger] at[j] < #[trigger] at[k]
}

/// The plan is the catalog read at exactly the positions of the books whose
/// name the destination lacks, each position once and in rising order: no
/// book is invented, dropped, repeated or moved.
pub proof fn lemma_plan_selects_in_order(catalog: Seq<Book>, existing: Set<Seq<char>>) -> (at: Seq<int>)
    ensures
        is_selection(missing(catalog, existing), catalog, at),
        forall|i: int|
            0 <= i < catalog.len() ==> (!existing.contains(#[trigger] catalog[i].name@) <==> at.contains(i)),
    decreases catalog.len(),
{
    reveal(Seq::filter);
    if catalog.len() == 0 {
        Seq::empty()
    } else {
        let front = catalog.drop_last();
        let last = catalog.len() - 1;
        let before = lemma_plan_selects_in_order(front, existing);
        assert forall|i: int| 0 <= i < front.len() implies front[i] == catalog[i] by {}
        if !existing.contains(catalog.last().name@) {
            let at = before.push(last);
            assert forall|i: int| 0 <= i < catalog.len() implies (!existing.contains(
                #[trigger] catalog[i].name@,
            ) <==> at.contains(i)) by {
                if i == last {
                    assert(at[before.len() as int] == last);
                } else {
                    assert(front[i] == catalog[i]);
                    if before.contains(i) {
                        let k = choose|k: int| 0 <= k < before.len() && before[k] == i;
                        assert(at[k] == i);
                    }
                    if at.contains(i) {
                        let k = choose|k: int| 0 <= k < at.len() && at[k] == i;
                        assert(before[k] == i);
                    }
                }
            }
            at
        } else {
            assert forall|i: int| 0 <= i < catalog.len() implies (!existing.contains(
                #[trigger] catalog[i].name@,
            ) <==> before.contains(i)) by {
                if i == last {
                    if before.contains(i) {
                        let k = choose|k: int| 0 <= k < before.len() && before[k] == i;
                        assert(before[k] < front.len());
                    }
                } else {
                    assert(front[i] == catalog[i]);
                }
            }
            before
        }
    }
}

/// Every planned book is a book of the catalog whose name the destination
/// lacks.
pub proof fn lemma_plan_only_missing(catalog: Seq<Book>, existing: Set<Seq<char>>, k: int)
    requires
        0 <= k < missing(catalog, existing).len(),
    ensures
        catalog.contains(missing(catalog, existing)[k]),
        !existing.contains(missing(catalog, existing)[k].name@),
{
    let at = lemma_plan_selects_in_order(catalog, existing);
    assert(at.contains(at[k]));
    assert(catalog[at[k]] == missing(catalog, existing)[k]);
}

/// Every book of the catalog whose name the destination lacks is planned.
pub proof fn lemma_plan_all_missing(catalog: Seq<Book>, existing: Set<Seq<char>>, i: int)
    requires
        0 <= i < catalog.len(),
        !existing.contains(catalog[i].name@),
    ensures
        missing(catalog, existing).contains(catalog[i]),
{
    let at = lemma_plan_selects_in_order(catalog, existing);
    let k = choose|k: int| 0 <= k < at.len() && at[k] == i;
    assert(missing(catalog, existing)[k] == catalog[i]);
}

/// Planning again is empty once the destination holds every name of the
/// catalog: a second run over an unchanged catalog, against a destination
/// that kept what it had and received every planned book, plans nothing.
pub proof fn lemma_replan_is_empty(catalog: Seq<Book>, before: Set<Seq<char>>, after: Set<Seq<char>>)
    requires
        before.subset_of(after),
        forall|k: int|
            0 <= k < missing(catalog, before).len() ==> after.contains(
                #[trigger] missing(catalog, before)[k].name@,
            ),
    ensures
        missing(catalog, after) == Seq::<Book>::empty(),
{
    let planned = missing(catalog, after);
    if planned.len() > 0 {
        lemma_plan_only_missing(catalog, after, 0);
        let i = choose|i: int| 0 <= i < catalog.len() && catalog[i] == planned[0];
        assert(!before.contains(catalog[i].name@));
        lemma_plan_all_missing(catalog, before, i);
        let first = missing(catalog, before);
        let k = choose|k: int| 0 <= k < first.len() && first[k] == catalog[i];
        assert(after.contains(first[k].name@));
    }
    assert(planned =~= Seq::<Book>::empty());
}

} // verus!
