//! Facts about filtered sequences.

use vstd::prelude::*;

verus! {

/// Filtering a sequence that ends in `last` filters what comes before it and
/// then keeps or drops `last`.
pub proof fn lemma_filter_push<A>(items: Seq<A>, last: A, keep: spec_fn(A) -> bool)
    ensures
        items.push(last).filter(keep) == if keep(last) {
            items.filter(keep).push(last)
        } else {
            items.filter(keep)
        },
{
    reveal(Seq::filter);
    assert(items.push(last).drop_last() =~= items);
}

/// What a filter keeps was there before, and passes the test.
pub proof fn lemma_filter_members<A>(items: Seq<A>, keep: spec_fn(A) -> bool, item: A)
    requires
        items.filter(keep).contains(item),
    ensures
        items.contains(item),
        keep(item),
    decreases items.len(),
{
    reveal(Seq::filter);
    if items.len() > 0 {
        let front = items.drop_last();
        let kept = front.filter(keep);
        if keep(items.last()) && item == items.last() {
            assert(items[items.len() - 1] == item);
        } else {
            if keep(items.last()) {
                let k = choose|k: int| 0 <= k < kept.push(items.last()).len() && kept.push(
                    items.last(),
                )[k] == item;
                assert(kept[k] == item);
            }
            lemma_filter_members(front, keep, item);
            let p = choose|p: int| 0 <= p < front.len() && front[p] == item;
            assert(items[p] == item);
        }
    }
}

/// A filter brings no item in twice that was there once.
pub proof fn lemma_filter_keeps_distinct<A>(items: Seq<A>, keep: spec_fn(A) -> bool)
    requires
        items.no_duplicates(),
    ensures
        items.filter(keep).no_duplicates(),
    decreases items.len(),
{
    reveal(Seq::filter);
    if items.len() > 0 {
        let front = items.drop_last();
        let kept = front.filter(keep);
        lemma_filter_keeps_distinct(front, keep);
        if keep(items.last()) {
            if kept.contains(items.last()) {
                lemma_filter_members(front, keep, items.last());
                let p = choose|p: int| 0 <= p < front.len() && front[p] == items.last();
                assert(items[p] == items[items.len() - 1]);
            }
            assert forall|i: int, j: int|
                0 <= i < kept.len() + 1 && 0 <= j < kept.len() + 1 && i != j implies kept.push(
                items.last(),
            )[i] != kept.push(items.last())[j] by {
                if i < kept.len() && j < kept.len() {
                } else if i < kept.len() {
                    assert(kept.contains(kept[i]));
                } else {
                    assert(kept.contains(kept[j]));
                }
            }
        }
    }
}

} // verus!
