//! Sequences that are other sequences with entries left out, and what
//! filtering has to do with them.

use vstd::prelude::*;

verus! {

/// Whether `at` names, in rising order, the places in `all` at which the
/// entries of `picked` stand.
pub open spec fn picks<A>(all: Seq<A>, at: Seq<int>, picked: Seq<A>) -> bool {
    &&& at.len() == picked.len()
    &&& forall|k: int|
        0 <= k < at.len() ==> 0 <= #[trigger] at[k] < all.len() && picked[k] == all[at[k]]
    &&& forall|j: int, k: int| 0 <= j < k < at.len() ==> #[trigger] at[j] < #[trigger] at[k]
}

/// Whether `picked` is `all` with some entries left out: each entry of
/// `picked` is an entry of `all`, they keep the order they have in `all`, and
/// no entry of `all` is taken twice.
pub open spec fn is_selection_of<A>(picked: Seq<A>, all: Seq<A>) -> bool {
    exists|at: Seq<int>| picks(all, at, picked)
}

/// Every entry of a selection is an entry of what it was selected from.
pub proof fn lemma_selection_is_contained<A>(picked: Seq<A>, all: Seq<A>)
    requires
        is_selection_of(picked, all),
    ensures
        forall|i: int| 0 <= i < picked.len() ==> all.contains(#[trigger] picked[i]),
{
    let at = choose|at: Seq<int>| picks(all, at, picked);
    assert forall|i: int| 0 <= i < picked.len() implies all.contains(#[trigger] picked[i]) by {
        assert(all[at[i]] == picked[i]);
    }
}

/// Filtering leaves entries out and does nothing else.
pub proof fn lemma_filter_is_selection<A>(all: Seq<A>, pred: spec_fn(A) -> bool)
    ensures
        is_selection_of(all.filter(pred), all),
    decreases all.len(),
{
    reveal(Seq::filter);
    if all.len() == 0 {
        assert(picks(all, Seq::<int>::empty(), all.filter(pred)));
    } else {
        let front = all.drop_last();
        lemma_filter_is_selection(front, pred);
        let at = choose|at: Seq<int>| picks(front, at, front.filter(pred));
        if pred(all.last()) {
            assert(picks(all, at.push(all.len() - 1), all.filter(pred)));
        } else {
            assert(picks(all, at, all.filter(pred)));
        }
    }
}

/// A filter that every entry passes leaves the sequence as it is.
pub proof fn lemma_filter_keeps_all<A>(all: Seq<A>, pred: spec_fn(A) -> bool)
    requires
        forall|i: int| 0 <= i < all.len() ==> pred(#[trigger] all[i]),
    ensures
        all.filter(pred) == all,
    decreases all.len(),
{
    reveal(Seq::filter);
    if all.len() > 0 {
        let front = all.drop_last();
        assert forall|i: int| 0 <= i < front.len() implies pred(#[trigger] front[i]) by {
            assert(front[i] == all[i]);
        }
        lemma_filter_keeps_all(front, pred);
        assert(pred(all[all.len() - 1]));
        assert(front.push(all.last()) == all);
    }
}

/// Where every entry of `all` that passes `narrow` passes `wide` too, filtering
/// by `narrow` gives the same whether or not `wide` has filtered before.
pub proof fn lemma_filter_after_wider_filter<A>(
    all: Seq<A>,
    narrow: spec_fn(A) -> bool,
    wide: spec_fn(A) -> bool,
)
    requires
        forall|i: int| 0 <= i < all.len() && narrow(#[trigger] all[i]) ==> wide(all[i]),
    ensures
        all.filter(wide).filter(narrow) == all.filter(narrow),
    decreases all.len(),
{
    reveal(Seq::filter);
    if all.len() > 0 {
        let front = all.drop_last();
        let last = all.last();
        assert forall|i: int| 0 <= i < front.len() && narrow(#[trigger] front[i]) implies wide(
            front[i],
        ) by {
            assert(front[i] == all[i]);
        }
        lemma_filter_after_wider_filter(front, narrow, wide);
        assert(last == all[all.len() - 1]);
        if wide(last) {
            front.filter(wide).lemma_filter_push(last, narrow);
        }
    }
}

} // verus!
