//! Facts about sequences.

use vstd::prelude::*;

verus! {

/// Whether a condition holds, as a number.
pub open spec fn one_if(condition: bool) -> nat {
    if condition {
        1
    } else {
        0
    }
}

/// What a filter keeps of one more item.
pub proof fn lemma_filter_step<A>(s: Seq<A>, i: int, keep: spec_fn(A) -> bool)
    requires
        0 <= i < s.len(),
    ensures
        s.take(i + 1).filter(keep) == if keep(s[i]) {
            s.take(i).filter(keep).push(s[i])
        } else {
            s.take(i).filter(keep)
        },
{
    reveal(Seq::filter);
    assert(s.take(i + 1).drop_last() =~= s.take(i));
    assert(s.take(i + 1).last() == s[i]);
}

/// What a filter keeps of all the items that were taken.
pub proof fn lemma_filter_all<A>(s: Seq<A>, keep: spec_fn(A) -> bool)
    ensures
        s.take(s.len() as int).filter(keep) == s.filter(keep),
        s.take(0).filter(keep) == Seq::<A>::empty(),
{
    reveal(Seq::filter);
    assert(s.take(s.len() as int) =~= s);
    assert(s.take(0) =~= Seq::<A>::empty());
}

/// An item that a filter keeps is an item of the sequence that the filter lets pass.
pub proof fn lemma_filter_member<A>(s: Seq<A>, keep: spec_fn(A) -> bool, j: int)
    requires
        0 <= j < s.filter(keep).len(),
    ensures
        keep(s.filter(keep)[j]),
        s.contains(s.filter(keep)[j]),
{
    s.lemma_filter_pred(keep, j);
    s.lemma_filter_contains_rev(keep, s.filter(keep)[j]);
}

/// Some items without repetition, all among others, are no more than those.
pub proof fn lemma_distinct_among<A>(some: Seq<A>, all: Seq<A>)
    requires
        some.no_duplicates(),
        forall|i: int| 0 <= i < some.len() ==> all.contains(#[trigger] some[i]),
    ensures
        some.len() <= all.len(),
{
    broadcast use vstd::seq_lib::seq_to_set_is_finite;

    some.unique_seq_to_set();
    all.lemma_cardinality_of_set();
    assert(some.to_set().subset_of(all.to_set())) by {
        assert forall|a: A| some.to_set().contains(a) implies all.to_set().contains(a) by {
            let i = choose|i: int| 0 <= i < some.len() && some[i] == a;
            assert(all.contains(some[i]));
        }
    }
    vstd::set_lib::lemma_len_subset(some.to_set(), all.to_set());
}

/// What a filter keeps repeats nothing where nothing was repeated.
pub proof fn lemma_filter_distinct<A>(s: Seq<A>, keep: spec_fn(A) -> bool)
    requires
        s.no_duplicates(),
    ensures
        s.filter(keep).no_duplicates(),
    decreases s.len(),
{
    reveal(Seq::filter);
    if s.len() > 0 {
        let fewer = s.drop_last();
        lemma_filter_distinct(fewer, keep);
        if keep(s.last()) {
            let kept = s.filter(keep);
            assert forall|i: int, j: int| 0 <= i < j < kept.len() implies kept[i] != kept[j] by {
                if j == kept.len() - 1 {
                    lemma_filter_member(fewer, keep, i);
                    let k = choose|k: int| 0 <= k < fewer.len() && fewer[k] == kept[i];
                    assert(s[k] == kept[i]);
                }
            }
        }
    }
}

} // verus!
