//! Facts about filtered lists.

use vstd::prelude::*;

verus! {

/// Filtering a list with one more item keeps what filtering the list kept,
/// and the item where it passes.
pub proof fn lemma_filter_push<A>(s: Seq<A>, x: A, pred: spec_fn(A) -> bool)
    ensures
        s.push(x).filter(pred) == if pred(x) {
            s.filter(pred).push(x)
        } else {
            s.filter(pred)
        },
{
    reveal(Seq::filter);
    assert(s.push(x).drop_last() =~= s);
}

/// A filtered list holds only what passes the test and was in the list, and
/// all of that.
pub proof fn lemma_filter_members<A>(s: Seq<A>, test: spec_fn(A) -> bool)
    ensures
        forall|k: int|
            0 <= k < s.filter(test).len() ==> test(#[trigger] s.filter(test)[k]) && s.contains(
                s.filter(test)[k],
            ),
        forall|k: int| 0 <= k < s.len() && test(s[k]) ==> s.filter(test).contains(#[trigger] s[k]),
    decreases s.len(),
{
    reveal(Seq::filter);
    if s.len() > 0 {
        let shorter = s.drop_last();
        lemma_filter_members(shorter, test);
        let left = s.filter(test);
        assert forall|k: int| 0 <= k < left.len() implies test(#[trigger] left[k]) && s.contains(
            left[k],
        ) by {
            if k < shorter.filter(test).len() {
                assert(shorter.contains(left[k]));
            }
        }
    }
}

/// Filtering a list keeps each item that passes as often as the list has it.
pub proof fn lemma_filter_multiset<A>(s: Seq<A>, test: spec_fn(A) -> bool)
    ensures
        s.filter(test).to_multiset() =~= s.to_multiset().filter(test),
    decreases s.len(),
{
    broadcast use vstd::seq_lib::group_to_multiset_ensures;

    reveal(Seq::filter);
    if s.len() > 0 {
        let shorter = s.drop_last();
        lemma_filter_multiset(shorter, test);
        assert(s =~= shorter.push(s.last()));
    }
}

} // verus!
