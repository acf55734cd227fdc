//! Facts on filtered sequences.

use vstd::prelude::*;

verus! {

/// A filter that every element passes keeps the sequence.
pub proof fn lemma_filter_keeps<A>(s: Seq<A>, pred: spec_fn(A) -> bool)
    requires
        forall|i: int| 0 <= i < s.len() ==> pred(#[trigger] s[i]),
    ensures
        s.filter(pred) == s,
    decreases s.len(),
{
    reveal(Seq::filter);
    if s.len() > 0 {
        lemma_filter_keeps(s.drop_last(), pred);
        assert(s.drop_last().push(s.last()) =~= s);
    }
}

/// A filter that no element passes leaves nothing.
pub proof fn lemma_filter_drops<A>(s: Seq<A>, pred: spec_fn(A) -> bool)
    requires
        forall|i: int| 0 <= i < s.len() ==> !pred(#[trigger] s[i]),
    ensures
        s.filter(pred) == Seq::<A>::empty(),
    decreases s.len(),
{
    reveal(Seq::filter);
    if s.len() > 0 {
        lemma_filter_drops(s.drop_last(), pred);
    }
}

/// A filter that only the element at `at` fails removes that element.
pub proof fn lemma_filter_removes<A>(s: Seq<A>, pred: spec_fn(A) -> bool, at: int)
    requires
        0 <= at < s.len(),
        !pred(s[at]),
        forall|i: int| 0 <= i < s.len() && i != at ==> pred(#[trigger] s[i]),
    ensures
        s.filter(pred) == s.remove(at),
{
    let front = s.take(at);
    let middle = seq![s[at]];
    let back = s.skip(at + 1);
    assert(s =~= front + middle + back);
    lemma_filter_keeps(front, pred);
    lemma_filter_drops(middle, pred);
    lemma_filter_keeps(back, pred);
    Seq::filter_distributes_over_add(front + middle, back, pred);
    Seq::filter_distributes_over_add(front, middle, pred);
    assert(front + Seq::<A>::empty() + back =~= s.remove(at));
}

} // verus!
