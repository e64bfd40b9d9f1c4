//! A few facts about sequences, each proved on its own, so that the proofs
//! that put texts together need not reason about single elements.
use vstd::prelude::*;

verus! {

/// Concatenation is associative.
pub proof fn lemma_concat_assoc<A>(a: Seq<A>, b: Seq<A>, c: Seq<A>)
    ensures
        (a + b) + c == a + (b + c),
{
    assert((a + b) + c =~= a + (b + c));
}

/// The empty sequence adds nothing.
pub proof fn lemma_concat_empty<A>(a: Seq<A>)
    ensures
        a + Seq::<A>::empty() == a,
        Seq::<A>::empty() + a == a,
{
    assert(a + Seq::<A>::empty() =~= a);
    assert(Seq::<A>::empty() + a =~= a);
}

/// The first `k + 1` elements are the first `k` and the one at `k`.
pub proof fn lemma_take_step<A>(s: Seq<A>, k: int)
    requires
        0 <= k < s.len(),
    ensures
        s.take(k + 1).len() == k + 1,
        s.take(k + 1).drop_last() == s.take(k),
        s.take(k + 1).last() == s[k],
{
    assert(s.take(k + 1).drop_last() =~= s.take(k));
}

/// None of the elements is the empty sequence; all of them are the sequence.
pub proof fn lemma_take_ends<A>(s: Seq<A>)
    ensures
        s.take(0) == Seq::<A>::empty(),
        s.take(s.len() as int) == s,
{
    assert(s.take(0) =~= Seq::<A>::empty());
    assert(s.take(s.len() as int) =~= s);
}

/// The first `k + 1` elements are the first `k` with the one at `k` behind
/// them.
pub proof fn lemma_take_next<A>(s: Seq<A>, k: int)
    requires
        0 <= k < s.len(),
    ensures
        s.take(k + 1) == s.take(k) + seq![s[k]],
{
    assert(s.take(k + 1) =~= s.take(k) + seq![s[k]]);
}

/// Pushing an element is appending the sequence of that element.
pub proof fn lemma_push_concat<A>(s: Seq<A>, x: A)
    ensures
        s.push(x) == s + seq![x],
{
    assert(s.push(x) =~= s + seq![x]);
}

/// A range of one element is the sequence of that element.
pub proof fn lemma_subrange_one<A>(s: Seq<A>, k: int)
    requires
        0 <= k < s.len(),
    ensures
        s.subrange(k, k + 1) == seq![s[k]],
{
    assert(s.subrange(k, k + 1) =~= seq![s[k]]);
}

/// The first `to` elements are the first `from` and those from `from` up
/// to `to`.
pub proof fn lemma_take_split<A>(s: Seq<A>, from: int, to: int)
    requires
        0 <= from <= to <= s.len(),
    ensures
        s.take(to) == s.take(from) + s.subrange(from, to),
{
    assert(s.take(to) =~= s.take(from) + s.subrange(from, to));
}

/// All but the last element of a concatenation, and its last element.
pub proof fn lemma_concat_last<A>(a: Seq<A>, b: Seq<A>)
    requires
        b.len() > 0,
    ensures
        (a + b).len() > 0,
        (a + b).drop_last() == a + b.drop_last(),
        (a + b).last() == b.last(),
{
    assert((a + b).drop_last() =~= a + b.drop_last());
}

/// A sequence with one more element, taken apart again.
pub proof fn lemma_push_last<A>(s: Seq<A>, x: A)
    ensures
        s.push(x).len() > 0,
        s.push(x).drop_last() == s,
        s.push(x).last() == x,
{
    assert(s.push(x).drop_last() =~= s);
}

} // verus!
