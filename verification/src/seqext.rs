//! Sequence lemmas the loop invariants of this crate lean on.

use vstd::prelude::*;

verus! {

/// One unfolding step of `Seq::filter`, phrased over `push`: filtering
/// a sequence extended by one element keeps the filtered prefix and
/// appends the element exactly when it satisfies the predicate.
pub proof fn lemma_filter_push<A>(s: Seq<A>, x: A, pred: spec_fn(A) -> bool)
    ensures
        s.push(x).filter(pred) == if pred(x) {
            s.filter(pred).push(x)
        } else {
            s.filter(pred)
        },
{
    reveal(Seq::filter);
    assert(s.push(x).drop_last() =~= s);
    assert(s.push(x).last() == x);
}

/// Mapping over a sequence extended by one element maps the prefix
/// and appends the image of the element.
pub proof fn lemma_map_values_push<A, B>(s: Seq<A>, x: A, f: spec_fn(A) -> B)
    ensures
        s.push(x).map_values(f) == s.map_values(f).push(f(x)),
{
    assert(s.push(x).map_values(f) =~= s.map_values(f).push(f(x)));
}

/// Flattening a sequence of runs extended by one run flattens the
/// prefix and appends the run.
pub proof fn lemma_flatten_push<A>(s: Seq<Seq<A>>, x: Seq<A>)
    ensures
        s.push(x).flatten() == s.flatten() + x,
    decreases s.len(),
{
    if s.len() == 0 {
        let e = Seq::<Seq<A>>::empty();
        assert(s =~= e);
        assert(e.flatten() == Seq::<A>::empty());
        assert(s.push(x).drop_first() =~= e);
        assert(s.push(x).flatten() == x + e.flatten());
        assert(x + Seq::<A>::empty() =~= Seq::<A>::empty() + x);
        assert(s.push(x).flatten() =~= s.flatten() + x);
    } else {
        assert(s.push(x).drop_first() =~= s.drop_first().push(x));
        lemma_flatten_push(s.drop_first(), x);
        let a = s.first();
        let b = s.drop_first().flatten();
        assert(s.push(x).first() == a);
        assert(s.push(x).flatten() == a + (b + x));
        assert(s.flatten() == a + b);
        assert(a + (b + x) =~= (a + b) + x);
    }
}

/// A prefix one longer splits as the prefix plus its next element.
pub proof fn lemma_subrange_push<A>(s: Seq<A>, i: int)
    requires
        0 <= i < s.len(),
    ensures
        s.subrange(0, i + 1) == s.subrange(0, i).push(s[i]),
{
    assert(s.subrange(0, i + 1) =~= s.subrange(0, i).push(s[i]));
}

/// The whole sequence is its own full prefix.
pub proof fn lemma_subrange_all<A>(s: Seq<A>)
    ensures
        s.subrange(0, s.len() as int) == s,
{
    assert(s.subrange(0, s.len() as int) =~= s);
}

} // verus!
