//! Facts about filtering sequences.
use vstd::prelude::*;

verus! {

/// Filtering a sequence extended by one item.
pub proof fn lemma_filter_push<A>(s: Seq<A>, a: A, p: spec_fn(A) -> bool)
    ensures
        s.push(a).filter(p) == if p(a) {
            s.filter(p).push(a)
        } else {
            s.filter(p)
        },
{
    reveal(Seq::filter);
    assert(s.push(a).drop_last() =~= s);
}

/// The kept items of a prefix grow by one exactly where the next item is kept.
pub proof fn lemma_filter_prefix_step<A>(s: Seq<A>, p: spec_fn(A) -> bool, i: int)
    requires
        0 <= i < s.len(),
    ensures
        s.subrange(0, i + 1).filter(p).len() == s.subrange(0, i).filter(p).len() + (if p(s[i]) {
            1int
        } else {
            0int
        }),
{
    assert(s.subrange(0, i + 1) =~= s.subrange(0, i).push(s[i]));
    lemma_filter_push(s.subrange(0, i), s[i], p);
}

/// The kept items of a longer prefix are at least as many.
pub proof fn lemma_filter_prefix_mono<A>(s: Seq<A>, p: spec_fn(A) -> bool, i: int, j: int)
    requires
        0 <= i <= j <= s.len(),
    ensures
        s.subrange(0, i).filter(p).len() <= s.subrange(0, j).filter(p).len(),
    decreases j - i,
{
    if i < j {
        lemma_filter_prefix_step(s, p, j - 1);
        lemma_filter_prefix_mono(s, p, i, j - 1);
    }
}

} // verus!
