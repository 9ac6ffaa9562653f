//! Small sequence lemmas shared by the table scans.

use vstd::prelude::*;

verus! {

/// Extending a prefix by one element extends its filtered image by that
/// element exactly when the element satisfies the predicate.
pub proof fn lemma_filter_take_step<A>(s: Seq<A>, pred: spec_fn(A) -> bool, i: int)
    requires
        0 <= i < s.len(),
    ensures
        s.take(i + 1).filter(pred) == if pred(s[i]) {
            s.take(i).filter(pred).push(s[i])
        } else {
            s.take(i).filter(pred)
        },
{
    reveal(Seq::filter);
    assert(s.take(i + 1).drop_last() =~= s.take(i));
    assert(s.take(i + 1).last() == s[i]);
}

/// `x` occurs among the first `k` elements of `s`.
pub open spec fn in_prefix<A>(s: Seq<A>, k: int, x: A) -> bool {
    exists|t: int| 0 <= t < k && #[trigger] s[t] == x
}

/// Growing the prefix by one element adds exactly that element.
pub proof fn lemma_in_prefix_step<A>(s: Seq<A>, k: int, x: A)
    requires
        0 <= k < s.len(),
    ensures
        in_prefix(s, k + 1, x) <==> (in_prefix(s, k, x) || s[k] == x),
{
    if in_prefix(s, k + 1, x) {
        let t = choose|t: int| 0 <= t < k + 1 && #[trigger] s[t] == x;
        if t < k {
            assert(in_prefix(s, k, x));
        }
    }
    if s[k] == x {
        assert(0 <= k < k + 1 && s[k] == x);
    }
}

/// The whole-sequence prefix holds exactly the sequence's elements.
pub proof fn lemma_in_prefix_all<A>(s: Seq<A>)
    ensures
        forall|x: A| in_prefix(s, s.len() as int, x) <==> s.contains(x),
{
}

/// Pushing a fresh element keeps a sequence duplicate-free.
pub proof fn lemma_push_keeps_no_duplicates<A>(s: Seq<A>, y: A)
    requires
        s.no_duplicates(),
        !s.contains(y),
    ensures
        s.push(y).no_duplicates(),
{
    assert forall|i: int, j: int|
        0 <= i < s.push(y).len() && 0 <= j < s.push(y).len() && i != j implies s.push(y)[i]
        != s.push(y)[j] by {
        if i < s.len() && j < s.len() {
        } else if i == s.len() {
            assert(s.contains(s[j]));
        } else {
            assert(s.contains(s[i]));
        }
    }
}

/// A duplicate-free sequence whose elements all occur in `cover` is no
/// longer than `cover`.
pub proof fn lemma_unique_covered_len<A>(out: Seq<A>, cover: Seq<A>)
    requires
        out.no_duplicates(),
        forall|t: int| 0 <= t < out.len() ==> cover.contains(#[trigger] out[t]),
    ensures
        out.len() <= cover.len(),
{
    broadcast use vstd::seq_lib::seq_to_set_is_finite;

    out.unique_seq_to_set();
    assert(out.to_set().subset_of(cover.to_set()));
    vstd::set_lib::lemma_len_subset(out.to_set(), cover.to_set());
    cover.lemma_cardinality_of_set();
}

/// Whether a vector holds the given id.
pub fn contains_i64(v: &Vec<i64>, x: i64) -> (r: bool)
    ensures
        r == v@.contains(x),
{
    let mut i: usize = 0;
    while i < v.len()
        invariant
            i <= v@.len(),
            forall|j: int| 0 <= j < i ==> v@[j] != x,
        decreases v@.len() - i,
    {
        if v[i] == x {
            return true;
        }
        i += 1;
    }
    false
}

/// Filtering keeps every element an element of the source, and keeps any
/// pairwise order the source rows have.
pub proof fn lemma_filter_ordered<A>(s: Seq<A>, pred: spec_fn(A) -> bool, lt: spec_fn(A, A) -> bool)
    requires
        forall|i: int, j: int| 0 <= i < j < s.len() ==> lt(s[i], s[j]),
    ensures
        forall|t: int| 0 <= t < s.filter(pred).len() ==> s.contains(#[trigger] s.filter(pred)[t]),
        forall|t1: int, t2: int|
            0 <= t1 < t2 < s.filter(pred).len() ==> lt(
                #[trigger] s.filter(pred)[t1],
                #[trigger] s.filter(pred)[t2],
            ),
    decreases s.len(),
{
    reveal(Seq::filter);
    if s.len() > 0 {
        let dl = s.drop_last();
        assert forall|i: int, j: int| 0 <= i < j < dl.len() implies lt(dl[i], dl[j]) by {
            assert(dl[i] == s[i] && dl[j] == s[j]);
        }
        lemma_filter_ordered(dl, pred, lt);
        let f = s.filter(pred);
        let fd = dl.filter(pred);
        assert forall|t: int| 0 <= t < f.len() implies s.contains(#[trigger] f[t]) by {
            if t < fd.len() {
                assert(dl.contains(fd[t]));
                let w = choose|w: int| 0 <= w < dl.len() && dl[w] == fd[t];
                assert(s[w] == fd[t]);
            } else {
                assert(f[t] == s.last());
                assert(s[s.len() - 1] == s.last());
            }
        }
        assert forall|t1: int, t2: int| 0 <= t1 < t2 < f.len() implies lt(
            #[trigger] f[t1],
            #[trigger] f[t2],
        ) by {
            if t2 < fd.len() {
            } else if t2 == fd.len() && pred(s.last()) {
                assert(f[t2] == s.last());
                assert(dl.contains(fd[t1]));
                let w = choose|w: int| 0 <= w < dl.len() && dl[w] == fd[t1];
                assert(s[w] == f[t1]);
                assert(lt(s[w], s[s.len() - 1]));
            }
        }
    }
}

/// Predicates that agree on a sequence's elements filter it identically.
pub proof fn lemma_filter_congruent<A>(s: Seq<A>, p1: spec_fn(A) -> bool, p2: spec_fn(A) -> bool)
    requires
        forall|i: int| 0 <= i < s.len() ==> p1(#[trigger] s[i]) == p2(s[i]),
    ensures
        s.filter(p1) == s.filter(p2),
    decreases s.len(),
{
    reveal(Seq::filter);
    if s.len() > 0 {
        let dl = s.drop_last();
        assert forall|i: int| 0 <= i < dl.len() implies p1(#[trigger] dl[i]) == p2(dl[i]) by {
            assert(dl[i] == s[i]);
        }
        lemma_filter_congruent(dl, p1, p2);
        assert(s[s.len() - 1] == s.last());
    }
}

/// A sequence is the take of its own length.
pub proof fn lemma_take_all<A>(s: Seq<A>)
    ensures
        s.take(s.len() as int) == s,
{
    assert(s.take(s.len() as int) =~= s);
}

} // verus!
