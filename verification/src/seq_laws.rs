//! What searching, sorting and cutting sequences means for their elements.
use vstd::prelude::*;

use crate::seqs::{
    any, find, first, in_order, insert_by, last_some, lemma_find_step, or, sort_by, weak_order,
};

verus! {

/// A search finds the element that has the property while none in front of it has.
pub proof fn law_the_first_is_found<A>(s: Seq<A>, p: spec_fn(A) -> bool, k: int)
    requires
        0 <= k < s.len(),
        p(s[k]),
        forall|i: int| 0 <= i < k ==> !p(#[trigger] s[i]),
    ensures
        find(s, p) == Some(s[k]),
        any(s, p),
{
    lemma_skipped(s, p, k);
    lemma_find_step(s, p, k);
}

/// A search finds nothing exactly where no element has the property.
pub proof fn law_nothing_is_found<A>(s: Seq<A>, p: spec_fn(A) -> bool)
    ensures
        find(s, p) is None <==> forall|i: int| 0 <= i < s.len() ==> !p(#[trigger] s[i]),
        find(s, p) is None <==> !any(s, p),
{
    crate::seqs::lemma_find_any(s, p);
}

/// What is found stands at a place with nothing of the kind in front of it.
pub proof fn lemma_found_first<A>(s: Seq<A>, p: spec_fn(A) -> bool) -> (k: int)
    requires
        find(s, p) is Some,
    ensures
        0 <= k < s.len(),
        find(s, p) == Some(s[k]),
        p(s[k]),
        forall|i: int| 0 <= i < k ==> !p(#[trigger] s[i]),
    decreases s.len(),
{
    if p(s[0]) {
        0
    } else {
        let rest = s.skip(1);
        let k = lemma_found_first(rest, p);
        assert forall|i: int| 0 <= i < k + 1 implies !p(#[trigger] s[i]) by {
            if i > 0 {
                assert(!p(rest[i - 1]));
            }
        }
        k + 1
    }
}

proof fn lemma_skipped<A>(s: Seq<A>, p: spec_fn(A) -> bool, k: int)
    requires
        0 <= k < s.len(),
        forall|i: int| 0 <= i < k ==> !p(#[trigger] s[i]),
    ensures
        find(s, p) == find(s.skip(k), p),
    decreases k,
{
    if k == 0 {
        assert(s.skip(0) =~= s);
    } else {
        lemma_skipped(s, p, k - 1);
        lemma_find_step(s, p, k - 1);
    }
}

/// What is read last stands: what a later element holds outweighs what an earlier one
/// does, and where none holds anything the default stands.
pub proof fn law_the_last_counts<A, B>(s: Seq<A>, f: spec_fn(A) -> Option<B>, k: int, d: B)
    ensures
        0 <= k < s.len() && f(s[k]) is Some && (forall|i: int|
            k < i < s.len() ==> f(#[trigger] s[i]) is None) ==> last_some(s, f) == f(s[k]) && or(
            last_some(s, f),
            d,
        ) == f(s[k])->0,
        (forall|i: int| 0 <= i < s.len() ==> f(#[trigger] s[i]) is None) ==> last_some(s, f) is None
            && or(last_some(s, f), d) == d,
    decreases s.len(),
{
    if s.len() > 0 {
        let t = s.drop_last();
        law_the_last_counts(t, f, k, d);
        if (forall|i: int| 0 <= i < s.len() ==> f(#[trigger] s[i]) is None) {
            assert forall|i: int| 0 <= i < t.len() implies f(#[trigger] t[i]) is None by {
                assert(t[i] == s[i]);
            }
        }
        if 0 <= k < t.len() && (forall|i: int| k < i < s.len() ==> f(#[trigger] s[i]) is None) {
            assert(f(s[s.len() - 1]) is None);
            assert forall|i: int| k < i < t.len() implies f(#[trigger] t[i]) is None by {
                assert(t[i] == s[i]);
            }
        }
    }
}

/// Cutting a sequence leaves its head, as long as there is enough of it.
pub proof fn law_the_head_is_left<A>(s: Seq<A>, n: nat)
    ensures
        first(s, n).len() <= n,
        first(s, n).len() == n || first(s, n) == s,
        forall|i: int| 0 <= i < first(s, n).len() ==> #[trigger] first(s, n)[i] == s[i],
{
}

/// Sorting keeps the order among elements that no order tells apart.
pub proof fn law_sorting_is_stable<A>(s: Seq<A>, before: spec_fn(A, A) -> bool, alike: spec_fn(A) -> bool)
    requires
        weak_order(before),
        forall|a: A, b: A| alike(a) && alike(b) ==> !#[trigger] before(a, b),
    ensures
        sort_by(s, before).filter(alike) == s.filter(alike),
    decreases s.len(),
{
    reveal(Seq::filter);
    if s.len() > 0 {
        law_sorting_is_stable(s.drop_last(), before, alike);
        let t = sort_by(s.drop_last(), before);
        crate::seqs::law_sort_by(s.drop_last(), before);
        lemma_inserted(t, s.last(), before, alike);
    }
}

proof fn lemma_inserted<A>(s: Seq<A>, x: A, before: spec_fn(A, A) -> bool, alike: spec_fn(A) -> bool)
    requires
        weak_order(before),
        in_order(s, before),
        forall|a: A, b: A| alike(a) && alike(b) ==> !#[trigger] before(a, b),
    ensures
        insert_by(s, x, before).filter(alike) == if alike(x) {
            s.filter(alike).push(x)
        } else {
            s.filter(alike)
        },
    decreases s.len(),
{
    reveal(Seq::filter);
    if s.len() > 0 && before(x, s.last()) {
        let t = s.drop_last();
        lemma_inserted(t, x, before, alike);
        let head = insert_by(t, x, before);
        assert(head.push(s.last()).drop_last() =~= head);
        if alike(x) {
            assert(!alike(s.last()));
        }
    } else {
        assert(s.push(x).drop_last() =~= s);
    }
}

} // verus!
