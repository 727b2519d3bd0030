//! Sequences: the first element with a property, the elements with one, and
//! stable sorting.
use vstd::prelude::*;

verus! {

/// The first element of `s` with the property `p`.
pub open spec fn find<A>(s: Seq<A>, p: spec_fn(A) -> bool) -> Option<A>
    decreases s.len(),
{
    if s.len() == 0 {
        None
    } else if p(s[0]) {
        Some(s[0])
    } else {
        find(s.skip(1), p)
    }
}

/// Whether an element of `s` has the property `p`.
pub open spec fn any<A>(s: Seq<A>, p: spec_fn(A) -> bool) -> bool {
    exists|i: int| 0 <= i < s.len() && p(#[trigger] s[i])
}

/// What `f` reads from the last element that it reads anything from.
pub open spec fn last_some<A, B>(s: Seq<A>, f: spec_fn(A) -> Option<B>) -> Option<B>
    decreases s.len(),
{
    if s.len() == 0 {
        None
    } else {
        match f(s.last()) {
            Some(b) => Some(b),
            None => last_some(s.drop_last(), f),
        }
    }
}

/// What was read, or else `d`.
pub open spec fn or<B>(o: Option<B>, d: B) -> B {
    match o {
        Some(b) => b,
        None => d,
    }
}

/// One step of a search from the front.
pub proof fn lemma_find_step<A>(s: Seq<A>, p: spec_fn(A) -> bool, i: int)
    requires
        0 <= i < s.len(),
    ensures
        find(s.skip(i), p) == if p(s[i]) {
            Some(s[i])
        } else {
            find(s.skip(i + 1), p)
        },
{
    assert(s.skip(i).skip(1) =~= s.skip(i + 1));
}

/// An element is found if and only if one has the property, and what is found
/// has it.
pub proof fn lemma_find_any<A>(s: Seq<A>, p: spec_fn(A) -> bool)
    ensures
        find(s, p) is Some <==> any(s, p),
        find(s, p) is Some ==> p(find(s, p)->0) && s.contains(find(s, p)->0),
    decreases s.len(),
{
    if s.len() > 0 {
        let rest = s.skip(1);
        lemma_find_any(rest, p);
        if p(s[0]) {
        } else {
            if any(rest, p) {
                let i = choose|i: int| 0 <= i < rest.len() && p(#[trigger] rest[i]);
                assert(p(s[i + 1]));
            }
            if any(s, p) {
                let i = choose|i: int| 0 <= i < s.len() && p(#[trigger] s[i]);
                assert(rest[i - 1] == s[i]);
            }
            if find(rest, p) is Some {
                let i = choose|i: int| 0 <= i < rest.len() && rest[i] == find(rest, p)->0;
                assert(s[i + 1] == find(rest, p)->0);
            }
        }
    }
}

/// One step of a filter from the front.
pub proof fn lemma_filter_step<A>(s: Seq<A>, p: spec_fn(A) -> bool, i: int)
    requires
        0 <= i < s.len(),
    ensures
        s.take(i + 1).filter(p) == if p(s[i]) {
            s.take(i).filter(p).push(s[i])
        } else {
            s.take(i).filter(p)
        },
{
    reveal(Seq::filter);
    assert(s.take(i + 1).drop_last() =~= s.take(i));
}

/// A filter over nothing.
pub proof fn lemma_filter_start<A>(s: Seq<A>, p: spec_fn(A) -> bool)
    ensures
        s.take(0).filter(p) == Seq::<A>::empty(),
{
    reveal(Seq::filter);
    assert(s.take(0) =~= Seq::empty());
}

/// A filter over all.
pub proof fn lemma_filter_end<A>(s: Seq<A>, p: spec_fn(A) -> bool)
    ensures
        s.take(s.len() as int).filter(p) == s.filter(p),
{
    assert(s.take(s.len() as int) =~= s);
}

/// A filter that every element passes keeps the whole.
pub proof fn lemma_filter_all<A>(s: Seq<A>, p: spec_fn(A) -> bool)
    requires
        forall|i: int| 0 <= i < s.len() ==> p(#[trigger] s[i]),
    ensures
        s.filter(p) == s,
    decreases s.len(),
{
    reveal(Seq::filter);
    if s.len() > 0 {
        lemma_filter_all(s.drop_last(), p);
        assert(p(s[s.len() - 1]));
        assert(s.drop_last().push(s.last()) =~= s);
    } else {
        assert(s.filter(p) =~= s);
    }
}

/// What a filter keeps has both properties.
pub proof fn lemma_any_filter<A>(s: Seq<A>, p: spec_fn(A) -> bool, q: spec_fn(A) -> bool)
    ensures
        any(s.filter(p), q) <==> exists|i: int| 0 <= i < s.len() && p(#[trigger] s[i]) && q(s[i]),
    decreases s.len(),
{
    reveal(Seq::filter);
    if s.len() > 0 {
        let front = s.drop_last();
        lemma_any_filter(front, p, q);
        let kept = front.filter(p);
        if any(kept, q) {
            let i = choose|i: int| 0 <= i < kept.len() && q(#[trigger] kept[i]);
            let j = choose|j: int| 0 <= j < front.len() && p(#[trigger] front[j]) && q(front[j]);
            assert(p(s[j]) && q(s[j]));
            assert(s.filter(p)[i] == kept[i]);
        }
        if p(s.last()) {
            assert(s.filter(p)[kept.len() as int] == s.last());
            assert(s[s.len() - 1] == s.last());
        }
        if exists|i: int| 0 <= i < s.len() && p(#[trigger] s[i]) && q(s[i]) {
            let i = choose|i: int| 0 <= i < s.len() && p(#[trigger] s[i]) && q(s[i]);
            if i < front.len() {
                assert(front[i] == s[i]);
            }
        }
        if any(s.filter(p), q) {
            let i = choose|i: int| 0 <= i < s.filter(p).len() && q(#[trigger] s.filter(p)[i]);
            if i < kept.len() {
                assert(kept[i] == s.filter(p)[i]);
            }
        }
    }
}

/// A filter keeps nothing exactly where no element has the property.
pub proof fn lemma_filter_any<A>(s: Seq<A>, p: spec_fn(A) -> bool)
    ensures
        s.filter(p).len() <= s.len(),
        s.filter(p).len() > 0 <==> any(s, p),
        s.filter(p).len() > 0 ==> find(s, p) == Some(s.filter(p)[0]),
        s.filter(p).len() == 0 ==> find(s, p) is None,
    decreases s.len(),
{
    reveal(Seq::filter);
    if s.len() > 0 {
        let front = s.drop_last();
        lemma_filter_any(front, p);
        lemma_find_snoc(front, p, s.last());
        assert(front.push(s.last()) =~= s);
        if any(front, p) {
            let i = choose|i: int| 0 <= i < front.len() && p(#[trigger] front[i]);
            assert(p(s[i]));
        }
        if p(s.last()) {
            assert(p(s[s.len() - 1]));
        }
        if any(s, p) && !p(s.last()) {
            let i = choose|i: int| 0 <= i < s.len() && p(#[trigger] s[i]);
            assert(front[i] == s[i]);
        }
    }
}

proof fn lemma_find_snoc<A>(s: Seq<A>, p: spec_fn(A) -> bool, x: A)
    ensures
        find(s.push(x), p) == match find(s, p) {
            Some(y) => Some(y),
            None => if p(x) {
                Some(x)
            } else {
                None
            },
        },
    decreases s.len(),
{
    reveal_with_fuel(find, 2);
    if s.len() == 0 {
        assert(s.push(x).skip(1) =~= Seq::empty());
    } else {
        lemma_find_snoc(s.skip(1), p, x);
        assert(s.push(x).skip(1) =~= s.skip(1).push(x));
    }
}

/// The place of the first element for which `f`, which computes `p`, says yes.
pub(crate) fn position_of<A, F: Fn(&A) -> bool>(
    v: &Vec<A>,
    f: F,
    Ghost(p): Ghost<spec_fn(A) -> bool>,
) -> (r: Option<usize>)
    requires
        forall|a: &A| #[trigger] f.requires((a,)),
        forall|a: &A, o: bool| #[trigger] f.ensures((a,), o) ==> o == p(*a),
    ensures
        match r {
            Some(i) => i < v.len() && p(v@[i as int]) && find(v@, p) == Some(v@[i as int]),
            None => find(v@, p) is None,
        },
        r is Some <==> any(v@, p),
{
    let mut i: usize = 0;
    proof {
        lemma_find_any(v@, p);
    }
    assert(v@.skip(0) =~= v@);
    while i < v.len()
        invariant
            i <= v.len(),
            find(v@, p) == find(v@.skip(i as int), p),
            find(v@, p) is Some <==> any(v@, p),
            forall|a: &A| #[trigger] f.requires((a,)),
            forall|a: &A, o: bool| #[trigger] f.ensures((a,), o) ==> o == p(*a),
        decreases v.len() - i,
    {
        proof {
            lemma_find_step(v@, p, i as int);
        }
        if f(&v[i]) {
            return Some(i);
        }
        i += 1;
    }
    None
}

/// The elements for which `f`, which computes `p`, says yes.
pub(crate) fn keep<A, F: Fn(&A) -> bool>(v: Vec<A>, f: F, Ghost(p): Ghost<spec_fn(A) -> bool>) -> (r:
    Vec<A>)
    requires
        forall|a: &A| #[trigger] f.requires((a,)),
        forall|a: &A, o: bool| #[trigger] f.ensures((a,), o) ==> o == p(*a),
    ensures
        r@ == v@.filter(p),
{
    let ghost all = v@;
    let mut out: Vec<A> = Vec::new();
    proof {
        lemma_filter_start(all, p);
    }
    for x in it: v
        invariant
            it.seq() == all,
            out@ == all.take(it.index()).filter(p),
            forall|a: &A| #[trigger] f.requires((a,)),
            forall|a: &A, o: bool| #[trigger] f.ensures((a,), o) ==> o == p(*a),
    {
        proof {
            lemma_filter_step(all, p, it.index());
        }
        if f(&x) {
            out.push(x);
        }
    }
    proof {
        lemma_filter_end(all, p);
    }
    out
}

/// How many elements there are for which `f`, which computes `p`, says yes.
pub(crate) fn how_many<A, F: Fn(&A) -> bool>(
    v: &Vec<A>,
    f: F,
    Ghost(p): Ghost<spec_fn(A) -> bool>,
) -> (r: usize)
    requires
        forall|a: &A| #[trigger] f.requires((a,)),
        forall|a: &A, o: bool| #[trigger] f.ensures((a,), o) ==> o == p(*a),
    ensures
        r == v@.filter(p).len(),
        r <= v.len(),
{
    let mut n: usize = 0;
    let mut i: usize = 0;
    proof {
        lemma_filter_start(v@, p);
    }
    while i < v.len()
        invariant
            i <= v.len(),
            n <= i,
            n == v@.take(i as int).filter(p).len(),
            forall|a: &A| #[trigger] f.requires((a,)),
            forall|a: &A, o: bool| #[trigger] f.ensures((a,), o) ==> o == p(*a),
        decreases v.len() - i,
    {
        proof {
            lemma_filter_step(v@, p, i as int);
        }
        if f(&v[i]) {
            n += 1;
        }
        i += 1;
    }
    proof {
        lemma_filter_end(v@, p);
    }
    n
}

// ---- Sorting ----------------------------------------------------------------

/// A sorted sequence with `x` put behind every element that it need not come
/// before.
pub open spec fn insert_by<A>(s: Seq<A>, x: A, before: spec_fn(A, A) -> bool) -> Seq<A>
    decreases s.len(),
{
    if s.len() > 0 && before(x, s.last()) {
        insert_by(s.drop_last(), x, before).push(s.last())
    } else {
        s.push(x)
    }
}

/// The elements of `s` in the order of `before`; elements that neither comes
/// before the other keep their order.
pub open spec fn sort_by<A>(s: Seq<A>, before: spec_fn(A, A) -> bool) -> Seq<A>
    decreases s.len(),
{
    if s.len() == 0 {
        Seq::empty()
    } else {
        insert_by(sort_by(s.drop_last(), before), s.last(), before)
    }
}

/// Whether no element must come before one that stands in front of it.
pub open spec fn in_order<A>(s: Seq<A>, before: spec_fn(A, A) -> bool) -> bool {
    forall|i: int, j: int|
        0 <= i < j < s.len() ==> !before(#[trigger] s[j], #[trigger] s[i])
}

/// Whether `before` is a strict order on classes of equal elements.
pub open spec fn weak_order<A>(before: spec_fn(A, A) -> bool) -> bool {
    &&& forall|a: A, b: A| #![trigger before(a, b)] before(a, b) ==> !before(b, a)
    &&& forall|a: A, b: A, c: A|
        #![trigger before(a, b), before(b, c)]
        !before(a, b) && !before(b, c) ==> !before(a, c)
}

proof fn lemma_insert_by<A>(s: Seq<A>, x: A, before: spec_fn(A, A) -> bool)
    requires
        weak_order(before),
        in_order(s, before),
    ensures
        in_order(insert_by(s, x, before), before),
        insert_by(s, x, before).to_multiset() == s.to_multiset().insert(x),
        insert_by(s, x, before).len() == s.len() + 1,
        forall|i: int|
            0 <= i < insert_by(s, x, before).len() ==> #[trigger] insert_by(s, x, before)[i] == x
                || s.contains(insert_by(s, x, before)[i]),
    decreases s.len(),
{
    broadcast use vstd::seq_lib::group_to_multiset_ensures;

    let r = insert_by(s, x, before);
    if s.len() > 0 && before(x, s.last()) {
        let front = s.drop_last();
        let last = s.last();
        lemma_insert_by(front, x, before);
        let q = insert_by(front, x, before);
        assert forall|i: int, j: int| 0 <= i < j < r.len() implies !before(
            #[trigger] r[j],
            #[trigger] r[i],
        ) by {
            if j < q.len() {
                assert(r[j] == q[j] && r[i] == q[i]);
            } else {
                assert(r[j] == last && r[i] == q[i]);
                if q[i] != x {
                    let k = choose|k: int| 0 <= k < front.len() && front[k] == q[i];
                    assert(s[k] == q[i] && s[s.len() - 1] == last);
                }
            }
        }
        assert(front.push(last) =~= s);
        assert(s.to_multiset() =~= front.to_multiset().insert(last));
        assert(r.to_multiset() =~= q.to_multiset().insert(last));
        assert(r.to_multiset() =~= s.to_multiset().insert(x));
        assert forall|i: int| 0 <= i < r.len() implies #[trigger] r[i] == x || s.contains(r[i]) by {
            if i < q.len() {
                assert(r[i] == q[i]);
                if q[i] != x {
                    let k = choose|k: int| 0 <= k < front.len() && front[k] == q[i];
                    assert(s[k] == q[i]);
                }
            } else {
                assert(s[s.len() - 1] == r[i]);
            }
        }
    } else {
        assert forall|i: int, j: int| 0 <= i < j < r.len() implies !before(
            #[trigger] r[j],
            #[trigger] r[i],
        ) by {
            if j < s.len() {
                assert(r[j] == s[j] && r[i] == s[i]);
            } else {
                assert(r[j] == x && r[i] == s[i]);
                let last = s.last();
                assert(!before(x, last));
                if i < s.len() - 1 {
                    assert(!before(s[s.len() - 1], s[i]));
                }
            }
        }
        assert forall|i: int| 0 <= i < r.len() implies #[trigger] r[i] == x || s.contains(r[i]) by {
            if i < s.len() {
                assert(s[i] == r[i]);
            }
        }
    }
}

/// Sorting gives the same elements, and gives them in order.
pub proof fn law_sort_by<A>(s: Seq<A>, before: spec_fn(A, A) -> bool)
    requires
        weak_order(before),
    ensures
        in_order(sort_by(s, before), before),
        sort_by(s, before).to_multiset() == s.to_multiset(),
        sort_by(s, before).len() == s.len(),
    decreases s.len(),
{
    broadcast use vstd::seq_lib::group_to_multiset_ensures;

    if s.len() > 0 {
        law_sort_by(s.drop_last(), before);
        lemma_insert_by(sort_by(s.drop_last(), before), s.last(), before);
        assert(s.drop_last().push(s.last()) =~= s);
        assert(s.to_multiset() =~= s.drop_last().to_multiset().insert(s.last()));
    } else {
        assert(sort_by(s, before) =~= s);
    }
}

/// An element stands at a place of `insert_by`'s result that a search from the
/// end finds.
proof fn lemma_insert_place<A>(s: Seq<A>, x: A, before: spec_fn(A, A) -> bool, p: int)
    requires
        0 <= p <= s.len(),
        forall|k: int| p <= k < s.len() ==> before(x, #[trigger] s[k]),
        p > 0 ==> !before(x, s[p - 1]),
    ensures
        insert_by(s, x, before) == s.insert(p, x),
    decreases s.len(),
{
    if p < s.len() {
        assert(before(x, s[s.len() - 1]));
        lemma_insert_place(s.drop_last(), x, before, p);
        assert(s.drop_last().insert(p, x).push(s.last()) =~= s.insert(p, x));
    } else {
        assert(s.push(x) =~= s.insert(p, x));
    }
}

/// Sorting keeps the number of elements.
pub proof fn lemma_sort_length<A>(s: Seq<A>, before: spec_fn(A, A) -> bool)
    ensures
        sort_by(s, before).len() == s.len(),
    decreases s.len(),
{
    if s.len() > 0 {
        lemma_sort_length(s.drop_last(), before);
        lemma_insert_length(sort_by(s.drop_last(), before), s.last(), before);
    }
}

proof fn lemma_insert_length<A>(s: Seq<A>, x: A, before: spec_fn(A, A) -> bool)
    ensures
        insert_by(s, x, before).len() == s.len() + 1,
    decreases s.len(),
{
    if s.len() > 0 {
        lemma_insert_length(s.drop_last(), x, before);
    }
}

/// Sorts a vector by `less`, which computes `before`.
pub(crate) fn stable_sort<A, F: Fn(&A, &A) -> bool>(
    v: Vec<A>,
    less: F,
    Ghost(before): Ghost<spec_fn(A, A) -> bool>,
) -> (r: Vec<A>)
    requires
        forall|a: &A, b: &A| #[trigger] less.requires((a, b)),
        forall|a: &A, b: &A, o: bool| #[trigger] less.ensures((a, b), o) ==> o == before(*a, *b),
    ensures
        r@ == sort_by(v@, before),
{
    let ghost all = v@;
    let mut out: Vec<A> = Vec::new();
    assert(all.take(0) =~= Seq::empty());
    for x in it: v
        invariant
            it.seq() == all,
            out@ == sort_by(all.take(it.index()), before),
            forall|a: &A, b: &A| #[trigger] less.requires((a, b)),
            forall|a: &A, b: &A, o: bool| #[trigger] less.ensures((a, b), o) ==> o == before(*a, *b),
    {
        let ghost i = it.index();
        assert(all.take(i + 1).drop_last() =~= all.take(i));
        assert(all.take(i + 1).last() == x);
        let mut p: usize = out.len();
        let mut moving = true;
        while moving
            invariant
                p <= out.len(),
                forall|k: int| p <= k < out.len() ==> before(x, #[trigger] out@[k]),
                !moving && p > 0 ==> !before(x, out@[p - 1]),
                forall|a: &A, b: &A| #[trigger] less.requires((a, b)),
                forall|a: &A, b: &A, o: bool| #[trigger]
                    less.ensures((a, b), o) ==> o == before(*a, *b),
            decreases p + if moving {
                1int
            } else {
                0int
            },
        {
            if p > 0 && less(&x, &out[p - 1]) {
                p -= 1;
            } else {
                moving = false;
            }
        }
        proof {
            lemma_insert_place(out@, x, before, p as int);
        }
        out.insert(p, x);
    }
    assert(all.take(all.len() as int) =~= all);
    out
}

// ---- Mapping ------------------------------------------------------------------

/// The first `n` elements, or all where there are fewer.
pub open spec fn first<A>(s: Seq<A>, n: nat) -> Seq<A> {
    if s.len() > n {
        s.take(n as int)
    } else {
        s
    }
}

/// What `f` makes of each element; `said` tells what a result says, and `g` what
/// it is to say.
pub(crate) fn collect_map<A, B, S, F: Fn(&A) -> B>(
    v: &Vec<A>,
    f: F,
    Ghost(said): Ghost<spec_fn(B) -> S>,
    Ghost(g): Ghost<spec_fn(A) -> S>,
) -> (r: Vec<B>)
    requires
        forall|a: &A| #[trigger] f.requires((a,)),
        forall|a: &A, b: B| #[trigger] f.ensures((a,), b) ==> said(b) == g(*a),
    ensures
        r@.map_values(said) == v@.map_values(g),
{
    let mut out: Vec<B> = Vec::new();
    let mut i: usize = 0;
    while i < v.len()
        invariant
            i <= v.len(),
            out.len() == i,
            forall|a: &A| #[trigger] f.requires((a,)),
            forall|a: &A, b: B| #[trigger] f.ensures((a,), b) ==> said(b) == g(*a),
            forall|k: int| 0 <= k < i ==> said(#[trigger] out@[k]) == g(v@[k]),
        decreases v.len() - i,
    {
        out.push(f(&v[i]));
        i += 1;
    }
    assert(out@.map_values(said) =~= v@.map_values(g));
    out
}

/// What `f` makes of the first `limit` elements for which `want`, which
/// computes `p`, says yes.
pub(crate) fn collect_some<A, B, S, P: Fn(&A) -> bool, F: Fn(&A) -> B>(
    v: &Vec<A>,
    want: P,
    f: F,
    limit: usize,
    Ghost(p): Ghost<spec_fn(A) -> bool>,
    Ghost(said): Ghost<spec_fn(B) -> S>,
    Ghost(g): Ghost<spec_fn(A) -> S>,
) -> (r: Vec<B>)
    requires
        forall|a: &A| #[trigger] want.requires((a,)),
        forall|a: &A, o: bool| #[trigger] want.ensures((a,), o) ==> o == p(*a),
        forall|a: &A| #[trigger] f.requires((a,)),
        forall|a: &A, b: B| #[trigger] f.ensures((a,), b) ==> said(b) == g(*a),
    ensures
        r@.map_values(said) == first(v@.filter(p), limit as nat).map_values(g),
{
    let mut out: Vec<B> = Vec::new();
    let mut i: usize = 0;
    proof {
        lemma_filter_start(v@, p);
    }
    while i < v.len()
        invariant
            i <= v.len(),
            forall|a: &A| #[trigger] want.requires((a,)),
            forall|a: &A, o: bool| #[trigger] want.ensures((a,), o) ==> o == p(*a),
            forall|a: &A| #[trigger] f.requires((a,)),
            forall|a: &A, b: B| #[trigger] f.ensures((a,), b) ==> said(b) == g(*a),
            out@.map_values(said) == first(v@.take(i as int).filter(p), limit as nat).map_values(g),
        decreases v.len() - i,
    {
        proof {
            lemma_filter_step(v@, p, i as int);
        }
        let ghost before = v@.take(i as int).filter(p);
        let ghost shown = out@;
        assert(out@.map_values(said).len() == out.len());
        if want(&v[i]) {
            if out.len() < limit {
                let b = f(&v[i]);
                out.push(b);
                assert(out@.map_values(said) =~= shown.map_values(said).push(said(b)));
                assert(before.push(v@[i as int]).map_values(g) =~= before.map_values(g).push(
                    g(v@[i as int]),
                ));
            } else {
                assert(first(before.push(v@[i as int]), limit as nat) =~= first(
                    before,
                    limit as nat,
                ));
            }
        }
        i += 1;
    }
    proof {
        lemma_filter_end(v@, p);
    }
    out
}

/// The elements at these places.
pub open spec fn picked<A>(places: Seq<usize>, all: Seq<A>) -> Seq<A> {
    places.map_values(|i: usize| all[i as int])
}

/// The places of the elements for which `want`, which computes `p`, says yes,
/// in the order of `less`, which computes `before`.
pub(crate) fn ordered<A, P: Fn(&A) -> bool, F: Fn(&A, &A) -> bool>(
    v: &Vec<A>,
    want: P,
    less: F,
    Ghost(p): Ghost<spec_fn(A) -> bool>,
    Ghost(before): Ghost<spec_fn(A, A) -> bool>,
) -> (r: Vec<usize>)
    requires
        forall|a: &A| #[trigger] want.requires((a,)),
        forall|a: &A, o: bool| #[trigger] want.ensures((a,), o) ==> o == p(*a),
        forall|a: &A, b: &A| #[trigger] less.requires((a, b)),
        forall|a: &A, b: &A, o: bool| #[trigger] less.ensures((a, b), o) ==> o == before(*a, *b),
    ensures
        forall|k: int| 0 <= k < r@.len() ==> (#[trigger] r@[k]) < v@.len(),
        picked(r@, v@) == sort_by(v@.filter(p), before),
{
    let mut out: Vec<usize> = Vec::new();
    let mut i: usize = 0;
    proof {
        lemma_filter_start(v@, p);
    }
    assert(picked(out@, v@) =~= sort_by(v@.take(0).filter(p), before));
    while i < v.len()
        invariant
            i <= v.len(),
            forall|a: &A| #[trigger] want.requires((a,)),
            forall|a: &A, o: bool| #[trigger] want.ensures((a,), o) ==> o == p(*a),
            forall|a: &A, b: &A| #[trigger] less.requires((a, b)),
            forall|a: &A, b: &A, o: bool| #[trigger] less.ensures((a, b), o) ==> o == before(*a, *b),
            forall|k: int| 0 <= k < out@.len() ==> (#[trigger] out@[k]) < v@.len(),
            picked(out@, v@) == sort_by(v@.take(i as int).filter(p), before),
        decreases v.len() - i,
    {
        proof {
            lemma_filter_step(v@, p, i as int);
        }
        if want(&v[i]) {
            let ghost x = v@[i as int];
            let ghost sorted = picked(out@, v@);
            let ghost places = out@;
            let mut at: usize = out.len();
            let mut moving = true;
            while moving
                invariant
                    at <= out.len(),
                    i < v.len(),
                    x == v@[i as int],
                    forall|k: int| 0 <= k < out@.len() ==> (#[trigger] out@[k]) < v@.len(),
                    forall|k: int| at <= k < out.len() ==> before(x, v@[#[trigger] out@[k] as int]),
                    !moving && at > 0 ==> !before(x, v@[out@[at - 1] as int]),
                    forall|a: &A, b: &A| #[trigger] less.requires((a, b)),
                    forall|a: &A, b: &A, o: bool| #[trigger]
                        less.ensures((a, b), o) ==> o == before(*a, *b),
                decreases at + if moving {
                    1int
                } else {
                    0int
                },
            {
                if at > 0 && less(&v[i], &v[out[at - 1]]) {
                    at -= 1;
                } else {
                    moving = false;
                }
            }
            proof {
                assert forall|k: int| at <= k < sorted.len() implies before(x, #[trigger] sorted[k]) by {
                    assert(before(x, v@[out@[k] as int]));
                }
                lemma_insert_place(sorted, x, before, at as int);
            }
            out.insert(at, i);
            assert(picked(out@, v@) =~= sorted.insert(at as int, x));
            assert forall|k: int| 0 <= k < out@.len() implies (#[trigger] out@[k]) < v@.len() by {
                if k < at {
                    assert(out@[k] == places[k]);
                } else if k > at {
                    assert(out@[k] == places[k - 1]);
                }
            }
            proof {
                let kept = v@.take(i as int).filter(p).push(x);
                assert(kept.drop_last() =~= v@.take(i as int).filter(p));
            }
        }
        i += 1;
    }
    proof {
        lemma_filter_end(v@, p);
    }
    out
}

// ---- Ascending numbers --------------------------------------------------------

/// Whether each number is smaller than the next.
pub open spec fn ascending(s: Seq<u32>) -> bool {
    forall|i: int, j: int| 0 <= i < j < s.len() ==> s[i] < s[j]
}

/// An ascending sequence with `x` in it.
pub open spec fn with_number(s: Seq<u32>, x: u32) -> Seq<u32>
    decreases s.len(),
{
    if s.len() == 0 || s.last() < x {
        s.push(x)
    } else if s.last() == x {
        s
    } else {
        with_number(s.drop_last(), x).push(s.last())
    }
}

/// The numbers of `s` in ascending order, each once.
pub open spec fn distinct_ascending(s: Seq<u32>) -> Seq<u32>
    decreases s.len(),
{
    if s.len() == 0 {
        Seq::empty()
    } else {
        with_number(distinct_ascending(s.drop_last()), s.last())
    }
}

proof fn lemma_with_number(s: Seq<u32>, x: u32)
    requires
        ascending(s),
    ensures
        ascending(with_number(s, x)),
        forall|y: u32| #[trigger] with_number(s, x).contains(y) <==> y == x || s.contains(y),
    decreases s.len(),
{
    let r = with_number(s, x);
    if s.len() == 0 || s.last() < x {
        assert forall|y: u32| #[trigger] r.contains(y) <==> y == x || s.contains(y) by {
            if y == x {
                assert(r[s.len() as int] == x);
            }
            if s.contains(y) {
                let k = choose|k: int| 0 <= k < s.len() && s[k] == y;
                assert(r[k] == y);
            }
        }
    } else if s.last() == x {
        assert(s[s.len() - 1] == x);
    } else {
        let front = s.drop_last();
        let q = with_number(front, x);
        lemma_with_number(front, x);
        assert forall|i: int, j: int| 0 <= i < j < r.len() implies r[i] < r[j] by {
            if j == q.len() {
                assert(q.contains(q[i]));
                if q[i] != x {
                    let k = choose|k: int| 0 <= k < front.len() && front[k] == q[i];
                    assert(s[k] < s[s.len() - 1]);
                }
            }
        }
        assert forall|y: u32| #[trigger] r.contains(y) <==> y == x || s.contains(y) by {
            if r.contains(y) {
                let k = choose|k: int| 0 <= k < r.len() && r[k] == y;
                if k < q.len() {
                    assert(q[k] == y);
                    assert(q.contains(y));
                    if y != x {
                        let m = choose|m: int| 0 <= m < front.len() && front[m] == y;
                        assert(s[m] == y);
                    }
                } else {
                    assert(s[s.len() - 1] == y);
                }
            }
            if y == x || s.contains(y) {
                if y == s.last() {
                    assert(r[q.len() as int] == y);
                } else {
                    if y != x {
                        let m = choose|m: int| 0 <= m < s.len() && s[m] == y;
                        assert(front[m] == y);
                    }
                    assert(q.contains(y));
                    let k = choose|k: int| 0 <= k < q.len() && q[k] == y;
                    assert(r[k] == y);
                }
            }
        }
    }
}

/// The distinct numbers of a sequence are those that occur in it, in ascending
/// order.
pub proof fn law_distinct_ascending(s: Seq<u32>)
    ensures
        ascending(distinct_ascending(s)),
        forall|y: u32| #[trigger] distinct_ascending(s).contains(y) <==> s.contains(y),
    decreases s.len(),
{
    if s.len() > 0 {
        let front = s.drop_last();
        law_distinct_ascending(front);
        lemma_with_number(distinct_ascending(front), s.last());
        assert forall|y: u32| #[trigger] distinct_ascending(s).contains(y) <==> s.contains(y) by {
            if s.contains(y) {
                let k = choose|k: int| 0 <= k < s.len() && s[k] == y;
                if k < front.len() {
                    assert(front[k] == y);
                }
            }
            if front.contains(y) {
                let k = choose|k: int| 0 <= k < front.len() && front[k] == y;
                assert(s[k] == y);
            }
            if y == s.last() {
                assert(s[s.len() - 1] == y);
            }
        }
    }
}

proof fn lemma_number_place(s: Seq<u32>, x: u32, p: int)
    requires
        0 <= p <= s.len(),
        forall|k: int| p <= k < s.len() ==> #[trigger] s[k] > x,
        p > 0 ==> s[p - 1] <= x,
    ensures
        with_number(s, x) == if p > 0 && s[p - 1] == x {
            s
        } else {
            s.insert(p, x)
        },
    decreases s.len(),
{
    if p < s.len() {
        lemma_number_place(s.drop_last(), x, p);
        assert(s[s.len() - 1] > x);
        if p > 0 && s[p - 1] == x {
            assert(s.drop_last().push(s.last()) =~= s);
        } else {
            assert(s.drop_last().insert(p, x).push(s.last()) =~= s.insert(p, x));
        }
    } else {
        assert(s.push(x) =~= s.insert(p, x));
    }
}

/// The numbers of a list in ascending order, each once.
pub fn sort_dedup(v: &Vec<u32>) -> (r: Vec<u32>)
    ensures
        r@ == distinct_ascending(v@),
{
    let mut out: Vec<u32> = Vec::new();
    let mut i: usize = 0;
    assert(v@.take(0) =~= Seq::empty());
    while i < v.len()
        invariant
            i <= v.len(),
            out@ == distinct_ascending(v@.take(i as int)),
        decreases v.len() - i,
    {
        let x = v[i];
        assert(v@.take(i + 1).drop_last() =~= v@.take(i as int));
        let mut p: usize = out.len();
        while p > 0 && out[p - 1] > x
            invariant
                p <= out.len(),
                forall|k: int| p <= k < out.len() ==> #[trigger] out@[k] > x,
            decreases p,
        {
            p -= 1;
        }
        proof {
            lemma_number_place(out@, x, p as int);
        }
        if !(p > 0 && out[p - 1] == x) {
            out.insert(p, x);
        }
        i += 1;
    }
    assert(v@.take(v@.len() as int) =~= v@);
    out
}

/// Whether a number is in a list.
pub fn contains_number(v: &Vec<u32>, x: u32) -> (r: bool)
    ensures
        r == v@.contains(x),
{
    let mut i: usize = 0;
    while i < v.len()
        invariant
            i <= v.len(),
            forall|k: int| 0 <= k < i ==> v@[k] != x,
        decreases v.len() - i,
    {
        if v[i] == x {
            assert(v@[i as int] == x);
            return true;
        }
        i += 1;
    }
    false
}

} // verus!
