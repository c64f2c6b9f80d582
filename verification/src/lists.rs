//! Lists and their views: filtering, searching, sorting, and lists kept in
//! strictly ascending order.

use crate::sorting::{dedup, dedup_by, dedup_maps, sort_by, stable_sort, stable_sort_maps};
use crate::text::{before, opt_view, same, text_le, text_lt, views};
use vstd::prelude::*;

verus! {

/// The elements of `s` that `p` holds of, in order.
pub open spec fn keep<T>(s: Seq<T>, p: spec_fn(T) -> bool) -> Seq<T>
    decreases s.len(),
{
    if s.len() == 0 {
        s
    } else if p(s.last()) {
        keep(s.drop_last(), p).push(s.last())
    } else {
        keep(s.drop_last(), p)
    }
}

/// What `f` makes of the elements of `s`, where it makes something.
pub open spec fn pick<T, U>(s: Seq<T>, f: spec_fn(T) -> Option<U>) -> Seq<U>
    decreases s.len(),
{
    if s.len() == 0 {
        Seq::empty()
    } else {
        match f(s.last()) {
            Some(u) => pick(s.drop_last(), f).push(u),
            None => pick(s.drop_last(), f),
        }
    }
}

/// What `f` makes of the elements of `s`, one after another.
pub open spec fn flat<T, U>(s: Seq<T>, f: spec_fn(T) -> Seq<U>) -> Seq<U>
    decreases s.len(),
{
    if s.len() == 0 {
        Seq::empty()
    } else {
        flat(s.drop_last(), f) + f(s.last())
    }
}

/// The first element of `s` that `p` holds of.
pub open spec fn first<T>(s: Seq<T>, p: spec_fn(T) -> bool) -> Option<T>
    decreases s.len(),
{
    if s.len() == 0 {
        None
    } else {
        match first(s.drop_last(), p) {
            Some(x) => Some(x),
            None => if p(s.last()) {
                Some(s.last())
            } else {
                None
            },
        }
    }
}

/// One more element of a prefix.
pub proof fn take_next<T>(s: Seq<T>, i: int)
    requires
        0 <= i < s.len(),
    ensures
        s.take(i + 1).len() == i + 1,
        s.take(i + 1).drop_last() == s.take(i),
        s.take(i + 1).last() == s[i],
        s.take(i + 1) == s.take(i).push(s[i]),
{
    assert(s.take(i + 1).drop_last() =~= s.take(i));
    assert(s.take(i + 1) =~= s.take(i).push(s[i]));
}

pub proof fn take_none<T>(s: Seq<T>)
    ensures
        s.take(0) == Seq::<T>::empty(),
{
    assert(s.take(0) =~= Seq::<T>::empty());
}

pub proof fn take_whole<T>(s: Seq<T>)
    ensures
        s.take(s.len() as int) == s,
{
    assert(s.take(s.len() as int) =~= s);
}

/// `f` makes `u` of an element of `s`.
pub open spec fn made<T, U>(s: Seq<T>, f: spec_fn(T) -> Option<U>, u: U) -> bool {
    exists|x: T| #[trigger] s.contains(x) && f(x) == Some(u)
}

/// Everything picked was made of an element.
pub proof fn picked_from<T, U>(s: Seq<T>, f: spec_fn(T) -> Option<U>)
    ensures
        forall|i: int| 0 <= i < pick(s, f).len() ==> made(s, f, #[trigger] pick(s, f)[i]),
    decreases s.len(),
{
    if s.len() > 0 {
        let rest = s.drop_last();
        picked_from(rest, f);
        assert forall|i: int| 0 <= i < pick(s, f).len() implies made(s, f, #[trigger] pick(s, f)[i]) by {
            let u = pick(s, f)[i];
            if i < pick(rest, f).len() {
                assert(u == pick(rest, f)[i]);
                assert(made(rest, f, pick(rest, f)[i]));
                let x = choose|x: T| #[trigger] rest.contains(x) && f(x) == Some(u);
                let j = rest.index_of(x);
                assert(s[j] == x);
                assert(s.contains(x));
            } else {
                assert(s[s.len() - 1] == s.last());
                assert(s.contains(s.last()));
            }
        }
    }
}

pub proof fn nothing_picked<T, U>(s: Seq<T>, f: spec_fn(T) -> Option<U>)
    requires
        forall|i: int| 0 <= i < s.len() ==> f(#[trigger] s[i]) is None,
    ensures
        pick(s, f) == Seq::<U>::empty(),
    decreases s.len(),
{
    if s.len() > 0 {
        let rest = s.drop_last();
        assert forall|i: int| 0 <= i < rest.len() implies f(#[trigger] rest[i]) is None by {
            assert(rest[i] == s[i]);
        }
        nothing_picked(rest, f);
        assert(f(s[s.len() - 1]) is None);
    }
}

/// Whatever an element makes is picked.
pub proof fn made_is_picked<T, U>(s: Seq<T>, f: spec_fn(T) -> Option<U>, u: U)
    requires
        made(s, f, u),
    ensures
        pick(s, f).contains(u),
    decreases s.len(),
{
    let x = choose|x: T| #[trigger] s.contains(x) && f(x) == Some(u);
    let i = s.index_of(x);
    let rest = s.drop_last();
    if i < rest.len() {
        assert(rest[i] == x);
        assert(rest.contains(x));
        made_is_picked(rest, f, u);
        let j = pick(rest, f).index_of(u);
        assert(pick(s, f)[j] == u);
    } else {
        assert(pick(s, f)[pick(s, f).len() - 1] == u);
    }
}

/// Picking from what is kept is keeping some of what is picked.
pub proof fn keep_of_pick<T, U>(
    s: Seq<T>,
    f: spec_fn(T) -> Option<U>,
    p: spec_fn(T) -> bool,
    g: spec_fn(T) -> Option<U>,
    r: spec_fn(U) -> bool,
)
    requires
        forall|x: T| p(x) ==> #[trigger] g(x) == f(x),
        forall|x: T| (#[trigger] f(x)) matches Some(u) ==> p(x) == r(u),
    ensures
        pick(keep(s, p), g) == keep(pick(s, f), r),
    decreases s.len(),
{
    if s.len() > 0 {
        let rest = s.drop_last();
        keep_of_pick(rest, f, p, g, r);
        let x = s.last();
        let picked = pick(rest, f);
        let kept = keep(rest, p);
        assert(kept.push(x).drop_last() =~= kept);
        if let Some(u) = f(x) {
            assert(picked.push(u).drop_last() =~= picked);
        }
        assert(p(x) ==> g(x) == f(x));
    } else {
        assert(pick(keep(s, p), g) =~= keep(pick(s, f), r));
    }
}

/// An element of the list makes `u`, among other things.
pub open spec fn makes<T, U>(s: Seq<T>, f: spec_fn(T) -> Seq<U>, u: U) -> bool {
    exists|x: T| #[trigger] s.contains(x) && f(x).contains(u)
}

/// What stands in a flattened list was made of an element, and the other way round.
pub proof fn flat_members<T, U>(s: Seq<T>, f: spec_fn(T) -> Seq<U>, u: U)
    ensures
        flat(s, f).contains(u) <==> makes(s, f, u),
    decreases s.len(),
{
    if s.len() > 0 {
        let rest = s.drop_last();
        flat_members(rest, f, u);
        let a = flat(rest, f);
        let b = f(s.last());
        if a.contains(u) {
            let x = choose|x: T| #[trigger] rest.contains(x) && f(x).contains(u);
            let i = rest.index_of(x);
            assert(s[i] == x);
            assert(s.contains(x));
            assert((a + b)[a.index_of(u)] == u);
        }
        if b.contains(u) {
            assert(s[s.len() - 1] == s.last());
            assert(s.contains(s.last()));
            assert((a + b)[a.len() + b.index_of(u)] == u);
        }
        if flat(s, f).contains(u) {
            let k = flat(s, f).index_of(u);
            if k < a.len() {
                assert(a[k] == u);
            } else {
                assert(b[k - a.len()] == u);
            }
        }
        if makes(s, f, u) {
            let x = choose|x: T| #[trigger] s.contains(x) && f(x).contains(u);
            let i = s.index_of(x);
            if i < rest.len() {
                assert(rest[i] == x);
                assert(rest.contains(x));
            }
        }
    }
}

/// Flattening what is kept is keeping some of what is flattened.
pub proof fn keep_of_flat<T, U>(
    s: Seq<T>,
    f: spec_fn(T) -> Seq<U>,
    p: spec_fn(T) -> bool,
    g: spec_fn(T) -> Seq<U>,
    r: spec_fn(U) -> bool,
)
    requires
        forall|x: T| #[trigger] f(x).len() >= 0 && (if p(x) {
            g(x) == keep(f(x), r)
        } else {
            keep(f(x), r).len() == 0
        }),
    ensures
        flat(keep(s, p), g) == keep(flat(s, f), r),
    decreases s.len(),
{
    if s.len() > 0 {
        let rest = s.drop_last();
        keep_of_flat(rest, f, p, g, r);
        let x = s.last();
        let kept = keep(rest, p);
        assert(kept.push(x).drop_last() =~= kept);
        keep_add(flat(rest, f), f(x), r);
        assert(f(x).len() >= 0);
        if !p(x) {
            assert(keep(flat(rest, f), r) + keep(f(x), r) =~= keep(flat(rest, f), r));
        }
    } else {
        assert(flat(keep(s, p), g) =~= keep(flat(s, f), r));
    }
}

/// Dropping repeats and keeping only some commute in a sorted list, where what is
/// kept does not tell repeats apart.
pub proof fn keep_of_dedup<T>(
    s: Seq<T>,
    le: spec_fn(T, T) -> bool,
    eq: spec_fn(T, T) -> bool,
    p: spec_fn(T) -> bool,
)
    requires
        crate::sorting::total_preorder(le),
        crate::sorting::sorted(s, le),
        forall|a: T, b: T| #[trigger] eq(a, b) == (le(a, b) && le(b, a)),
        forall|a: T, b: T| #[trigger] eq(a, b) ==> p(a) == p(b),
    ensures
        keep(dedup(s, eq), p) == dedup(keep(s, p), eq),
    decreases s.len(),
{
    if s.len() > 0 {
        let rest = s.drop_last();
        let x = s.last();
        assert forall|i: int, j: int| 0 <= i < j < rest.len() implies le(#[trigger] rest[i], #[trigger] rest[j]) by {
            assert(le(s[i], s[j]));
        }
        keep_of_dedup(rest, le, eq, p);
        crate::sorting::dedup_of_sorted(rest, le, eq);
        let d = dedup(rest, eq);
        let k = keep(rest, p);
        assert(k.push(x).drop_last() =~= k);
        assert(d.push(x).drop_last() =~= d);
        if d.len() > 0 && eq(x, d.last()) {
            assert(d.drop_last().push(d.last()) =~= d);
            if p(x) {
                assert(p(d.last()));
                assert(keep(d, p).last() == d.last());
            }
        } else if p(x) && keep(d, p).len() > 0 {
            let y = keep(d, p).last();
            keep_members(d, p);
            assert(keep(d, p).contains(y));
            assert(rest.contains(y));
            let i = rest.index_of(y);
            assert(s[i] == y);
            assert(s[rest.len() - 1] == rest.last());
            if eq(x, y) {
                // Then the last element before `x` is alike to it too.
                assert(le(x, y));
                assert(le(rest.last(), x)) by {
                    assert(le(s[rest.len() - 1], s[s.len() - 1]));
                }
                assert(le(y, rest.last())) by {
                    if i < rest.len() - 1 {
                        assert(le(s[i], s[rest.len() - 1]));
                    } else {
                        assert(le(y, y) || le(y, y));
                    }
                }
                assert(le(x, rest.last()));
                assert(eq(d.last(), rest.last()));
                assert(le(x, d.last()) && le(d.last(), x));
                assert(eq(x, d.last()));
            }
        }
    }
}

/// An element is kept exactly when it was there and `p` holds of it.
pub proof fn keep_members<T>(s: Seq<T>, p: spec_fn(T) -> bool)
    ensures
        forall|x: T| #[trigger] keep(s, p).contains(x) <==> s.contains(x) && p(x),
        keep(s, p).len() <= s.len(),
    decreases s.len(),
{
    if s.len() > 0 {
        let rest = s.drop_last();
        keep_members(rest, p);
        assert forall|x: T| #[trigger] keep(s, p).contains(x) <==> s.contains(x) && p(x) by {
            if s.contains(x) {
                let i = s.index_of(x);
                if i < s.len() - 1 {
                    assert(rest[i] == x);
                }
            }
            if rest.contains(x) {
                let i = rest.index_of(x);
                assert(s[i] == x);
            }
            assert(s[s.len() - 1] == s.last());
            let k = keep(rest, p);
            if k.contains(x) {
                let i = k.index_of(x);
                assert(k.push(s.last())[i] == x);
            }
            assert(k.push(s.last())[k.len() as int] == s.last());
            if p(s.last()) && k.push(s.last()).contains(x) {
                let i = k.push(s.last()).index_of(x);
                if i < k.len() {
                    assert(k[i] == x);
                }
            }
        }
    }
}

/// What `first` finds is an element that `p` holds of, and it finds one
/// whenever there is one.
pub proof fn first_found<T>(s: Seq<T>, p: spec_fn(T) -> bool)
    ensures
        first(s, p) matches Some(x) ==> s.contains(x) && p(x),
        first(s, p) is None ==> forall|i: int| 0 <= i < s.len() ==> !p(#[trigger] s[i]),
    decreases s.len(),
{
    if s.len() > 0 {
        let rest = s.drop_last();
        first_found(rest, p);
        if first(rest, p) is Some {
            let x = first(rest, p).unwrap();
            let i = rest.index_of(x);
            assert(s[i] == x);
        } else {
            assert forall|i: int| 0 <= i < s.len() && !p(s.last()) implies !p(#[trigger] s[i]) by {
                if i < s.len() - 1 {
                    assert(rest[i] == s[i]);
                }
            }
            assert(s[s.len() - 1] == s.last());
        }
    }
}

/// As many are kept of one list as of another where the same places pass.
pub proof fn same_count<T, U>(s: Seq<T>, p: spec_fn(T) -> bool, t: Seq<U>, q: spec_fn(U) -> bool)
    requires
        s.len() == t.len(),
        forall|i: int| 0 <= i < s.len() ==> p(#[trigger] s[i]) == q(t[i]),
    ensures
        keep(s, p).len() == keep(t, q).len(),
    decreases s.len(),
{
    if s.len() > 0 {
        let n = s.len() - 1;
        assert forall|i: int| 0 <= i < n implies p(#[trigger] s.drop_last()[i]) == q(t.drop_last()[i]) by {
            assert(s.drop_last()[i] == s[i]);
        }
        same_count(s.drop_last(), p, t.drop_last(), q);
        assert(p(s[n]) == q(t[n]));
    }
}

/// What is kept of two lists one after the other.
pub proof fn keep_add<T>(a: Seq<T>, b: Seq<T>, p: spec_fn(T) -> bool)
    ensures
        keep(a + b, p) == keep(a, p) + keep(b, p),
    decreases b.len(),
{
    if b.len() == 0 {
        assert(a + b =~= a);
        assert(keep(a, p) + keep(b, p) =~= keep(a, p));
    } else {
        keep_add(a, b.drop_last(), p);
        assert((a + b).drop_last() =~= a + b.drop_last());
        assert(keep(a + b, p) =~= keep(a, p) + keep(b, p));
    }
}

/// Where `p` holds of everything, everything is kept.
pub proof fn keep_everything<T>(s: Seq<T>, p: spec_fn(T) -> bool)
    requires
        forall|i: int| 0 <= i < s.len() ==> p(#[trigger] s[i]),
    ensures
        keep(s, p) == s,
    decreases s.len(),
{
    if s.len() > 0 {
        let rest = s.drop_last();
        assert forall|i: int| 0 <= i < rest.len() implies p(#[trigger] rest[i]) by {
            assert(p(s[i]));
        }
        keep_everything(rest, p);
        assert(p(s[s.len() - 1]));
        assert(rest.push(s.last()) =~= s);
    }
}

proof fn keep_of_place<T>(s: Seq<T>, x: T, le: spec_fn(T, T) -> bool, p: spec_fn(T) -> bool)
    requires
        crate::sorting::total_preorder(le),
        crate::sorting::sorted(s, le),
    ensures
        keep(crate::sorting::place(s, x, le), p) == (if p(x) {
            crate::sorting::place(keep(s, p), x, le)
        } else {
            keep(s, p)
        }),
    decreases s.len(),
{
    if s.len() == 0 || le(s.last(), x) {
        assert(s.push(x).drop_last() =~= s);
        keep_members(s, p);
        let k = keep(s, p);
        if k.len() > 0 {
            assert(k.contains(k.last()));
            let i = s.index_of(k.last());
            if i < s.len() - 1 {
                assert(le(s[i], s[s.len() - 1]));
            }
            assert(le(k.last(), x));
        }
    } else {
        let rest = s.drop_last();
        assert forall|i: int, j: int| 0 <= i < j < rest.len() implies le(#[trigger] rest[i], #[trigger] rest[j]) by {
            assert(le(s[i], s[j]));
        }
        keep_of_place(rest, x, le, p);
        let q = crate::sorting::place(rest, x, le);
        assert(q.push(s.last()).drop_last() =~= q);
        let k = keep(rest, p);
        assert(k.push(s.last()).drop_last() =~= k);
    }
}

/// Filtering a sorted list is sorting the filtered list.
pub proof fn keep_of_sorted<T>(s: Seq<T>, le: spec_fn(T, T) -> bool, p: spec_fn(T) -> bool)
    requires
        crate::sorting::total_preorder(le),
    ensures
        keep(stable_sort(s, le), p) == stable_sort(keep(s, p), le),
    decreases s.len(),
{
    if s.len() > 0 {
        let rest = s.drop_last();
        keep_of_sorted(rest, le, p);
        crate::sorting::stable_sort_sorted(rest, le);
        keep_of_place(stable_sort(rest, le), s.last(), le, p);
        let k = keep(rest, p);
        assert(k.push(s.last()).drop_last() =~= k);
    }
}

/// What `p` holds of exactly in a range is that range.
pub proof fn keep_of_range<T>(s: Seq<T>, p: spec_fn(T) -> bool, lo: int, hi: int)
    requires
        0 <= lo <= hi <= s.len(),
        forall|i: int| 0 <= i < s.len() ==> p(#[trigger] s[i]) == (lo <= i < hi),
    ensures
        keep(s, p) == s.subrange(lo, hi),
    decreases s.len(),
{
    if s.len() == 0 {
        assert(keep(s, p) =~= s.subrange(lo, hi));
    } else {
        let rest = s.drop_last();
        assert forall|i: int| 0 <= i < rest.len() implies p(#[trigger] rest[i]) == (lo <= i < hi) by {
            assert(rest[i] == s[i]);
        }
        assert(p(s[s.len() - 1]) == (lo <= s.len() - 1 < hi));
        if hi == s.len() && lo < hi {
            keep_of_range(rest, p, lo, hi - 1);
            assert(s.subrange(lo, hi) =~= rest.subrange(lo, hi - 1).push(s.last()));
        } else if hi == s.len() {
            keep_of_range(rest, p, lo - 1, lo - 1);
            assert(rest.subrange(lo - 1, lo - 1) =~= s.subrange(lo, hi));
        } else {
            keep_of_range(rest, p, lo, hi);
            assert(rest.subrange(lo, hi) =~= s.subrange(lo, hi));
        }
    }
}

/// Two orders that agree on the elements of a list sort it the same way.
pub proof fn stable_sort_agrees<T>(s: Seq<T>, le: spec_fn(T, T) -> bool, le2: spec_fn(T, T) -> bool)
    requires
        forall|a: T, b: T| s.contains(a) && s.contains(b) ==> #[trigger] le(a, b) == le2(a, b),
    ensures
        stable_sort(s, le) == stable_sort(s, le2),
    decreases s.len(),
{
    if s.len() > 0 {
        let rest = s.drop_last();
        assert forall|a: T| rest.contains(a) implies #[trigger] s.contains(a) by {
            let i = rest.index_of(a);
            assert(s[i] == a);
        }
        assert forall|a: T, b: T| rest.contains(a) && rest.contains(b) implies #[trigger] le(a, b) == le2(a, b) by {
            assert(s.contains(a) && s.contains(b));
        }
        stable_sort_agrees(rest, le, le2);
        crate::sorting::stable_sort_keeps(rest, le);
        let t = stable_sort(rest, le);
        assert(s[s.len() - 1] == s.last());
        assert forall|i: int| 0 <= i < t.len() implies le(#[trigger] t[i], s.last()) == le2(t[i], s.last()) by {
            assert(t.contains(t[i]));
            assert(s.contains(t[i]));
        }
        place_agrees(t, s.last(), le, le2);
    }
}

proof fn place_agrees<T>(s: Seq<T>, x: T, le: spec_fn(T, T) -> bool, le2: spec_fn(T, T) -> bool)
    requires
        forall|i: int| 0 <= i < s.len() ==> le(#[trigger] s[i], x) == le2(s[i], x),
    ensures
        crate::sorting::place(s, x, le) == crate::sorting::place(s, x, le2),
    decreases s.len(),
{
    if s.len() > 0 {
        assert(le(s[s.len() - 1], x) == le2(s[s.len() - 1], x));
        let rest = s.drop_last();
        assert forall|i: int| 0 <= i < rest.len() implies le(#[trigger] rest[i], x) == le2(rest[i], x) by {
            assert(le(s[i], x) == le2(s[i], x));
        }
        place_agrees(rest, x, le, le2);
    }
}

// --- the same on lists of values -----------------------------------------------
/// The test that `f` computes of the view of every element.
pub open spec fn tests<T: View, F: Fn(&T) -> bool>(f: F, p: spec_fn(T::V) -> bool) -> bool {
    &&& forall|a: T| #[trigger] call_requires(f, (&a,))
    &&& forall|a: T, r: bool| #[trigger] call_ensures(f, (&a,), r) ==> r == p(a@)
}

/// The relation that `f` computes of the views of every two elements.
pub open spec fn relates<T: View, F: Fn(&T, &T) -> bool>(f: F, rel: spec_fn(T::V, T::V) -> bool) -> bool {
    &&& forall|a: T, b: T| #[trigger] call_requires(f, (&a, &b))
    &&& forall|a: T, b: T, r: bool| #[trigger] call_ensures(f, (&a, &b), r) ==> r == rel(a@, b@)
}

pub proof fn views_push<T: View>(v: Seq<T>, x: T)
    ensures
        views(v.push(x)) == views(v).push(x@),
{
    assert(views(v.push(x)) =~= views(v).push(x@));
}

/// Keeps the elements that `f` holds of.
pub fn retain<T: View, F: Fn(&T) -> bool>(v: Vec<T>, f: F, Ghost(p): Ghost<spec_fn(T::V) -> bool>) -> (r: Vec<T>)
    requires
        tests(f, p),
    ensures
        views(r@) == keep(views(v@), p),
{
    let ghost all = v@;
    let mut out: Vec<T> = Vec::new();
    proof {
        take_none(views(all));
        assert(views(out@) =~= Seq::<T::V>::empty());
    }
    for x in it: v
        invariant
            it.seq() == all,
            tests(f, p),
            views(out@) == keep(views(all).take(it.index() as int), p),
    {
        proof {
            take_next(views(all), it.index() as int);
            views_push(out@, x);
        }
        if f(&x) {
            out.push(x);
        }
    }
    proof {
        take_whole(views(all));
    }
    out
}

/// Clones of the elements that `f` holds of.
pub fn select_clones<T: View + Clone, F: Fn(&T) -> bool>(
    v: &Vec<T>,
    f: F,
    Ghost(p): Ghost<spec_fn(T::V) -> bool>,
) -> (r: Vec<T>)
    requires
        tests(f, p),
        forall|a: T, b: T| #[trigger] call_ensures(T::clone, (&a,), b) ==> a@ == b@,
        forall|a: T| #[trigger] call_requires(T::clone, (&a,)),
    ensures
        views(r@) == keep(views(v@), p),
{
    let mut out: Vec<T> = Vec::new();
    let mut i: usize = 0;
    proof {
        take_none(views(v@));
        assert(views(out@) =~= Seq::<T::V>::empty());
    }
    while i < v.len()
        invariant
            i <= v@.len(),
            tests(f, p),
            forall|a: T, b: T| #[trigger] call_ensures(T::clone, (&a,), b) ==> a@ == b@,
            forall|a: T| #[trigger] call_requires(T::clone, (&a,)),
            views(out@) == keep(views(v@).take(i as int), p),
        decreases v@.len() - i,
    {
        proof {
            take_next(views(v@), i as int);
        }
        if f(&v[i]) {
            let c = v[i].clone();
            proof {
                views_push(out@, c);
            }
            out.push(c);
        }
        i += 1;
    }
    proof {
        take_whole(views(v@));
    }
    out
}

/// Clones of all elements.
pub fn clone_all<T: View + Clone>(v: &Vec<T>) -> (r: Vec<T>)
    requires
        forall|a: T, b: T| #[trigger] call_ensures(T::clone, (&a,), b) ==> a@ == b@,
        forall|a: T| #[trigger] call_requires(T::clone, (&a,)),
    ensures
        views(r@) == views(v@),
{
    let mut out: Vec<T> = Vec::new();
    let mut i: usize = 0;
    assert(views(out@) =~= views(v@).take(0));
    while i < v.len()
        invariant
            i <= v@.len(),
            forall|a: T, b: T| #[trigger] call_ensures(T::clone, (&a,), b) ==> a@ == b@,
            forall|a: T| #[trigger] call_requires(T::clone, (&a,)),
            views(out@) == views(v@).take(i as int),
        decreases v@.len() - i,
    {
        let c = v[i].clone();
        proof {
            take_next(views(v@), i as int);
            views_push(out@, c);
        }
        out.push(c);
        i += 1;
    }
    proof {
        take_whole(views(v@));
    }
    out
}

/// What `f` makes of the elements, where it makes something.
pub fn pick_views<T: View, U: View, F: Fn(&T) -> Option<U>>(
    v: &Vec<T>,
    f: F,
    Ghost(g): Ghost<spec_fn(T::V) -> Option<U::V>>,
) -> (r: Vec<U>)
    requires
        forall|a: T| #[trigger] call_requires(f, (&a,)),
        forall|a: T, r: Option<U>| #[trigger] call_ensures(f, (&a,), r) ==> opt_view(r) == g(a@),
    ensures
        views(r@) == pick(views(v@), g),
{
    let mut out: Vec<U> = Vec::new();
    let mut i: usize = 0;
    proof {
        take_none(views(v@));
        assert(views(out@) =~= Seq::<U::V>::empty());
    }
    while i < v.len()
        invariant
            i <= v@.len(),
            forall|a: T| #[trigger] call_requires(f, (&a,)),
            forall|a: T, r: Option<U>| #[trigger] call_ensures(f, (&a,), r) ==> opt_view(r) == g(a@),
            views(out@) == pick(views(v@).take(i as int), g),
        decreases v@.len() - i,
    {
        proof {
            take_next(views(v@), i as int);
        }
        match f(&v[i]) {
            Some(u) => {
                proof {
                    views_push(out@, u);
                }
                out.push(u);
            },
            None => {},
        }
        i += 1;
    }
    proof {
        take_whole(views(v@));
    }
    out
}

/// What `f` makes of the elements, one after another.
pub fn flat_views<T: View, U: View, F: Fn(&T) -> Vec<U>>(
    v: &Vec<T>,
    f: F,
    Ghost(g): Ghost<spec_fn(T::V) -> Seq<U::V>>,
) -> (r: Vec<U>)
    requires
        forall|a: T| #[trigger] call_requires(f, (&a,)),
        forall|a: T, r: Vec<U>| #[trigger] call_ensures(f, (&a,), r) ==> views(r@) == g(a@),
    ensures
        views(r@) == flat(views(v@), g),
{
    let mut out: Vec<U> = Vec::new();
    let mut i: usize = 0;
    proof {
        take_none(views(v@));
        assert(views(out@) =~= Seq::<U::V>::empty());
    }
    while i < v.len()
        invariant
            i <= v@.len(),
            forall|a: T| #[trigger] call_requires(f, (&a,)),
            forall|a: T, r: Vec<U>| #[trigger] call_ensures(f, (&a,), r) ==> views(r@) == g(a@),
            views(out@) == flat(views(v@).take(i as int), g),
        decreases v@.len() - i,
    {
        proof {
            take_next(views(v@), i as int);
        }
        let mut more = f(&v[i]);
        let ghost m = more@;
        proof {
            views_add(out@, m);
        }
        out.append(&mut more);
        i += 1;
    }
    proof {
        take_whole(views(v@));
    }
    out
}

pub proof fn views_add<T: View>(a: Seq<T>, b: Seq<T>)
    ensures
        views(a + b) == views(a) + views(b),
{
    assert(views(a + b) =~= views(a) + views(b));
}

/// The first element that `f` holds of.
pub fn find_first<'a, T: View, F: Fn(&T) -> bool>(
    v: &'a Vec<T>,
    f: F,
    Ghost(p): Ghost<spec_fn(T::V) -> bool>,
) -> (r: Option<&'a T>)
    requires
        tests(f, p),
    ensures
        r matches Some(x) ==> first(views(v@), p) == Some(x@),
        r is None ==> first(views(v@), p) is None,
{
    let mut i: usize = 0;
    proof {
        take_none(views(v@));
    }
    while i < v.len()
        invariant
            i <= v@.len(),
            tests(f, p),
            first(views(v@).take(i as int), p) is None,
        decreases v@.len() - i,
    {
        proof {
            take_next(views(v@), i as int);
        }
        if f(&v[i]) {
            proof {
                first_of_prefix(views(v@), p, i as int + 1);
            }
            return Some(&v[i]);
        }
        i += 1;
    }
    proof {
        take_whole(views(v@));
    }
    None
}

/// What is found in a prefix is found in the whole.
pub proof fn first_of_prefix<T>(s: Seq<T>, p: spec_fn(T) -> bool, i: int)
    requires
        0 <= i <= s.len(),
        first(s.take(i), p) is Some,
    ensures
        first(s, p) == first(s.take(i), p),
    decreases s.len() - i,
{
    if i < s.len() {
        take_next(s, i);
        first_of_prefix(s, p, i + 1);
    } else {
        take_whole(s);
    }
}

/// Sorts by the views of the elements.
pub fn sort_views<T: View, F: Fn(&T, &T) -> bool>(
    v: Vec<T>,
    le: F,
    Ghost(rel): Ghost<spec_fn(T::V, T::V) -> bool>,
) -> (r: Vec<T>)
    requires
        relates(le, rel),
    ensures
        views(r@) == stable_sort(views(v@), rel),
        r@.len() == v@.len(),
{
    proof {
        stable_sort_maps(v@, |a: T, b: T| rel(a@, b@), |x: T| x@, rel);
        crate::sorting::stable_sort_keeps(v@, |a: T, b: T| rel(a@, b@));
    }
    let ghost all = v@;
    let out = sort_by(v, le, Ghost(|a: T, b: T| rel(a@, b@)));
    assert(views(out@) =~= stable_sort(all, |a: T, b: T| rel(a@, b@)).map_values(|x: T| x@));
    assert(views(all) =~= all.map_values(|x: T| x@));
    out
}

/// Drops repeats, going by the views of the elements.
pub fn dedup_views<T: View, F: Fn(&T, &T) -> bool>(
    v: Vec<T>,
    eq: F,
    Ghost(rel): Ghost<spec_fn(T::V, T::V) -> bool>,
) -> (r: Vec<T>)
    requires
        relates(eq, rel),
    ensures
        views(r@) == dedup(views(v@), rel),
{
    proof {
        dedup_maps(v@, |a: T, b: T| rel(a@, b@), |x: T| x@, rel);
    }
    let ghost all = v@;
    let out = dedup_by(v, eq, Ghost(|a: T, b: T| rel(a@, b@)));
    assert(views(out@) =~= dedup(all, |a: T, b: T| rel(a@, b@)).map_values(|x: T| x@));
    assert(views(all) =~= all.map_values(|x: T| x@));
    out
}

/// The order of texts, as a relation.
pub open spec fn text_order() -> spec_fn(Seq<char>, Seq<char>) -> bool {
    |a: Seq<char>, b: Seq<char>| text_le(a, b)
}

pub open spec fn text_same() -> spec_fn(Seq<char>, Seq<char>) -> bool {
    |a: Seq<char>, b: Seq<char>| a == b
}

/// Sorted, without repeats.
pub open spec fn sorted_set(s: Seq<Seq<char>>) -> Seq<Seq<char>> {
    dedup(stable_sort(s, text_order()), text_same())
}

pub fn sort_texts(v: Vec<String>) -> (r: Vec<String>)
    ensures
        views(r@) == stable_sort(views(v@), text_order()),
{
    let le = |a: &String, b: &String| -> (r: bool)
        ensures
            r == text_le(a@, b@),
        {
            !before(b.as_str(), a.as_str())
        };
    sort_views(v, le, Ghost(text_order()))
}

pub fn sort_dedup_texts(v: Vec<String>) -> (r: Vec<String>)
    ensures
        views(r@) == sorted_set(views(v@)),
{
    let s = sort_texts(v);
    let eq = |a: &String, b: &String| -> (r: bool)
        ensures
            r == (a@ == b@),
        {
            same(a.as_str(), b.as_str())
        };
    dedup_views(s, eq, Ghost(text_same()))
}

proof fn dedup_of_sorted(s: Seq<Seq<char>>)
    requires
        crate::sorting::sorted(s, text_order()),
    ensures
        ({
            let d = dedup(s, text_same());
            &&& forall|i: int, j: int| 0 <= i < j < d.len() ==> text_lt(#[trigger] d[i], #[trigger] d[j])
            &&& forall|x: Seq<char>| #[trigger] d.contains(x) <==> s.contains(x)
            &&& s.len() > 0 ==> d.len() > 0 && d.last() == s.last()
        }),
    decreases s.len(),
{
    if s.len() > 0 {
        let rest = s.drop_last();
        let x = s.last();
        assert forall|i: int, j: int| 0 <= i < j < rest.len() implies text_order()(
            #[trigger] rest[i],
            #[trigger] rest[j],
        ) by {
            assert(text_order()(s[i], s[j]));
        }
        dedup_of_sorted(rest);
        let kept = dedup(rest, text_same());
        let d = dedup(s, text_same());
        if kept.len() > 0 && x != kept.last() {
            assert(text_order()(s[rest.len() - 1], s[s.len() - 1]));
            crate::text::text_lt_total(kept.last(), x);
            assert forall|i: int| 0 <= i < kept.len() implies text_lt(#[trigger] kept[i], x) by {
                if i < kept.len() - 1 {
                    crate::text::text_lt_transitive(kept[i], kept.last(), x);
                }
            }
        }
        assert(s[s.len() - 1] == x);
        assert forall|y: Seq<char>| #[trigger] d.contains(y) <==> s.contains(y) by {
            if kept.contains(y) {
                let i = kept.index_of(y);
                assert(d[i] == y);
            }
            if rest.contains(y) {
                let i = rest.index_of(y);
                assert(s[i] == y);
            }
            if s.contains(y) && y != x {
                let i = s.index_of(y);
                assert(rest[i] == y);
            }
            if d.contains(y) && !kept.contains(y) {
                let i = d.index_of(y);
                if i < kept.len() {
                    assert(kept[i] == y);
                }
            }
            if y == x {
                assert(d[d.len() - 1] == x);
            }
        }
    }
}

/// A sorted set is strictly ascending, so that nothing occurs twice, and holds
/// exactly what it was made of.
pub proof fn sorted_set_laws(s: Seq<Seq<char>>)
    ensures
        forall|i: int, j: int|
            0 <= i < j < sorted_set(s).len() ==> text_lt(#[trigger] sorted_set(s)[i], #[trigger] sorted_set(s)[j]),
        sorted_set(s).no_duplicates(),
        forall|x: Seq<char>| #[trigger] sorted_set(s).contains(x) <==> s.contains(x),
{
    text_order_total();
    crate::sorting::stable_sort_sorted(s, text_order());
    crate::sorting::stable_sort_keeps(s, text_order());
    dedup_of_sorted(stable_sort(s, text_order()));
    let d = sorted_set(s);
    assert forall|i: int, j: int| 0 <= i < d.len() && 0 <= j < d.len() && i != j implies d[i] != d[j] by {
        crate::text::text_lt_irreflexive(d[i]);
        if i < j {
            assert(text_lt(d[i], d[j]));
        } else {
            assert(text_lt(d[j], d[i]));
        }
    }
}

pub proof fn text_order_total()
    ensures
        crate::sorting::total_preorder(text_order()),
{
    let le = text_order();
    assert forall|a: Seq<char>, b: Seq<char>| #![trigger le(a, b)] le(a, b) || le(b, a) by {
        if text_lt(b, a) {
            crate::text::text_lt_asymmetric(b, a);
        }
    }
    assert forall|a: Seq<char>, b: Seq<char>, c: Seq<char>|
        #![trigger le(a, b), le(b, c)]
        le(a, b) && le(b, c) implies le(a, c) by {
        text_le_transitive(a, b, c);
    }
}

pub proof fn text_le_transitive(a: Seq<char>, b: Seq<char>, c: Seq<char>)
    requires
        text_le(a, b),
        text_le(b, c),
    ensures
        text_le(a, c),
{
    crate::text::text_lt_total(a, b);
    if text_lt(c, a) {
        if text_lt(a, b) {
            crate::text::text_lt_transitive(c, a, b);
        }
    }
}

// --- the best of each kind ---------------------------------------------------------
/// Where an element alike to `c` first stands in the list, or the length of the
/// list.
pub open spec fn spot<T>(best: Seq<T>, c: T, alike: spec_fn(T, T) -> bool) -> int
    decreases best.len(),
{
    if best.len() == 0 {
        0
    } else if spot(best.drop_last(), c, alike) < best.len() - 1 {
        spot(best.drop_last(), c, alike)
    } else if alike(best.last(), c) {
        best.len() - 1
    } else {
        best.len() as int
    }
}

/// The list with `c` taken in: it replaces the element it is alike to, unless
/// `keeps` says that one stays.
pub open spec fn absorb<T>(best: Seq<T>, c: T, alike: spec_fn(T, T) -> bool, keeps: spec_fn(T, T) -> bool) -> Seq<T> {
    let i = spot(best, c, alike);
    if i >= best.len() {
        best.push(c)
    } else if keeps(best[i], c) {
        best
    } else {
        best.update(i, c)
    }
}

/// Of the elements that are alike, the one that is left when each is taken in
/// after the other.
pub open spec fn best_of<T>(s: Seq<T>, alike: spec_fn(T, T) -> bool, keeps: spec_fn(T, T) -> bool) -> Seq<T>
    decreases s.len(),
{
    if s.len() == 0 {
        Seq::empty()
    } else {
        absorb(best_of(s.drop_last(), alike, keeps), s.last(), alike, keeps)
    }
}

pub proof fn spot_found<T>(best: Seq<T>, c: T, alike: spec_fn(T, T) -> bool)
    ensures
        0 <= spot(best, c, alike) <= best.len(),
        spot(best, c, alike) < best.len() ==> alike(best[spot(best, c, alike)], c),
        forall|j: int| 0 <= j < spot(best, c, alike) ==> !alike(#[trigger] best[j], c),
    decreases best.len(),
{
    if best.len() > 0 {
        spot_found(best.drop_last(), c, alike);
        let k = spot(best, c, alike);
        assert forall|j: int| 0 <= j < k implies !alike(#[trigger] best[j], c) by {
            if j < best.len() - 1 {
                assert(best.drop_last()[j] == best[j]);
            }
        }
    }
}

pub proof fn spot_is<T>(best: Seq<T>, c: T, alike: spec_fn(T, T) -> bool, i: int)
    requires
        0 <= i <= best.len(),
        i < best.len() ==> alike(best[i], c),
        forall|j: int| 0 <= j < i ==> !alike(#[trigger] best[j], c),
    ensures
        spot(best, c, alike) == i,
{
    spot_found(best, c, alike);
}

/// Where being alike is having the same key and what stays is what ranks no
/// higher: no two of what is left have the same key, each was in the list, and
/// each element of the list has a counterpart that is left and ranks no higher.
pub proof fn best_of_laws<T, K>(
    s: Seq<T>,
    alike: spec_fn(T, T) -> bool,
    keeps: spec_fn(T, T) -> bool,
    key: spec_fn(T) -> K,
    order: spec_fn(T) -> int,
)
    requires
        forall|a: T, b: T| #[trigger] alike(a, b) == (key(a) == key(b)),
        forall|a: T, b: T| #[trigger] keeps(a, b) == (order(a) <= order(b)),
    ensures
        forall|i: int, j: int|
            0 <= i < j < best_of(s, alike, keeps).len() ==> key(#[trigger] best_of(s, alike, keeps)[i]) != key(
                #[trigger] best_of(s, alike, keeps)[j],
            ),
        forall|i: int| 0 <= i < best_of(s, alike, keeps).len() ==> s.contains(#[trigger] best_of(s, alike, keeps)[i]),
        forall|k: int|
            0 <= k < s.len() ==> exists|i: int|
                0 <= i < best_of(s, alike, keeps).len() && key(#[trigger] best_of(s, alike, keeps)[i]) == key(
                    #[trigger] s[k],
                ) && order(best_of(s, alike, keeps)[i]) <= order(s[k]),
    decreases s.len(),
{
    if s.len() > 0 {
        let rest = s.drop_last();
        let c = s.last();
        best_of_laws(rest, alike, keeps, key, order);
        let b = best_of(rest, alike, keeps);
        let r = best_of(s, alike, keeps);
        let p = spot(b, c, alike);
        spot_found(b, c, alike);
        assert(r == absorb(b, c, alike, keeps));
        assert forall|j: int| 0 <= j < p implies key(#[trigger] b[j]) != key(c) by {
            assert(!alike(b[j], c));
        }
        assert forall|i: int, j: int| 0 <= i < j < r.len() implies key(#[trigger] r[i]) != key(#[trigger] r[j]) by {
            if j < b.len() {
                assert(key(b[i]) != key(b[j]));
            }
        }
        assert forall|i: int| 0 <= i < r.len() implies s.contains(#[trigger] r[i]) by {
            if r[i] == c {
                assert(s[s.len() - 1] == c);
            } else {
                assert(r[i] == b[i]);
                let k = rest.index_of(b[i]);
                assert(s[k] == b[i]);
            }
        }
        assert forall|k: int| 0 <= k < s.len() implies exists|i: int|
            0 <= i < r.len() && key(#[trigger] r[i]) == key(#[trigger] s[k]) && order(r[i]) <= order(s[k]) by {
            if k < s.len() - 1 {
                assert(rest[k] == s[k]);
                let i = choose|i: int|
                    0 <= i < b.len() && key(#[trigger] b[i]) == key(rest[k]) && order(b[i]) <= order(rest[k]);
                if r[i] != b[i] {
                    assert(i == p && r[i] == c);
                    assert(!keeps(b[p], c));
                }
                assert(key(r[i]) == key(s[k]) && order(r[i]) <= order(s[k]));
            } else if p >= b.len() {
                assert(r[b.len() as int] == c);
            } else {
                assert(keeps(b[p], c) == (order(b[p]) <= order(c)));
                assert(key(r[p]) == key(s[k]) && order(r[p]) <= order(s[k]));
            }
        }
    }
}

fn take_in<T: View, E: Fn(&T, &T) -> bool, K: Fn(&T, &T) -> bool>(
    best: &mut Vec<T>,
    c: T,
    same_kind: &E,
    stays: &K,
    Ghost(alike): Ghost<spec_fn(T::V, T::V) -> bool>,
    Ghost(keeps): Ghost<spec_fn(T::V, T::V) -> bool>,
)
    requires
        relates(*same_kind, alike),
        relates(*stays, keeps),
    ensures
        views(final(best)@) == absorb(views(old(best)@), c@, alike, keeps),
{
    let mut i: usize = 0;
    let ghost s = views(best@);
    while i < best.len() && !same_kind(&best[i], &c)
        invariant
            i <= best@.len(),
            relates(*same_kind, alike),
            s == views(best@),
            best@ == old(best)@,
            forall|j: int| 0 <= j < i ==> !alike(#[trigger] s[j], c@),
        decreases best@.len() - i,
    {
        assert(s[i as int] == best@[i as int]@);
        i += 1;
    }
    proof {
        if i < best@.len() {
            assert(s[i as int] == best@[i as int]@);
        }
        spot_is(s, c@, alike, i as int);
    }
    if i == best.len() {
        proof {
            views_push(best@, c);
        }
        best.push(c);
    } else if !stays(&best[i], &c) {
        assert(views(best@.update(i as int, c)) =~= s.update(i as int, c@));
        best.set(i, c);
    }
}

/// Of the elements that are alike, the one that is left when each is taken in
/// after the other.
pub fn best_views<T: View, E: Fn(&T, &T) -> bool, K: Fn(&T, &T) -> bool>(
    v: Vec<T>,
    same_kind: E,
    stays: K,
    Ghost(alike): Ghost<spec_fn(T::V, T::V) -> bool>,
    Ghost(keeps): Ghost<spec_fn(T::V, T::V) -> bool>,
) -> (r: Vec<T>)
    requires
        relates(same_kind, alike),
        relates(stays, keeps),
    ensures
        views(r@) == best_of(views(v@), alike, keeps),
{
    let ghost all = v@;
    let mut best: Vec<T> = Vec::new();
    proof {
        take_none(views(all));
        assert(views(best@) =~= Seq::<T::V>::empty());
    }
    for c in it: v
        invariant
            it.seq() == all,
            relates(same_kind, alike),
            relates(stays, keeps),
            views(best@) == best_of(views(all).take(it.index() as int), alike, keeps),
    {
        proof {
            take_next(views(all), it.index() as int);
        }
        take_in(&mut best, c, &same_kind, &stays, Ghost(alike), Ghost(keeps));
    }
    proof {
        take_whole(views(all));
    }
    best
}

// --- lists in strictly ascending order ------------------------------------------
/// Values with a strict order, in which two values that are alike replace each
/// other.
pub trait Ordered: View + Sized {
    /// `a` comes before `b`.
    spec fn less(a: Self::V, b: Self::V) -> bool;

    /// `a` and `b` take the same place.
    spec fn alike(a: Self::V, b: Self::V) -> bool;

    fn is_less(&self, other: &Self) -> (r: bool)
        ensures
            r == Self::less(self@, other@),
    ;

    fn is_alike(&self, other: &Self) -> (r: bool)
        ensures
            r == Self::alike(self@, other@),
    ;

    /// `less` is a strict total order of the places.
    proof fn order_laws(a: Self::V, b: Self::V, c: Self::V)
        ensures
            Self::less(a, b) && Self::less(b, c) ==> Self::less(a, c),
            Self::less(a, b) || Self::less(b, a) || Self::alike(a, b),
            Self::alike(a, b) ==> !Self::less(a, b),
            Self::alike(a, b) && Self::alike(b, c) ==> Self::alike(a, c),
            Self::alike(a, b) == Self::alike(b, a),
            Self::alike(a, a),
            Self::alike(a, b) && Self::less(b, c) ==> Self::less(a, c),
            Self::less(a, b) && Self::alike(b, c) ==> Self::less(a, c),
    ;
}

/// Each element comes before every later one: none occurs twice.
pub open spec fn ascending<T: Ordered>(s: Seq<T::V>) -> bool {
    forall|i: int, j: int| 0 <= i < j < s.len() ==> T::less(#[trigger] s[i], #[trigger] s[j])
}

/// How many elements at the start of `s` come before `x`.
pub open spec fn rank<T: Ordered>(s: Seq<T::V>, x: T::V) -> int
    decreases s.len(),
{
    if s.len() == 0 {
        0
    } else if T::less(s.last(), x) {
        s.len() as int
    } else {
        rank::<T>(s.drop_last(), x)
    }
}

/// `s` with `x` in its place, instead of what took that place.
pub open spec fn upsert<T: Ordered>(s: Seq<T::V>, x: T::V) -> Seq<T::V> {
    let i = rank::<T>(s, x);
    if i < s.len() && T::alike(s[i], x) {
        s.update(i, x)
    } else {
        s.insert(i, x)
    }
}

pub proof fn rank_bounds<T: Ordered>(s: Seq<T::V>, x: T::V)
    ensures
        0 <= rank::<T>(s, x) <= s.len(),
        rank::<T>(s, x) > 0 ==> T::less(s[rank::<T>(s, x) - 1], x),
        forall|j: int| rank::<T>(s, x) <= j < s.len() ==> !T::less(#[trigger] s[j], x),
    decreases s.len(),
{
    if s.len() > 0 && !T::less(s.last(), x) {
        rank_bounds::<T>(s.drop_last(), x);
        assert forall|j: int| rank::<T>(s, x) <= j < s.len() implies !T::less(#[trigger] s[j], x) by {
            if j < s.len() - 1 {
                assert(s[j] == s.drop_last()[j]);
            }
        }
    }
}

/// Putting an element in its place keeps the list strictly ascending, and it is
/// then the only one in that place; the others stay.
pub proof fn upsert_ascending<T: Ordered>(s: Seq<T::V>, x: T::V)
    requires
        ascending::<T>(s),
    ensures
        ascending::<T>(upsert::<T>(s, x)),
        upsert::<T>(s, x).contains(x),
        forall|y: T::V| #[trigger]
            upsert::<T>(s, x).contains(y) <==> y == x || (s.contains(y) && !T::alike(y, x)),
{
    rank_bounds::<T>(s, x);
    let k = rank::<T>(s, x);
    let u = upsert::<T>(s, x);
    let replaced = k < s.len() && T::alike(s[k], x);
    assert(u[k] == x);
    // Everything before the place is less, everything behind it is greater.
    assert forall|i: int| 0 <= i < k implies T::less(#[trigger] s[i], x) by {
        if i < k - 1 {
            T::order_laws(s[i], s[k - 1], x);
        }
    }
    let from = if replaced {
        k + 1
    } else {
        k
    };
    assert forall|j: int| from <= j < s.len() implies T::less(x, #[trigger] s[j]) by {
        T::order_laws(x, s[j], x);
        T::order_laws(s[j], x, x);
        if replaced {
            assert(T::less(s[k], s[j]));
            T::order_laws(x, s[k], s[j]);
            T::order_laws(s[k], x, s[j]);
        } else if T::alike(x, s[j]) {
            if j > k {
                assert(T::less(s[k], s[j]));
                T::order_laws(s[k], s[j], x);
            }
        }
    }
    assert forall|i: int, j: int| 0 <= i < j < u.len() implies T::less(#[trigger] u[i], #[trigger] u[j]) by {
        if replaced {
            if i != k && j != k {
                assert(T::less(s[i], s[j]));
            }
        } else {
            let a = if i < k {
                i
            } else {
                i - 1
            };
            let b = if j < k {
                j
            } else {
                j - 1
            };
            if i != k && j != k {
                assert(T::less(s[a], s[b]));
            }
        }
    }
    assert forall|y: T::V| #[trigger] u.contains(y) <==> y == x || (s.contains(y) && !T::alike(y, x)) by {
        if s.contains(y) && !T::alike(y, x) {
            let i = s.index_of(y);
            if replaced || i < k {
                assert(u[i] == y);
            } else {
                assert(u[i + 1] == y);
            }
        }
        if u.contains(y) && y != x {
            let i = u.index_of(y);
            if replaced || i < k {
                assert(s[i] == y);
            } else {
                assert(s[i - 1] == y);
            }
            T::order_laws(y, x, y);
            T::order_laws(x, y, x);
        }
    }
}

/// Putting an element in its place, where it is already, changes nothing.
pub proof fn upsert_present<T: Ordered>(s: Seq<T::V>, x: T::V)
    requires
        ascending::<T>(s),
        s.contains(x),
    ensures
        upsert::<T>(s, x) == s,
{
    let k = s.index_of(x);
    let r = rank::<T>(s, x);
    rank_bounds::<T>(s, x);
    T::order_laws(x, x, x);
    if r < k {
        assert(T::less(s[r], s[k]));
    }
    if r > k {
        if r - 1 > k {
            assert(T::less(s[k], s[r - 1]));
            T::order_laws(x, s[r - 1], x);
        }
    }
    assert(r == k);
    assert(s.update(k, x) =~= s);
}

/// Ascending lists of the same elements are the same.
pub proof fn ascending_unique<T: Ordered>(a: Seq<T::V>, b: Seq<T::V>)
    requires
        ascending::<T>(a),
        ascending::<T>(b),
        forall|x: T::V| #[trigger] a.contains(x) <==> b.contains(x),
    ensures
        a == b,
    decreases a.len(),
{
    if a.len() == 0 {
        if b.len() > 0 {
            assert(b.contains(b[0]));
            assert(a.contains(b[0]));
        }
        assert(a =~= b);
    } else {
        assert(a.contains(a.last()));
        let x = a.last();
        assert(b.contains(x));
        let i = b.index_of(x);
        let y = b.last();
        assert(b[b.len() - 1] == y);
        assert(b.contains(y));
        assert(a.contains(y));
        let j = a.index_of(y);
        T::order_laws(x, y, x);
        T::order_laws(x, x, x);
        if i < b.len() - 1 {
            assert(T::less(b[i], b[b.len() - 1]));
        }
        if j < a.len() - 1 {
            assert(T::less(a[j], a[a.len() - 1]));
        }
        assert(x == y);
        let ra = a.drop_last();
        let rb = b.drop_last();
        assert forall|k: int, l: int| 0 <= k < l < ra.len() implies T::less(#[trigger] ra[k], #[trigger] ra[l]) by {
            assert(T::less(a[k], a[l]));
        }
        assert forall|k: int, l: int| 0 <= k < l < rb.len() implies T::less(#[trigger] rb[k], #[trigger] rb[l]) by {
            assert(T::less(b[k], b[l]));
        }
        assert forall|z: T::V| #[trigger] ra.contains(z) <==> rb.contains(z) by {
            if ra.contains(z) {
                let k = ra.index_of(z);
                assert(a[k] == z);
                assert(T::less(a[k], a[a.len() - 1]));
                assert(a.contains(z));
                assert(b.contains(z));
                let l = b.index_of(z);
                assert(rb[l] == z);
            }
            if rb.contains(z) {
                let k = rb.index_of(z);
                assert(b[k] == z);
                assert(T::less(b[k], b[b.len() - 1]));
                assert(b.contains(z));
                assert(a.contains(z));
                let l = a.index_of(z);
                assert(ra[l] == z);
            }
        }
        ascending_unique::<T>(ra, rb);
        assert(ra.push(x) =~= a);
        assert(rb.push(y) =~= b);
    }
}

/// Dropping elements keeps a list strictly ascending.
pub proof fn keep_ascending<T: Ordered>(s: Seq<T::V>, p: spec_fn(T::V) -> bool)
    requires
        ascending::<T>(s),
    ensures
        ascending::<T>(keep(s, p)),
    decreases s.len(),
{
    if s.len() > 0 {
        let rest = s.drop_last();
        assert forall|i: int, j: int| 0 <= i < j < rest.len() implies T::less(
            #[trigger] rest[i],
            #[trigger] rest[j],
        ) by {
            assert(T::less(s[i], s[j]));
        }
        keep_ascending::<T>(rest, p);
        keep_members(rest, p);
        let k = keep(rest, p);
        assert forall|i: int| 0 <= i < k.len() implies T::less(#[trigger] k[i], s.last()) by {
            assert(k.contains(k[i]));
            let m = rest.index_of(k[i]);
            assert(T::less(s[m], s[s.len() - 1]));
        }
    }
}

/// Puts `x` in its place in an ascending list.
pub fn put_in_place<T: Ordered>(v: &mut Vec<T>, x: T)
    ensures
        views(final(v)@) == upsert::<T>(views(old(v)@), x@),
{
    let mut i: usize = v.len();
    let ghost s = views(v@);
    proof {
        take_whole(s);
    }
    while i > 0
        invariant
            i <= v@.len(),
            v@ == old(v)@,
            s == views(v@),
            rank::<T>(s, x@) == rank::<T>(s.take(i as int), x@),
        ensures
            i <= v@.len(),
            v@ == old(v)@,
            rank::<T>(s, x@) == i,
        decreases i,
    {
        assert(s.take(i as int).last() == v@[i - 1]@);
        if v[i - 1].is_less(&x) {
            break;
        }
        assert(s.take(i as int).drop_last() =~= s.take(i - 1));
        i -= 1;
    }
    if i < v.len() && v[i].is_alike(&x) {
        assert(views(v@.update(i as int, x)) =~= s.update(i as int, x@));
        v.set(i, x);
    } else {
        assert(views(v@.insert(i as int, x)) =~= s.insert(i as int, x@));
        v.insert(i, x);
    }
}

} // verus!
