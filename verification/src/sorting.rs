//! Stable sorting and removal of repeats, over any "comes no later than"
//! relation.

use vstd::prelude::*;

verus! {

/// `s` with `x` put behind the last element that comes no later than it.
pub open spec fn place<T>(s: Seq<T>, x: T, le: spec_fn(T, T) -> bool) -> Seq<T>
    decreases s.len(),
{
    if s.len() == 0 || le(s.last(), x) {
        s.push(x)
    } else {
        place(s.drop_last(), x, le).push(s.last())
    }
}

/// `s` in ascending order; elements that are equal in the order keep the order
/// they had.
pub open spec fn stable_sort<T>(s: Seq<T>, le: spec_fn(T, T) -> bool) -> Seq<T>
    decreases s.len(),
{
    if s.len() == 0 {
        s
    } else {
        place(stable_sort(s.drop_last(), le), s.last(), le)
    }
}

/// Of each run of neighbours that `eq` holds of, only the first.
pub open spec fn dedup<T>(s: Seq<T>, eq: spec_fn(T, T) -> bool) -> Seq<T>
    decreases s.len(),
{
    if s.len() == 0 {
        s
    } else {
        let kept = dedup(s.drop_last(), eq);
        if kept.len() > 0 && eq(s.last(), kept.last()) {
            kept
        } else {
            kept.push(s.last())
        }
    }
}

/// `le` is total and transitive.
pub open spec fn total_preorder<T>(le: spec_fn(T, T) -> bool) -> bool {
    &&& forall|a: T, b: T| #![trigger le(a, b)] le(a, b) || le(b, a)
    &&& forall|a: T, b: T, c: T| #![trigger le(a, b), le(b, c)] le(a, b) && le(b, c) ==> le(a, c)
}

pub open spec fn sorted<T>(s: Seq<T>, le: spec_fn(T, T) -> bool) -> bool {
    forall|i: int, j: int| 0 <= i < j < s.len() ==> le(#[trigger] s[i], #[trigger] s[j])
}

pub proof fn place_len<T>(s: Seq<T>, x: T, le: spec_fn(T, T) -> bool)
    ensures
        place(s, x, le).len() == s.len() + 1,
        place(s, x, le).to_multiset() =~= s.to_multiset().insert(x),
        forall|y: T| #[trigger] place(s, x, le).contains(y) <==> s.contains(y) || y == x,
    decreases s.len(),
{
    broadcast use vstd::seq_lib::group_to_multiset_ensures;

    if s.len() == 0 || le(s.last(), x) {
        assert forall|y: T| s.push(x).contains(y) <==> s.contains(y) || y == x by {
            if s.contains(y) {
                let i = s.index_of(y);
                assert(s.push(x)[i] == y);
            }
            assert(s.push(x)[s.len() as int] == x);
        }
    } else {
        let rest = s.drop_last();
        place_len(rest, x, le);
        let p = place(rest, x, le);
        assert(rest.push(s.last()) =~= s);
        assert(s.to_multiset() =~= rest.to_multiset().insert(s.last()));
        assert forall|y: T| p.push(s.last()).contains(y) <==> s.contains(y) || y == x by {
            if p.contains(y) {
                let i = p.index_of(y);
                assert(p.push(s.last())[i] == y);
            }
            assert(p.push(s.last())[p.len() as int] == s.last());
            if rest.contains(y) {
                let i = rest.index_of(y);
                assert(s[i] == y);
            }
            if s.contains(y) && y != s.last() {
                let i = s.index_of(y);
                assert(rest[i] == y);
            }
        }
    }
}

/// Sorting keeps exactly the elements there were.
pub proof fn stable_sort_keeps<T>(s: Seq<T>, le: spec_fn(T, T) -> bool)
    ensures
        stable_sort(s, le).len() == s.len(),
        stable_sort(s, le).to_multiset() =~= s.to_multiset(),
        forall|y: T| #[trigger] stable_sort(s, le).contains(y) <==> s.contains(y),
    decreases s.len(),
{
    broadcast use vstd::seq_lib::group_to_multiset_ensures;

    if s.len() > 0 {
        let rest = s.drop_last();
        stable_sort_keeps(rest, le);
        place_len(stable_sort(rest, le), s.last(), le);
        assert(rest.push(s.last()) =~= s);
        assert forall|y: T| #[trigger] stable_sort(s, le).contains(y) <==> s.contains(y) by {
            assert(s.contains(y) <==> rest.contains(y) || y == s.last()) by {
                if rest.contains(y) {
                    let i = rest.index_of(y);
                    assert(s[i] == y);
                }
                if s.contains(y) && y != s.last() {
                    let i = s.index_of(y);
                    assert(rest[i] == y);
                }
            }
        }
    }
}

proof fn place_sorted<T>(s: Seq<T>, x: T, le: spec_fn(T, T) -> bool)
    requires
        total_preorder(le),
        sorted(s, le),
    ensures
        sorted(place(s, x, le), le),
    decreases s.len(),
{
    if s.len() == 0 {
    } else if le(s.last(), x) {
        assert forall|i: int, j: int| 0 <= i < j < s.push(x).len() implies le(
            #[trigger] s.push(x)[i],
            #[trigger] s.push(x)[j],
        ) by {
            if j == s.len() && i < s.len() - 1 {
                assert(le(s[i], s[s.len() - 1]));
            }
        }
    } else {
        let rest = s.drop_last();
        assert forall|i: int, j: int| 0 <= i < j < rest.len() implies le(
            #[trigger] rest[i],
            #[trigger] rest[j],
        ) by {
            assert(le(s[i], s[j]));
        }
        place_sorted(rest, x, le);
        place_len(rest, x, le);
        let p = place(rest, x, le);
        assert forall|i: int, j: int| 0 <= i < j < p.push(s.last()).len() implies le(
            #[trigger] p.push(s.last())[i],
            #[trigger] p.push(s.last())[j],
        ) by {
            if j == p.len() {
                let y = p[i];
                assert(p.contains(y));
                if y == x {
                    assert(le(x, s.last()) || le(s.last(), x));
                } else {
                    let k = rest.index_of(y);
                    assert(rest.contains(y));
                    assert(le(s[k], s[s.len() - 1]));
                }
            }
        }
    }
}

/// What `stable_sort` gives back is in ascending order.
pub proof fn stable_sort_sorted<T>(s: Seq<T>, le: spec_fn(T, T) -> bool)
    requires
        total_preorder(le),
    ensures
        sorted(stable_sort(s, le), le),
    decreases s.len(),
{
    if s.len() > 0 {
        stable_sort_sorted(s.drop_last(), le);
        place_sorted(stable_sort(s.drop_last(), le), s.last(), le);
    }
}

proof fn place_maps<T, U>(
    s: Seq<T>,
    x: T,
    le: spec_fn(T, T) -> bool,
    f: spec_fn(T) -> U,
    le2: spec_fn(U, U) -> bool,
)
    requires
        forall|a: T, b: T| #[trigger] le(a, b) == le2(f(a), f(b)),
    ensures
        place(s, x, le).map_values(f) == place(s.map_values(f), f(x), le2),
    decreases s.len(),
{
    if s.len() == 0 {
        assert(s.push(x).map_values(f) =~= s.map_values(f).push(f(x)));
    } else if le(s.last(), x) {
        assert(s.map_values(f).last() == f(s.last()));
        assert(s.push(x).map_values(f) =~= s.map_values(f).push(f(x)));
    } else {
        place_maps(s.drop_last(), x, le, f, le2);
        assert(s.map_values(f).drop_last() =~= s.drop_last().map_values(f));
        assert(s.map_values(f).last() == f(s.last()));
        let p = place(s.drop_last(), x, le);
        assert(p.push(s.last()).map_values(f) =~= p.map_values(f).push(f(s.last())));
    }
}

/// Sorting commutes with a mapping that the order looks through.
pub proof fn stable_sort_maps<T, U>(
    s: Seq<T>,
    le: spec_fn(T, T) -> bool,
    f: spec_fn(T) -> U,
    le2: spec_fn(U, U) -> bool,
)
    requires
        forall|a: T, b: T| #[trigger] le(a, b) == le2(f(a), f(b)),
    ensures
        stable_sort(s, le).map_values(f) == stable_sort(s.map_values(f), le2),
    decreases s.len(),
{
    if s.len() > 0 {
        stable_sort_maps(s.drop_last(), le, f, le2);
        assert(s.map_values(f).drop_last() =~= s.drop_last().map_values(f));
        assert(s.map_values(f).last() == f(s.last()));
        place_maps(stable_sort(s.drop_last(), le), s.last(), le, f, le2);
    } else {
        assert(s.map_values(f) =~= Seq::<U>::empty());
    }
}

/// Dropping repeats commutes with a mapping that the equality looks through.
pub proof fn dedup_maps<T, U>(
    s: Seq<T>,
    eq: spec_fn(T, T) -> bool,
    f: spec_fn(T) -> U,
    eq2: spec_fn(U, U) -> bool,
)
    requires
        forall|a: T, b: T| #[trigger] eq(a, b) == eq2(f(a), f(b)),
    ensures
        dedup(s, eq).map_values(f) == dedup(s.map_values(f), eq2),
    decreases s.len(),
{
    if s.len() > 0 {
        dedup_maps(s.drop_last(), eq, f, eq2);
        assert(s.map_values(f).drop_last() =~= s.drop_last().map_values(f));
        assert(s.map_values(f).last() == f(s.last()));
        let kept = dedup(s.drop_last(), eq);
        if kept.len() > 0 {
            assert(kept.map_values(f).last() == f(kept.last()));
        }
        assert(kept.push(s.last()).map_values(f) =~= kept.map_values(f).push(f(s.last())));
    } else {
        assert(s.map_values(f) =~= Seq::<U>::empty());
    }
}

/// The test that `le` computes, for every pair of elements.
pub open spec fn decides<T, F: Fn(&T, &T) -> bool>(f: F, rel: spec_fn(T, T) -> bool) -> bool {
    &&& forall|a: T, b: T| #[trigger] call_requires(f, (&a, &b))
    &&& forall|a: T, b: T, r: bool| #[trigger] call_ensures(f, (&a, &b), r) ==> r == rel(a, b)
}

/// Puts `x` into `v` behind the last element that comes no later.
fn put<T, F: Fn(&T, &T) -> bool>(v: &mut Vec<T>, x: T, le: &F, Ghost(rel): Ghost<spec_fn(T, T) -> bool>)
    requires
        decides(*le, rel),
    ensures
        final(v)@ == place(old(v)@, x, rel),
{
    let mut i: usize = v.len();
    proof {
        assert(v@.take(i as int) =~= v@);
        assert(v@.skip(i as int) =~= Seq::<T>::empty());
        assert(place(v@, x, rel) =~= place(v@.take(i as int), x, rel) + v@.skip(i as int));
    }
    while i > 0
        invariant
            i <= v@.len(),
            decides(*le, rel),
            v@ == old(v)@,
            place(v@, x, rel) == place(v@.take(i as int), x, rel) + v@.skip(i as int),
        ensures
            i <= v@.len(),
            v@ == old(v)@,
            place(v@, x, rel) == v@.take(i as int).push(x) + v@.skip(i as int),
        decreases i,
    {
        let ghost head = v@.take(i as int);
        if le(&v[i - 1], &x) {
            break;
        }
        proof {
            assert(head.drop_last() =~= v@.take(i - 1));
            assert(place(head.drop_last(), x, rel).push(head.last()) + v@.skip(i as int) =~= place(
                head.drop_last(),
                x,
                rel,
            ) + v@.skip(i - 1));
        }
        i -= 1;
    }
    proof {
        assert(v@.insert(i as int, x) =~= v@.take(i as int).push(x) + v@.skip(i as int));
    }
    v.insert(i, x);
}

/// Sorts by `le`, keeping the order of elements that are equal in it.
pub fn sort_by<T, F: Fn(&T, &T) -> bool>(v: Vec<T>, le: F, Ghost(rel): Ghost<spec_fn(T, T) -> bool>) -> (r: Vec<T>)
    requires
        decides(le, rel),
    ensures
        r@ == stable_sort(v@, rel),
{
    let ghost all = v@;
    let mut out: Vec<T> = Vec::new();
    for x in it: v
        invariant
            it.seq() == all,
            decides(le, rel),
            out@ == stable_sort(all.take(it.index() as int), rel),
    {
        proof {
            assert(all.take(it.index() as int + 1).drop_last() =~= all.take(it.index() as int));
        }
        put(&mut out, x, &le, Ghost(rel));
    }
    assert(all.take(all.len() as int) =~= all);
    out
}

/// Keeps the first of each run of neighbours that `eq` holds of.
pub fn dedup_by<T, F: Fn(&T, &T) -> bool>(v: Vec<T>, eq: F, Ghost(rel): Ghost<spec_fn(T, T) -> bool>) -> (r: Vec<T>)
    requires
        decides(eq, rel),
    ensures
        r@ == dedup(v@, rel),
{
    let ghost all = v@;
    let mut out: Vec<T> = Vec::new();
    for x in it: v
        invariant
            it.seq() == all,
            decides(eq, rel),
            out@ == dedup(all.take(it.index() as int), rel),
    {
        proof {
            assert(all.take(it.index() as int + 1).drop_last() =~= all.take(it.index() as int));
        }
        let n: usize = out.len();
        if n == 0 || !eq(&x, &out[n - 1]) {
            out.push(x);
        }
    }
    assert(all.take(all.len() as int) =~= all);
    out
}

/// Without its repeats a sorted list is still sorted, no two of what is left are
/// alike, what is left was there, and of everything something alike is left.
pub proof fn dedup_of_sorted<T>(s: Seq<T>, le: spec_fn(T, T) -> bool, eq: spec_fn(T, T) -> bool)
    requires
        total_preorder(le),
        sorted(s, le),
        forall|a: T, b: T| #[trigger] eq(a, b) == (le(a, b) && le(b, a)),
    ensures
        sorted(dedup(s, eq), le),
        forall|i: int, j: int|
            0 <= i < j < dedup(s, eq).len() ==> !eq(#[trigger] dedup(s, eq)[i], #[trigger] dedup(s, eq)[j]),
        forall|x: T| #[trigger] dedup(s, eq).contains(x) ==> s.contains(x),
        forall|x: T| #[trigger] s.contains(x) ==> has_alike(dedup(s, eq), eq, x),
        s.len() > 0 ==> dedup(s, eq).len() > 0 && eq(dedup(s, eq).last(), s.last()),
    decreases s.len(),
{
    if s.len() > 0 {
        let rest = s.drop_last();
        let x = s.last();
        assert forall|i: int, j: int| 0 <= i < j < rest.len() implies le(#[trigger] rest[i], #[trigger] rest[j]) by {
            assert(le(s[i], s[j]));
        }
        dedup_of_sorted(rest, le, eq);
        let k = dedup(rest, eq);
        let d = dedup(s, eq);
        assert(le(x, x) || le(x, x));
        assert(eq(x, x));
        assert(s[s.len() - 1] == x);
        assert forall|y: T| #[trigger] d.contains(y) implies s.contains(y) by {
            let i = d.index_of(y);
            if i < k.len() {
                assert(k[i] == y);
                assert(k.contains(y));
                let j = rest.index_of(y);
                assert(s[j] == y);
            }
        }
        assert forall|y: T| #[trigger] s.contains(y) implies has_alike(d, eq, y) by {
            let i = s.index_of(y);
            if i < rest.len() {
                assert(rest[i] == y);
                assert(rest.contains(y));
                let z = choose|z: T| #[trigger] k.contains(z) && eq(y, z);
                let j = k.index_of(z);
                assert(d[j] == z);
                assert(d.contains(z));
            } else if d.len() == k.len() {
                assert(d.contains(d[d.len() - 1]));
                assert(eq(x, d.last()));
            } else {
                assert(d[k.len() as int] == x);
                assert(d.contains(x));
            }
        }
        assert forall|i: int| 0 <= i < k.len() implies le(#[trigger] k[i], x) by {
            assert(k.contains(k[i]));
            let j = rest.index_of(k[i]);
            assert(le(s[j], s[s.len() - 1]));
        }
        if k.len() > 0 && eq(x, k.last()) {
            assert(eq(k.last(), x));
        } else {
            assert forall|i: int| 0 <= i < k.len() implies !eq(#[trigger] k[i], x) by {
                if eq(k[i], x) {
                    assert(le(x, k[i]));
                    assert(le(k[i], k.last())) by {
                        if i < k.len() - 1 {
                            assert(le(k[i], k[k.len() - 1]));
                        } else {
                            assert(le(k[i], k[i]) || le(k[i], k[i]));
                        }
                    }
                    assert(le(x, k.last()));
                    assert(le(k[k.len() - 1], x));
                    assert(eq(x, k.last()));
                }
            }
        }
    }
}

/// Something in the list is alike to `x`.
pub open spec fn has_alike<T>(s: Seq<T>, eq: spec_fn(T, T) -> bool, x: T) -> bool {
    exists|y: T| #[trigger] s.contains(y) && eq(x, y)
}

} // verus!
