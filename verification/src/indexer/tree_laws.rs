//! What the walks over a syntax tree reach.

use crate::indexer::tree::{
    above, all_nodes, field, first_of_kind, is_kind, kids, kids_from, kids_inside, parent, reach, size, sizes, visit,
    visit_all, walk, walk_forward, walk_forward_step, walk_step, TreeView,
};
use crate::lists::{first, first_found};
use vstd::prelude::*;

verus! {

/// The nodes are those of one tree, each before its children and these in order: a
/// node lies at most one step below the one before it, and only the first is a root.
pub open spec fn shaped(t: TreeView) -> bool {
    &&& forall|j: int| 0 < j < t.nodes.len() ==> 0 < (#[trigger] t.nodes[j]).depth
    &&& forall|j: int| 0 < j < t.nodes.len() ==> (#[trigger] t.nodes[j]).depth <= t.nodes[j - 1].depth + 1
    &&& t.nodes.len() > 0 ==> t.nodes[0].depth == 0
}

proof fn reach_ends(t: TreeView, i: int, j: int)
    requires
        0 <= i < j <= t.nodes.len(),
    ensures
        j + reach(t, i, j) <= t.nodes.len(),
        forall|m: int| j <= m < j + reach(t, i, j) ==> (#[trigger] t.nodes[m]).depth > t.nodes[i].depth,
        j + reach(t, i, j) < t.nodes.len() ==> t.nodes[j + reach(t, i, j)].depth <= t.nodes[i].depth,
    decreases t.nodes.len() - j,
{
    if j >= t.nodes.len() || t.nodes[j].depth <= t.nodes[i].depth {
    } else {
        reach_ends(t, i, j + 1);
    }
}

proof fn kids_from_are(t: TreeView, i: int, j: int, c: int)
    requires
        0 <= i < j <= t.nodes.len(),
    ensures
        kids_from(t, i, j).contains(c) <==> (j <= c < t.nodes.len() && t.nodes[c].depth == t.nodes[i].depth + 1
            && forall|m: int| j <= m <= c ==> (#[trigger] t.nodes[m]).depth > t.nodes[i].depth),
    decreases t.nodes.len() - j,
{
    if j >= t.nodes.len() || t.nodes[j].depth <= t.nodes[i].depth {
        if j <= c < t.nodes.len() {
            assert(!(t.nodes[j].depth > t.nodes[i].depth));
        }
    } else {
        kids_from_are(t, i, j + 1, c);
        let rest = kids_from(t, i, j + 1);
        let all = kids_from(t, i, j);
        if t.nodes[j].depth == t.nodes[i].depth + 1 {
            assert(all == seq![j] + rest);
            assert(all[0] == j);
            if rest.contains(c) {
                assert(all[rest.index_of(c) + 1] == c);
            }
            if all.contains(c) && c != j {
                let k = all.index_of(c);
                assert(rest[k - 1] == c);
            }
        }
        if c == j {
            if rest.contains(c) {
                kids_inside(t, i, j + 1);
                let k = rest.index_of(c);
                assert(j + 1 <= rest[k]);
            }
        }
    }
}

proof fn above_is(t: TreeView, i: int, k: int)
    requires
        0 <= i < t.nodes.len(),
        k < i,
    ensures
        above(t, i, k) matches Some(p) ==> 0 <= p <= k && t.nodes[p].depth < t.nodes[i].depth && forall|m: int|
            p < m <= k ==> (#[trigger] t.nodes[m]).depth >= t.nodes[i].depth,
        above(t, i, k) is None ==> forall|m: int| 0 <= m <= k ==> (#[trigger] t.nodes[m]).depth >= t.nodes[i].depth,
    decreases k + 1,
{
    if k >= 0 && !(t.nodes[k].depth < t.nodes[i].depth) {
        above_is(t, i, k - 1);
    }
}

/// The children of a node are the nodes whose parent it is; every node but the first
/// has a parent, which comes before it.
pub proof fn children_have_their_parent(t: TreeView, i: int, j: int)
    requires
        shaped(t),
        0 <= i < t.nodes.len(),
        0 <= j < t.nodes.len(),
    ensures
        kids(t, i).contains(j) <==> parent(t, j) == Some(i),
        j > 0 ==> parent(t, j) is Some && 0 <= parent(t, j)->0 < j,
        parent(t, 0) is None,
{
    kids_from_are(t, i, i + 1, j);
    above_is(t, j, j - 1);
    above_is(t, 0, -1);
    if j > 0 {
        assert(t.nodes[0].depth < t.nodes[j].depth);
        let p = parent(t, j)->0;
        assert(t.nodes[p + 1].depth <= t.nodes[p + 1 - 1].depth + 1);
        if p + 1 < j {
            assert(t.nodes[p + 1].depth >= t.nodes[j].depth);
        }
        assert(t.nodes[p].depth + 1 == t.nodes[j].depth);
        if p == i {
            assert forall|m: int| i + 1 <= m <= j implies (#[trigger] t.nodes[m]).depth > t.nodes[i].depth by {
                if m < j {
                    assert(t.nodes[m].depth >= t.nodes[j].depth);
                }
            }
        }
        if kids(t, i).contains(j) {
            if p < i {
                assert(t.nodes[i].depth >= t.nodes[j].depth);
            }
            if p > i {
                assert(t.nodes[p].depth > t.nodes[i].depth);
            }
        }
    }
}

/// Node `j` lies in the subtree of node `n`.
spec fn in_subtree(t: TreeView, n: int, j: int) -> bool {
    n <= j < n + size(t, n)
}

/// Below a node lie its children and what is below them.
proof fn subtree_splits(t: TreeView, n: int, j: int)
    requires
        shaped(t),
        0 <= n < t.nodes.len(),
    ensures
        in_subtree(t, n, j) <==> j == n || exists|k: int|
            0 <= k < kids(t, n).len() && in_subtree(t, #[trigger] kids(t, n)[k], j),
{
    reach_ends(t, n, n + 1);
    kids_inside(t, n, n + 1);
    let ks = kids(t, n);
    if n < j < n + size(t, n) {
        let c = last_kid_before(t, n, j);
        kids_from_are(t, n, n + 1, c);
        assert forall|m: int| n + 1 <= m <= c implies (#[trigger] t.nodes[m]).depth > t.nodes[n].depth by {}
        assert(ks.contains(c));
        let k = ks.index_of(c);
        reach_ends(t, c, c + 1);
        if j >= c + size(t, c) {
            let e = c + 1 + reach(t, c, c + 1);
            assert(t.nodes[e].depth <= t.nodes[c].depth);
            assert(t.nodes[e].depth > t.nodes[n].depth);
        }
        assert(in_subtree(t, ks[k], j));
    }
    if exists|k: int| 0 <= k < ks.len() && in_subtree(t, #[trigger] ks[k], j) {
        let k = choose|k: int| 0 <= k < ks.len() && in_subtree(t, #[trigger] ks[k], j);
        let c = ks[k];
        assert(ks.contains(c));
        kids_from_are(t, n, n + 1, c);
        reach_ends(t, c, c + 1);
        if j >= n + size(t, n) {
            let e = n + 1 + reach(t, n, n + 1);
            assert(t.nodes[e].depth <= t.nodes[n].depth);
            if e <= c {
                assert(t.nodes[e].depth > t.nodes[n].depth);
            } else {
                assert(t.nodes[e].depth > t.nodes[c].depth);
            }
        }
    }
}

proof fn last_kid_before(t: TreeView, n: int, j: int) -> (c: int)
    requires
        shaped(t),
        0 <= n < j < n + size(t, n),
        n + size(t, n) <= t.nodes.len(),
        forall|m: int| n < m < n + size(t, n) ==> (#[trigger] t.nodes[m]).depth > t.nodes[n].depth,
    ensures
        n < c <= j,
        t.nodes[c].depth == t.nodes[n].depth + 1,
        forall|m: int| c < m <= j ==> (#[trigger] t.nodes[m]).depth > t.nodes[c].depth,
    decreases j,
{
    assert(t.nodes[j].depth > t.nodes[n].depth);
    if t.nodes[j].depth == t.nodes[n].depth + 1 {
        j
    } else {
        assert(t.nodes[j].depth <= t.nodes[j - 1].depth + 1);
        let c = last_kid_before(t, n, j - 1);
        c
    }
}

proof fn walk_reaches(t: TreeView, stack: Seq<int>, j: int)
    requires
        shaped(t),
        all_nodes(t, stack),
    ensures
        walk(t, stack).contains(j) <==> exists|k: int| 0 <= k < stack.len() && in_subtree(t, #[trigger] stack[k], j),
    decreases sizes(t, stack),
{
    if stack.len() > 0 {
        let n = stack.last();
        assert(stack[stack.len() - 1] == n);
        walk_step(t, stack);
        let ks = kids(t, n);
        let below = stack.drop_last();
        let next = below + ks;
        walk_reaches(t, next, j);
        subtree_splits(t, n, j);
        let rest = walk(t, next);
        let all = walk(t, stack);
        assert(all == seq![n] + rest);
        assert(all[0] == n);
        if rest.contains(j) {
            assert(all[rest.index_of(j) + 1] == j);
            let k = choose|k: int| 0 <= k < next.len() && in_subtree(t, #[trigger] next[k], j);
            if k < below.len() {
                assert(in_subtree(t, stack[k], j));
            } else {
                assert(in_subtree(t, ks[k - below.len()], j));
                assert(in_subtree(t, stack[stack.len() - 1], j));
            }
        }
        if all.contains(j) {
            let k = all.index_of(j);
            if k > 0 {
                assert(rest[k - 1] == j);
            } else {
                assert(in_subtree(t, stack[stack.len() - 1], j));
            }
        }
        if exists|k: int| 0 <= k < stack.len() && in_subtree(t, #[trigger] stack[k], j) {
            let k = choose|k: int| 0 <= k < stack.len() && in_subtree(t, #[trigger] stack[k], j);
            if k < below.len() {
                assert(in_subtree(t, next[k], j));
            } else if j != n {
                let c = choose|c: int| 0 <= c < ks.len() && in_subtree(t, #[trigger] ks[c], j);
                assert(in_subtree(t, next[below.len() + c], j));
            }
        }
    }
}

/// The walk of a whole tree reaches every node, and nothing else.
pub proof fn every_node_is_visited(t: TreeView, j: int)
    requires
        shaped(t),
    ensures
        visit_all(t).contains(j) <==> 0 <= j < t.nodes.len(),
{
    if t.nodes.len() > 0 {
        let stack = seq![0int];
        assert(all_nodes(t, stack));
        walk_reaches(t, stack, j);
        reach_ends(t, 0, 1);
        if 1 + reach(t, 0, 1) < t.nodes.len() {
            assert(t.nodes[1 + reach(t, 0, 1) as int].depth > 0);
        }
        if 0 <= j < t.nodes.len() {
            assert(in_subtree(t, stack[0], j));
        }
    }
}

/// The walk from a node reaches that node and what lies below it.
pub proof fn every_node_below_is_visited(t: TreeView, n: int, j: int)
    requires
        shaped(t),
        0 <= n < t.nodes.len(),
    ensures
        visit(t, n).contains(n),
        visit(t, n).contains(j) ==> n <= j < t.nodes.len(),
        visit(t, n).contains(j) && 0 <= j < t.nodes.len() ==> forall|c: int|
            #![trigger kids(t, j).contains(c)]
            kids(t, j).contains(c) ==> visit(t, n).contains(c),
{
    let stack = seq![n];
    assert(all_nodes(t, stack));
    walk_reaches(t, stack, n);
    walk_reaches(t, stack, j);
    reach_ends(t, n, n + 1);
    assert(in_subtree(t, stack[0], n));
    if visit(t, n).contains(j) {
        let k = choose|k: int| 0 <= k < stack.len() && in_subtree(t, #[trigger] stack[k], j);
        assert forall|c: int| #![trigger kids(t, j).contains(c)] kids(t, j).contains(c) implies visit(t, n).contains(c) by {
            kids_from_are(t, j, j + 1, c);
            walk_reaches(t, stack, c);
            if c >= n + size(t, n) {
                let e = n + 1 + reach(t, n, n + 1);
                assert(t.nodes[e].depth <= t.nodes[n].depth);
                assert(t.nodes[e].depth > t.nodes[j].depth);
                if j > n {
                    assert(t.nodes[j].depth > t.nodes[n].depth);
                }
            }
            assert(in_subtree(t, stack[0], c));
        }
    }
}

// --- the walk in the order of the source ------------------------------------------------------
/// The nodes from `a` up to `b`.
spec fn range(a: int, b: int) -> Seq<int> {
    Seq::new((b - a) as nat, |k: int| a + k)
}

/// The subtrees of the nodes of the list follow each other from `a` up to `b`.
spec fn covers(t: TreeView, list: Seq<int>, a: int, b: int) -> bool
    decreases list.len(),
{
    if list.len() == 0 {
        a == b
    } else {
        list[0] == a && a + size(t, a) <= b && covers(t, list.drop_first(), a + size(t, a), b)
    }
}

#[verifier::rlimit(40)]
proof fn kids_follow_each_other(t: TreeView, n: int, j: int)
    requires
        shaped(t),
        0 <= n < j <= n + size(t, n),
        n + size(t, n) <= t.nodes.len(),
        j < n + size(t, n) ==> t.nodes[j].depth == t.nodes[n].depth + 1,
    ensures
        covers(t, kids_from(t, n, j), j, n + size(t, n)),
    decreases t.nodes.len() - j,
{
    let end = n + size(t, n);
    reach_ends(t, n, n + 1);
    if j == end {
        assert(kids_from(t, n, j).len() == 0);
    } else {
        reach_ends(t, j, j + 1);
        let next = j + size(t, j);
        assert(t.nodes[j].depth > t.nodes[n].depth);
        if next > end {
            assert(t.nodes[end].depth > t.nodes[j].depth);
        }
        skip_deeper(t, n, j + 1, next);
        if next < end {
            assert(t.nodes[next].depth > t.nodes[n].depth);
        }
        kids_follow_each_other(t, n, next);
        let all = kids_from(t, n, j);
        assert(all == seq![j] + kids_from(t, n, j + 1));
        assert(all.drop_first() =~= kids_from(t, n, next));
    }
}

/// Nodes that lie deeper than children are passed over.
proof fn skip_deeper(t: TreeView, n: int, j: int, k: int)
    requires
        0 <= n < j <= k <= t.nodes.len(),
        forall|m: int| j <= m < k ==> (#[trigger] t.nodes[m]).depth > t.nodes[n].depth + 1,
    ensures
        kids_from(t, n, j) == kids_from(t, n, k),
    decreases k - j,
{
    if j < k {
        assert(t.nodes[j].depth > t.nodes[n].depth + 1);
        skip_deeper(t, n, j + 1, k);
    }
}

proof fn covers_add(t: TreeView, x: Seq<int>, y: Seq<int>, a: int, b: int, c: int)
    requires
        covers(t, x, a, b),
        covers(t, y, b, c),
        b <= c,
    ensures
        covers(t, x + y, a, c),
    decreases x.len(),
{
    if x.len() == 0 {
        assert(x + y =~= y);
    } else {
        assert((x + y).drop_first() =~= x.drop_first() + y);
        covers_add(t, x.drop_first(), y, a + size(t, a), b, c);
    }
}

proof fn kids_cover_what_is_below(t: TreeView, a: int)
    requires
        shaped(t),
        0 <= a < t.nodes.len(),
    ensures
        covers(t, kids(t, a), a + 1, a + size(t, a)),
        a + size(t, a) <= t.nodes.len(),
{
    reach_ends(t, a, a + 1);
    if a + 1 < a + size(t, a) {
        assert(t.nodes[a + 1].depth <= t.nodes[a + 1 - 1].depth + 1);
        assert(t.nodes[a + 1].depth > t.nodes[a].depth);
    }
    kids_follow_each_other(t, a, a + 1);
}

/// Every subtree is covered by its root's children.
spec fn well_covered(t: TreeView) -> bool {
    forall|a: int| 0 <= a < t.nodes.len() ==> covers(t, #[trigger] kids(t, a), a + 1, a + size(t, a))
}

proof fn forward_is_in_order(t: TreeView, list: Seq<int>, a: int, b: int)
    requires
        well_covered(t),
        0 <= a <= b <= t.nodes.len(),
        covers(t, list, a, b),
        all_nodes(t, list.reverse()),
    ensures
        walk_forward(t, list.reverse()) == range(a, b),
    decreases b - a,
{
    let stack = list.reverse();
    if list.len() == 0 {
        assert(stack.len() == 0);
        assert(walk_forward(t, stack) =~= range(a, b));
    } else {
        assert(stack.last() == a);
        walk_forward_step(t, stack);
        let ks = kids(t, a);
        let next = ks + list.drop_first();
        assert(stack.drop_last() + ks.reverse() =~= next.reverse());
        covers_add(t, ks, list.drop_first(), a + 1, a + size(t, a), b);
        forward_is_in_order(t, next, a + 1, b);
        assert(seq![a] + range(a + 1, b) =~= range(a, b));
    }
}

/// The first node of a kind is the one with the smallest number, where there is one.
pub proof fn first_of_kind_is_first(t: TreeView, k: Seq<char>)
    requires
        shaped(t),
    ensures
        match first_of_kind(t, k) {
            Some(j) => 0 <= j < t.nodes.len() && t.nodes[j].kind == k && forall|m: int|
                0 <= m < j ==> (#[trigger] t.nodes[m]).kind != k,
            None => forall|m: int| 0 <= m < t.nodes.len() ==> (#[trigger] t.nodes[m]).kind != k,
        },
{
    if t.nodes.len() > 0 {
        let list = seq![0int];
        reach_ends(t, 0, 1);
        if 1 + reach(t, 0, 1) < t.nodes.len() {
            assert(t.nodes[1 + reach(t, 0, 1) as int].depth > 0);
        }
        let n = t.nodes.len() as int;
        assert(list.drop_first().len() == 0);
        assert(covers(t, list.drop_first(), n, n));
        assert(covers(t, list, 0, n));
        assert(list.reverse() =~= list);
        assert forall|a: int| 0 <= a < t.nodes.len() implies covers(t, #[trigger] kids(t, a), a + 1, a + size(t, a)) by {
            kids_cover_what_is_below(t, a);
        }
        forward_is_in_order(t, list, 0, n);
        first_in_range(t, k, n);
        assert(walk_forward(t, seq![0int]) == range(0, n));
    }
}

proof fn first_in_range(t: TreeView, k: Seq<char>, n: int)
    requires
        0 <= n <= t.nodes.len(),
    ensures
        match first(range(0, n), |i: int| is_kind(t, i, k)) {
            Some(j) => 0 <= j < n && t.nodes[j].kind == k && forall|m: int| 0 <= m < j ==> (#[trigger] t.nodes[m]).kind
                != k,
            None => forall|m: int| 0 <= m < n ==> (#[trigger] t.nodes[m]).kind != k,
        },
    decreases n,
{
    if n > 0 {
        first_in_range(t, k, n - 1);
        assert(range(0, n).drop_last() =~= range(0, n - 1));
        assert(range(0, n).last() == n - 1);
    }
}

/// The child in a field is a child that stands in that field; there is none exactly
/// where no child does.
pub proof fn field_is_a_child_in_it(t: TreeView, i: int, name: Seq<char>)
    ensures
        match field(t, i, name) {
            Some(j) => kids(t, i).contains(j) && t.nodes[j].field == Some(name),
            None => forall|j: int| #[trigger] kids(t, i).contains(j) ==> t.nodes[j].field != Some(name),
        },
{
    let p = |j: int| t.nodes[j].field == Some(name);
    first_found(kids(t, i), p);
    if field(t, i, name) is None {
        assert forall|j: int| #[trigger] kids(t, i).contains(j) implies t.nodes[j].field != Some(name) by {
            assert(!p(kids(t, i)[kids(t, i).index_of(j)]));
        }
    }
}

} // verus!
