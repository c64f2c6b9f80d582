//! Syntax trees: children, parents, and the order in which a tree is walked.

use crate::indexer::syntax::{
    node_at, node_count, parse, parses, query_matches, run_query, syntax_nodes, tree_source, Grammar, Match,
    SyntaxNode, SyntaxNodeView,
};
use crate::lists::{first, flat, take_next, take_none, take_whole, views_add, views_push};
use crate::text::{decode_utf8, opt_view, same, views};
use vstd::prelude::*;

verus! {

/// A syntax tree with the bytes it was made from. The nodes stand each before its
/// children, and these in order; a node's depth tells where its subtree ends.
pub struct SyntaxTree {
    pub nodes: Vec<SyntaxNode>,
    pub source: Vec<u8>,
}

/// What `SyntaxTree` says, as mathematical values.
pub struct TreeView {
    pub nodes: Seq<SyntaxNodeView>,
    pub source: Seq<u8>,
}

impl View for SyntaxTree {
    type V = TreeView;

    open spec fn view(&self) -> TreeView {
        TreeView { nodes: views(self.nodes@), source: self.source@ }
    }
}

/// The tree of a text.
pub open spec fn tree_of(g: Grammar, text: Seq<char>) -> TreeView {
    TreeView { nodes: syntax_nodes(g, text), source: vstd::utf8::encode_utf8(text) }
}

/// The text that node `i` spans, where that is a text.
pub open spec fn text_of(t: TreeView, i: int) -> Option<Seq<char>> {
    span_text(t.source, t.nodes[i].start_byte as int, t.nodes[i].end_byte as int)
}

/// The text of a range of bytes, where that is a text.
pub open spec fn span_text(source: Seq<u8>, start: int, end: int) -> Option<Seq<char>> {
    if start <= end <= source.len() && vstd::utf8::valid_utf8(source.subrange(start, end)) {
        Some(vstd::utf8::decode_utf8(source.subrange(start, end)))
    } else {
        None
    }
}

/// The children of node `i` that stand at `j` or behind.
pub open spec fn kids_from(t: TreeView, i: int, j: int) -> Seq<int>
    decreases t.nodes.len() - j,
{
    if j >= t.nodes.len() || t.nodes[j].depth <= t.nodes[i].depth {
        Seq::empty()
    } else if t.nodes[j].depth == t.nodes[i].depth + 1 {
        seq![j] + kids_from(t, i, j + 1)
    } else {
        kids_from(t, i, j + 1)
    }
}

/// The children of node `i`, in order.
pub open spec fn kids(t: TreeView, i: int) -> Seq<int> {
    kids_from(t, i, i + 1)
}

/// Node `i` is of kind `k`.
pub open spec fn is_kind(t: TreeView, i: int, k: Seq<char>) -> bool {
    t.nodes[i].kind == k
}

/// The first child of node `i` in the field `name`.
pub open spec fn field(t: TreeView, i: int, name: Seq<char>) -> Option<int> {
    first(kids(t, i), |j: int| t.nodes[j].field == Some(name))
}

/// The text of the first child of node `i` in the field `name`.
pub open spec fn field_text(t: TreeView, i: int, name: Seq<char>) -> Option<Seq<char>> {
    match field(t, i, name) {
        Some(j) => text_of(t, j),
        None => None,
    }
}

/// The last node at or before `k` that lies higher than node `i`.
pub open spec fn above(t: TreeView, i: int, k: int) -> Option<int>
    decreases k + 1,
{
    if k < 0 {
        None
    } else if t.nodes[k].depth < t.nodes[i].depth {
        Some(k)
    } else {
        above(t, i, k - 1)
    }
}

/// The parent of node `i`.
pub open spec fn parent(t: TreeView, i: int) -> Option<int> {
    above(t, i, i - 1)
}

pub proof fn parent_before(t: TreeView, i: int, k: int)
    requires
        k < i,
    ensures
        above(t, i, k) matches Some(p) ==> 0 <= p <= k,
    decreases k + 1,
{
    if k >= 0 && t.nodes[k].depth >= t.nodes[i].depth {
        parent_before(t, i, k - 1);
    }
}

// --- walking ----------------------------------------------------------------------------
/// How far the subtree of node `i` reaches from `j` on.
pub open spec fn reach(t: TreeView, i: int, j: int) -> nat
    decreases t.nodes.len() - j,
{
    if j >= t.nodes.len() || t.nodes[j].depth <= t.nodes[i].depth {
        0
    } else {
        1 + reach(t, i, j + 1)
    }
}

/// The number of nodes in the subtree of node `i`.
pub open spec fn size(t: TreeView, i: int) -> nat {
    1 + reach(t, i, i + 1)
}

/// The number of nodes in the subtrees of the nodes of a list.
pub open spec fn sizes(t: TreeView, list: Seq<int>) -> nat
    decreases list.len(),
{
    if list.len() == 0 {
        0
    } else {
        sizes(t, list.drop_last()) + size(t, list.last())
    }
}

proof fn sizes_add(t: TreeView, a: Seq<int>, b: Seq<int>)
    ensures
        sizes(t, a + b) == sizes(t, a) + sizes(t, b),
    decreases b.len(),
{
    if b.len() == 0 {
        assert(a + b =~= a);
    } else {
        sizes_add(t, a, b.drop_last());
        assert((a + b).drop_last() =~= a + b.drop_last());
    }
}

/// From a child on: its subtree, and what of the parent's subtree follows it.
proof fn reach_splits(t: TreeView, i: int, c: int, j: int)
    requires
        0 <= i < c < j,
        c < t.nodes.len(),
        t.nodes[c].depth == t.nodes[i].depth + 1,
    ensures
        reach(t, c, j) + sizes(t, kids_from(t, i, j)) <= reach(t, i, j),
    decreases t.nodes.len() - j, 1int,
{
    if j < t.nodes.len() && t.nodes[j].depth > t.nodes[i].depth {
        if t.nodes[j].depth > t.nodes[c].depth {
            reach_splits(t, i, c, j + 1);
        } else {
            kids_cover(t, i, j);
        }
    }
}

/// The subtrees of the children lie within the subtree of their parent.
proof fn kids_cover(t: TreeView, i: int, j: int)
    requires
        0 <= i < j,
    ensures
        sizes(t, kids_from(t, i, j)) <= reach(t, i, j),
    decreases t.nodes.len() - j, 0int,
{
    if j < t.nodes.len() && t.nodes[j].depth > t.nodes[i].depth {
        if t.nodes[j].depth == t.nodes[i].depth + 1 {
            reach_splits(t, i, j, j + 1);
            sizes_add(t, seq![j], kids_from(t, i, j + 1));
            assert(seq![j].drop_last() =~= Seq::<int>::empty());
            assert(sizes(t, seq![j].drop_last()) == 0);
        } else {
            kids_cover(t, i, j + 1);
        }
    }
}

pub proof fn kids_inside(t: TreeView, i: int, j: int)
    requires
        0 <= i < j,
    ensures
        forall|k: int|
            0 <= k < kids_from(t, i, j).len() ==> j <= #[trigger] kids_from(t, i, j)[k] < t.nodes.len(),
    decreases t.nodes.len() - j,
{
    if j < t.nodes.len() && t.nodes[j].depth > t.nodes[i].depth {
        kids_inside(t, i, j + 1);
        let rest = kids_from(t, i, j + 1);
        let all = kids_from(t, i, j);
        assert forall|k: int| 0 <= k < all.len() implies j <= #[trigger] all[k] < t.nodes.len() by {
            if t.nodes[j].depth == t.nodes[i].depth + 1 {
                if k > 0 {
                    assert(all[k] == rest[k - 1]);
                }
            } else {
                assert(all[k] == rest[k]);
            }
        }
    }
}

/// Every element of the list is a node.
pub open spec fn all_nodes(t: TreeView, list: Seq<int>) -> bool {
    forall|k: int| 0 <= k < list.len() ==> 0 <= #[trigger] list[k] < t.nodes.len()
}

/// The nodes in the order a walk reaches them that takes the last node off a
/// stack and puts its children on: each node before its children, and these from
/// the last to the first.
pub open spec fn walk(t: TreeView, stack: Seq<int>) -> Seq<int>
    decreases sizes(t, stack),
    when all_nodes(t, stack)
    via walk_shrinks
{
    if stack.len() == 0 {
        Seq::empty()
    } else {
        let n = stack.last();
        seq![n] + walk(t, stack.drop_last() + kids(t, n))
    }
}

#[via_fn]
proof fn walk_shrinks(t: TreeView, stack: Seq<int>) {
    if stack.len() > 0 {
        walk_step(t, stack);
    }
}

pub proof fn walk_step(t: TreeView, stack: Seq<int>)
    requires
        all_nodes(t, stack),
        stack.len() > 0,
    ensures
        sizes(t, stack.drop_last() + kids(t, stack.last())) < sizes(t, stack),
        all_nodes(t, stack.drop_last() + kids(t, stack.last())),
{
    let n = stack.last();
    assert(n == stack[stack.len() - 1]);
    kids_cover(t, n, n + 1);
    sizes_add(t, stack.drop_last(), kids(t, n));
    kids_inside(t, n, n + 1);
    let next = stack.drop_last() + kids(t, n);
    assert forall|k: int| 0 <= k < next.len() implies 0 <= #[trigger] next[k] < t.nodes.len() by {
        if k < stack.len() - 1 {
            assert(next[k] == stack[k]);
        } else {
            assert(next[k] == kids(t, n)[k - (stack.len() - 1)]);
        }
    }
}

/// The walk from node `i`.
pub open spec fn visit(t: TreeView, i: int) -> Seq<int> {
    walk(t, seq![i])
}

/// The walk of a whole tree.
pub open spec fn visit_all(t: TreeView) -> Seq<int> {
    if t.nodes.len() == 0 {
        Seq::empty()
    } else {
        visit(t, 0)
    }
}

/// The nodes in the order a walk reaches them that keeps to the order of the
/// source: the children go onto the stack last first.
pub open spec fn walk_forward(t: TreeView, stack: Seq<int>) -> Seq<int>
    decreases sizes(t, stack),
    when all_nodes(t, stack)
    via walk_forward_shrinks
{
    if stack.len() == 0 {
        Seq::empty()
    } else {
        let n = stack.last();
        seq![n] + walk_forward(t, stack.drop_last() + kids(t, n).reverse())
    }
}

#[via_fn]
proof fn walk_forward_shrinks(t: TreeView, stack: Seq<int>) {
    if stack.len() > 0 {
        walk_forward_step(t, stack);
    }
}

proof fn sizes_reverse(t: TreeView, s: Seq<int>)
    ensures
        sizes(t, s.reverse()) == sizes(t, s),
    decreases s.len(),
{
    if s.len() > 0 {
        sizes_reverse(t, s.drop_last());
        assert(s.reverse() =~= seq![s.last()] + s.drop_last().reverse());
        sizes_add(t, seq![s.last()], s.drop_last().reverse());
        assert(seq![s.last()].drop_last() =~= Seq::<int>::empty());
        assert(sizes(t, seq![s.last()].drop_last()) == 0);
    } else {
        assert(s.reverse() =~= s);
    }
}

pub proof fn walk_forward_step(t: TreeView, stack: Seq<int>)
    requires
        all_nodes(t, stack),
        stack.len() > 0,
    ensures
        sizes(t, stack.drop_last() + kids(t, stack.last()).reverse()) < sizes(t, stack),
        all_nodes(t, stack.drop_last() + kids(t, stack.last()).reverse()),
{
    let n = stack.last();
    assert(n == stack[stack.len() - 1]);
    let k = kids(t, n);
    kids_cover(t, n, n + 1);
    sizes_reverse(t, k);
    sizes_add(t, stack.drop_last(), k.reverse());
    kids_inside(t, n, n + 1);
    let next = stack.drop_last() + k.reverse();
    assert forall|m: int| 0 <= m < next.len() implies 0 <= #[trigger] next[m] < t.nodes.len() by {
        if m < stack.len() - 1 {
            assert(next[m] == stack[m]);
        } else {
            let q = m - (stack.len() - 1);
            assert(next[m] == k[k.len() - 1 - q]);
        }
    }
}

/// The first node of kind `k` in the order of the source.
pub open spec fn first_of_kind(t: TreeView, k: Seq<char>) -> Option<int> {
    if t.nodes.len() == 0 {
        None
    } else {
        first(walk_forward(t, seq![0int]), |i: int| is_kind(t, i, k))
    }
}

/// The indices of a list, as integers.
pub open spec fn ints(v: Seq<usize>) -> Seq<int> {
    v.map_values(|i: usize| i as int)
}

proof fn ints_push(v: Seq<usize>, i: usize)
    ensures
        ints(v.push(i)) == ints(v).push(i as int),
{
    assert(ints(v.push(i)) =~= ints(v).push(i as int));
}

/// Indices of nodes.
pub open spec fn in_tree(t: TreeView, v: Seq<usize>) -> bool {
    forall|k: int| 0 <= k < v.len() ==> (#[trigger] v[k]) < t.nodes.len()
}

impl SyntaxTree {
    /// Parse `text` with a grammar; `None` where that fails.
    pub fn parse(g: Grammar, text: &str) -> (r: Option<SyntaxTree>)
        ensures
            r is Some == parses(g, text@),
            r matches Some(t) ==> t@ == tree_of(g, text@),
    {
        match parse(g, text) {
            Some(t) => Some(SyntaxTree { nodes: SyntaxTree::nodes_of(&t), source: bytes_of(text) }),
            None => None,
        }
    }

    /// Parse `text` with a grammar and run a query on the tree; `None` where
    /// either fails.
    pub fn parse_and_query(g: Grammar, text: &str, query: &str) -> (r: Option<(SyntaxTree, Vec<Match>)>)
        ensures
            r is Some == (parses(g, text@) && query_matches(g, text@, query@) is Some),
            r matches Some((t, m)) ==> t@ == tree_of(g, text@) && query_matches(g, text@, query@) == Some(views(m@)),
    {
        match parse(g, text) {
            Some(t) => match run_query(&t, text, query) {
                Some(m) => Some((SyntaxTree { nodes: SyntaxTree::nodes_of(&t), source: bytes_of(text) }, m)),
                None => None,
            },
            None => None,
        }
    }

    fn nodes_of(t: &tree_sitter::Tree) -> (r: Vec<SyntaxNode>)
        ensures
            views(r@) == syntax_nodes(tree_source(*t).0, tree_source(*t).1),
    {
        let ghost all = syntax_nodes(tree_source(*t).0, tree_source(*t).1);
        let n: usize = node_count(t);
        let mut out: Vec<SyntaxNode> = Vec::new();
        let mut i: usize = 0;
        assert(views(out@) =~= all.take(0));
        while i < n
            invariant
                i <= n,
                n == all.len(),
                all == syntax_nodes(tree_source(*t).0, tree_source(*t).1),
                views(out@) == all.take(i as int),
            decreases n - i,
        {
            let x = node_at(t, i);
            proof {
                take_next(all, i as int);
                views_push(out@, x);
            }
            out.push(x);
            i += 1;
        }
        proof {
            take_whole(all);
        }
        out
    }

    /// Whether node `i` is of kind `k`.
    pub fn is(&self, i: usize, k: &str) -> (r: bool)
        requires
            i < self.nodes@.len(),
        ensures
            r == is_kind(self@, i as int, k@),
    {
        same(self.nodes[i].kind.as_str(), k)
    }

    /// The text of a range of bytes.
    pub fn span(&self, start: usize, end: usize) -> (r: Option<String>)
        ensures
            opt_view(r) == span_text(self@.source, start as int, end as int),
    {
        if start > end || end > self.source.len() {
            return None;
        }
        let mut piece: Vec<u8> = Vec::new();
        let mut k: usize = start;
        while k < end
            invariant
                start <= k <= end <= self.source@.len(),
                piece@ =~= self.source@.subrange(start as int, k as int),
            decreases end - k,
        {
            piece.push(self.source[k]);
            k += 1;
        }
        decode_utf8(&piece)
    }

    /// The text that node `i` spans.
    pub fn text(&self, i: usize) -> (r: Option<String>)
        requires
            i < self.nodes@.len(),
        ensures
            opt_view(r) == text_of(self@, i as int),
    {
        let n = &self.nodes[i];
        assert(self@.nodes[i as int] == n@);
        self.span(n.start_byte, n.end_byte)
    }

    /// The children of node `i`, in order.
    pub fn children(&self, i: usize) -> (r: Vec<usize>)
        requires
            i < self.nodes@.len(),
        ensures
            ints(r@) == kids(self@, i as int),
            in_tree(self@, r@),
            forall|k: int| 0 <= k < r@.len() ==> i < #[trigger] r@[k],
    {
        let ghost t = self@;
        let mut out: Vec<usize> = Vec::new();
        let n: usize = self.nodes.len();
        let mut j: usize = i + 1;
        assert(ints(out@) =~= Seq::<int>::empty());
        assert(t.nodes[i as int] == self.nodes@[i as int]@);
        while j < n
            invariant
                i < j <= n,
                n == self.nodes@.len(),
                t == self@,
                i < n,
                t.nodes[i as int] == self.nodes@[i as int]@,
                kids(t, i as int) =~= ints(out@) + kids_from(t, i as int, j as int),
                in_tree(t, out@),
                forall|k: int| 0 <= k < out@.len() ==> i < #[trigger] out@[k],
            ensures
                kids(t, i as int) =~= ints(out@),
                in_tree(t, out@),
                forall|k: int| 0 <= k < out@.len() ==> i < #[trigger] out@[k],
            decreases n - j,
        {
            assert(t.nodes[j as int] == self.nodes@[j as int]@);
            if self.nodes[j].depth <= self.nodes[i].depth {
                break;
            }
            if self.nodes[j].depth - 1 == self.nodes[i].depth {
                proof {
                    ints_push(out@, j);
                }
                out.push(j);
            }
            j += 1;
        }
        out
    }

    /// The first child of node `i` in the field `name`.
    pub fn child_by_field(&self, i: usize, name: &str) -> (r: Option<usize>)
        requires
            i < self.nodes@.len(),
        ensures
            r is Some == field(self@, i as int, name@) is Some,
            r matches Some(j) ==> j < self.nodes@.len() && field(self@, i as int, name@) == Some(j as int),
    {
        let list = self.children(i);
        let ghost all = ints(list@);
        let ghost p = |j: int| self@.nodes[j].field == Some(name@);
        let mut k: usize = 0;
        proof {
            take_none(all);
        }
        while k < list.len()
            invariant
                k <= list@.len(),
                all == ints(list@),
                all == kids(self@, i as int),
                in_tree(self@, list@),
                p == (|j: int| self@.nodes[j].field == Some(name@)),
                first(all.take(k as int), p) is None,
            decreases list@.len() - k,
        {
            let j: usize = list[k];
            proof {
                take_next(all, k as int);
                assert(all[k as int] == j as int);
                assert(self@.nodes[j as int] == self.nodes@[j as int]@);
            }
            let hit = match &self.nodes[j].field {
                Some(f) => same(f.as_str(), name),
                None => false,
            };
            if hit {
                proof {
                    crate::lists::first_of_prefix(all, p, k as int + 1);
                }
                return Some(j);
            }
            k += 1;
        }
        proof {
            take_whole(all);
        }
        None
    }

    /// The text of the first child of node `i` in the field `name`.
    pub fn field_text(&self, i: usize, name: &str) -> (r: Option<String>)
        requires
            i < self.nodes@.len(),
        ensures
            opt_view(r) == field_text(self@, i as int, name@),
    {
        match self.child_by_field(i, name) {
            Some(j) => self.text(j),
            None => None,
        }
    }

    /// The parent of node `i`.
    pub fn parent(&self, i: usize) -> (r: Option<usize>)
        requires
            i < self.nodes@.len(),
        ensures
            r is Some == parent(self@, i as int) is Some,
            r matches Some(p) ==> p < i && parent(self@, i as int) == Some(p as int),
    {
        let ghost t = self@;
        let mut k: usize = i;
        assert(t.nodes[i as int] == self.nodes@[i as int]@);
        while k > 0
            invariant
                k <= i < self.nodes@.len(),
                t == self@,
                t.nodes[i as int] == self.nodes@[i as int]@,
                parent(t, i as int) == above(t, i as int, k - 1),
            decreases k,
        {
            k -= 1;
            assert(t.nodes[k as int] == self.nodes@[k as int]@);
            if self.nodes[k].depth < self.nodes[i].depth {
                return Some(k);
            }
        }
        None
    }

    /// The nodes of the subtree of `i` in the order a walk reaches them.
    pub fn visit_from(&self, i: usize) -> (r: Vec<usize>)
        requires
            i < self.nodes@.len(),
        ensures
            ints(r@) == visit(self@, i as int),
            in_tree(self@, r@),
    {
        let ghost t = self@;
        let ghost goal = visit(t, i as int);
        let mut stack: Vec<usize> = Vec::new();
        let mut out: Vec<usize> = Vec::new();
        stack.push(i);
        proof {
            assert(ints(stack@) =~= seq![i as int]);
            assert(ints(out@) =~= Seq::<int>::empty());
            assert(goal =~= ints(out@) + walk(t, ints(stack@)));
        }
        while stack.len() > 0
            invariant
                t == self@,
                in_tree(t, stack@),
                in_tree(t, out@),
                all_nodes(t, ints(stack@)),
                goal == ints(out@) + walk(t, ints(stack@)),
            decreases sizes(t, ints(stack@)),
        {
            let ghost before = ints(stack@);
            let ghost rest = stack@.drop_last();
            let n = match stack.pop() {
                Some(n) => n,
                None => {
                    return out;
                },
            };
            let mut more = self.children(n);
            proof {
                assert(ints(rest) =~= before.drop_last());
                assert(before.last() == n as int);
                walk_step(t, before);
                ints_push(out@, n);
                assert(ints(rest + more@) =~= ints(rest) + ints(more@));
                let next = before.drop_last() + kids(t, n as int);
                assert(walk(t, before) =~= seq![n as int] + walk(t, next));
                assert(ints(out@.push(n)) + walk(t, next) =~= ints(out@) + walk(t, before));
            }
            out.push(n);
            stack.append(&mut more);
        }
        proof {
            assert(ints(stack@) =~= Seq::<int>::empty());
            assert(goal =~= ints(out@));
        }
        out
    }

    /// The first node of kind `k` in the order of the source.
    pub fn find_first_kind(&self, k: &str) -> (r: Option<usize>)
        ensures
            r is Some == first_of_kind(self@, k@) is Some,
            r matches Some(i) ==> i < self.nodes@.len() && first_of_kind(self@, k@) == Some(i as int),
    {
        if self.nodes.len() == 0 {
            return None;
        }
        let ghost t = self@;
        let ghost goal = walk_forward(t, seq![0int]);
        let ghost p = |i: int| is_kind(t, i, k@);
        let mut stack: Vec<usize> = Vec::new();
        stack.push(0);
        let ghost mut seen: Seq<int> = Seq::empty();
        proof {
            assert(ints(stack@) =~= seq![0int]);
            assert(goal =~= seen + walk_forward(t, ints(stack@)));
        }
        while stack.len() > 0
            invariant
                t == self@,
                p == (|i: int| is_kind(t, i, k@)),
                goal == walk_forward(t, seq![0int]),
                t.nodes.len() > 0,
                in_tree(t, stack@),
                all_nodes(t, ints(stack@)),
                goal == seen + walk_forward(t, ints(stack@)),
                first(seen, p) is None,
            decreases sizes(t, ints(stack@)),
        {
            let ghost before = ints(stack@);
            let ghost rest = stack@.drop_last();
            let n = match stack.pop() {
                Some(n) => n,
                None => {
                    return None;
                },
            };
            let list = self.children(n);
            let ghost next = before.drop_last() + kids(t, n as int).reverse();
            proof {
                assert(ints(rest) =~= before.drop_last());
                assert(before.last() == n as int);
                walk_forward_step(t, before);
                assert(walk_forward(t, before) =~= seq![n as int] + walk_forward(t, next));
                assert(seen.push(n as int) + walk_forward(t, next) =~= seen + walk_forward(t, before));
                assert(seen.push(n as int).drop_last() =~= seen);
            }
            if self.is(n, k) {
                proof {
                    let m = seen.len() as int + 1;
                    assert(goal.take(m) =~= seen.push(n as int));
                    crate::lists::first_of_prefix(goal, p, m);
                }
                return Some(n);
            }
            let mut c: usize = list.len();
            assert(ints(stack@) =~= ints(rest) + kids(t, n as int).reverse().take(0));
            while c > 0
                invariant
                    c <= list@.len(),
                    t == self@,
                    ints(list@) == kids(t, n as int),
                    in_tree(t, list@),
                    in_tree(t, stack@),
                    ints(stack@) == ints(rest) + kids(t, n as int).reverse().take(list@.len() - c),
                decreases c,
            {
                c -= 1;
                proof {
                    let rev = kids(t, n as int).reverse();
                    take_next(rev, list@.len() - c - 1);
                    assert(rev[list@.len() - c - 1] == ints(list@)[c as int]);
                    ints_push(stack@, list@[c as int]);
                    assert(ints(rest) + rev.take(list@.len() - c) =~= (ints(rest) + rev.take(list@.len() - c - 1)).push(
                        list@[c as int] as int,
                    ));
                }
                stack.push(list[c]);
            }
            proof {
                take_whole(kids(t, n as int).reverse());
                assert(ints(stack@) =~= next);
                seen = seen.push(n as int);
            }
        }
        proof {
            assert(ints(stack@) =~= Seq::<int>::empty());
            assert(goal =~= seen);
        }
        None
    }

    /// What `f` makes of the children of node `i`, where it makes something.
    pub fn pick_children<U: View, F: Fn(usize) -> Option<U>>(&self, i: usize, f: F, Ghost(g): Ghost<
        spec_fn(int) -> Option<U::V>,
    >) -> (r: Vec<U>)
        requires
            i < self.nodes@.len(),
            forall|k: usize| k < self.nodes@.len() ==> #[trigger] call_requires(f, (k,)),
            forall|k: usize, out: Option<U>|
                k < self.nodes@.len() && #[trigger] call_ensures(f, (k,), out) ==> opt_view(out) == g(k as int),
        ensures
            views(r@) == crate::lists::pick(kids(self@, i as int), g),
    {
        let list = self.children(i);
        let ghost all = ints(list@);
        let mut out: Vec<U> = Vec::new();
        let mut k: usize = 0;
        proof {
            take_none(all);
            assert(views(out@) =~= Seq::<U::V>::empty());
        }
        while k < list.len()
            invariant
                k <= list@.len(),
                all == ints(list@),
                in_tree(self@, list@),
                forall|k: usize| k < self.nodes@.len() ==> #[trigger] call_requires(f, (k,)),
                forall|k: usize, out: Option<U>|
                    k < self.nodes@.len() && #[trigger] call_ensures(f, (k,), out) ==> opt_view(out) == g(k as int),
                views(out@) == crate::lists::pick(all.take(k as int), g),
            decreases list@.len() - k,
        {
            proof {
                take_next(all, k as int);
                assert(all[k as int] == list@[k as int] as int);
            }
            match f(list[k]) {
                Some(u) => {
                    proof {
                        views_push(out@, u);
                    }
                    out.push(u);
                },
                None => {},
            }
            k += 1;
        }
        proof {
            take_whole(all);
        }
        out
    }

    /// What `f` makes of the children of node `i`, one after another.
    pub fn flat_children<U: View, F: Fn(usize) -> Vec<U>>(&self, i: usize, f: F, Ghost(g): Ghost<
        spec_fn(int) -> Seq<U::V>,
    >) -> (r: Vec<U>)
        requires
            i < self.nodes@.len(),
            forall|k: usize| k < self.nodes@.len() ==> #[trigger] call_requires(f, (k,)),
            forall|k: usize, out: Vec<U>|
                k < self.nodes@.len() && #[trigger] call_ensures(f, (k,), out) ==> views(out@) == g(k as int),
        ensures
            views(r@) == flat(kids(self@, i as int), g),
    {
        let list = self.children(i);
        self.collect_over(&list, f, Ghost(g))
    }

    fn collect_over<U: View, F: Fn(usize) -> Vec<U>>(&self, list: &Vec<usize>, f: F, Ghost(g): Ghost<
        spec_fn(int) -> Seq<U::V>,
    >) -> (r: Vec<U>)
        requires
            in_tree(self@, list@),
            forall|k: usize| k < self.nodes@.len() ==> #[trigger] call_requires(f, (k,)),
            forall|k: usize, out: Vec<U>|
                k < self.nodes@.len() && #[trigger] call_ensures(f, (k,), out) ==> views(out@) == g(k as int),
        ensures
            views(r@) == flat(ints(list@), g),
    {
        let ghost all = ints(list@);
        let mut out: Vec<U> = Vec::new();
        let mut k: usize = 0;
        proof {
            take_none(all);
            assert(views(out@) =~= Seq::<U::V>::empty());
        }
        while k < list.len()
            invariant
                k <= list@.len(),
                all == ints(list@),
                in_tree(self@, list@),
                forall|k: usize| k < self.nodes@.len() ==> #[trigger] call_requires(f, (k,)),
                forall|k: usize, out: Vec<U>|
                    k < self.nodes@.len() && #[trigger] call_ensures(f, (k,), out) ==> views(out@) == g(k as int),
                views(out@) == flat(all.take(k as int), g),
            decreases list@.len() - k,
        {
            proof {
                take_next(all, k as int);
                assert(all[k as int] == list@[k as int] as int);
            }
            let mut more = f(list[k]);
            proof {
                views_add(out@, more@);
            }
            out.append(&mut more);
            k += 1;
        }
        proof {
            take_whole(all);
        }
        out
    }

    /// What `f` makes of the nodes of the subtree of `i`, in walking order.
    pub fn collect_from<U: View, F: Fn(usize) -> Vec<U>>(&self, i: usize, f: F, Ghost(g): Ghost<
        spec_fn(int) -> Seq<U::V>,
    >) -> (r: Vec<U>)
        requires
            i < self.nodes@.len(),
            forall|k: usize| k < self.nodes@.len() ==> #[trigger] call_requires(f, (k,)),
            forall|k: usize, out: Vec<U>|
                k < self.nodes@.len() && #[trigger] call_ensures(f, (k,), out) ==> views(out@) == g(k as int),
        ensures
            views(r@) == flat(visit(self@, i as int), g),
    {
        let order = self.visit_from(i);
        self.collect_over(&order, f, Ghost(g))
    }

    /// What `f` makes of all nodes, in walking order.
    pub fn collect<U: View, F: Fn(usize) -> Vec<U>>(&self, f: F, Ghost(g): Ghost<spec_fn(int) -> Seq<U::V>>) -> (r: Vec<
        U,
    >)
        requires
            forall|k: usize| k < self.nodes@.len() ==> #[trigger] call_requires(f, (k,)),
            forall|k: usize, out: Vec<U>|
                k < self.nodes@.len() && #[trigger] call_ensures(f, (k,), out) ==> views(out@) == g(k as int),
        ensures
            views(r@) == flat(visit_all(self@), g),
    {
        if self.nodes.len() == 0 {
            let none: Vec<U> = Vec::new();
            assert(views(none@) =~= Seq::<U::V>::empty());
            return none;
        }
        self.collect_from(0, f, Ghost(g))
    }
}

/// The bytes of a text.
pub fn bytes_of(text: &str) -> (r: Vec<u8>)
    ensures
        r@ == vstd::utf8::encode_utf8(text@),
{
    let b = text.as_bytes();
    let mut out: Vec<u8> = Vec::new();
    let mut i: usize = 0;
    while i < b.len()
        invariant
            i <= b@.len(),
            out@ =~= b@.take(i as int),
        decreases b@.len() - i,
    {
        out.push(b[i]);
        i += 1;
    }
    assert(b@.take(b@.len() as int) =~= b@);
    out
}

} // verus!
