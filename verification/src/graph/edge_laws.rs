//! What holds of the edges of the in-memory store: they are a set, and what they say
//! is found by the queries.

use crate::graph::laws::{one_in_its_place, replay_well_ordered};
use crate::graph::memory_store::{
    as_list, file_of_symbol, importers, members, names, one_per_path, package_named, path_order, path_reason_order,
    project_label, referrers, replay, replay_push, same_path, same_path_reason, siblings, symbol_by_id, type_edge_items,
    type_relations, Edge, EdgeView, Graph, MemoryGraphStore,
};
use crate::graph::model::{GraphEdge, IndexedSymbol, RelatedView, SymbolView};
use crate::graph::removal_laws::{importers_are, member_item, members_by_item, path_order_total};
use crate::graph::store::{GraphStore, StoreWrite};
use crate::indexer::ids::{file_id_injective, file_id_of};
use crate::lists::{
    ascending_unique, first, first_found, flat, flat_members, made, made_is_picked, makes, pick, picked_from,
    sorted_set_laws, text_le_transitive, upsert_ascending,
};
use crate::sorting::{
    dedup_of_sorted, has_alike, sorted, stable_sort, stable_sort_keeps, stable_sort_sorted, total_preorder,
};
use crate::text::{text_lt, text_lt_asymmetric, text_lt_laws, views};
use vstd::prelude::*;

verus! {

// --- a list of edges is a set ----------------------------------------------------------------
/// The write of an edge.
pub open spec fn is_link(w: StoreWrite) -> bool {
    w is ContainsFile || w is ImportsPackage || w is Inherits || w is Implements || w is References
}

pub open spec fn all_links(ws: Seq<StoreWrite>) -> bool {
    forall|i: int| 0 <= i < ws.len() ==> is_link(#[trigger] ws[i])
}

/// What the graph `after` has besides what `before` has are the edges `ws`.
spec fn has_links(before: Graph, ws: Seq<StoreWrite>, after: Graph) -> bool {
    &&& after == (Graph {
        project_files: after.project_files,
        file_pkgs: after.file_pkgs,
        sym_inherits: after.sym_inherits,
        sym_implements: after.sym_implements,
        sym_references: after.sym_references,
        ..before
    })
    &&& forall|e: EdgeView| #[trigger]
        after.project_files.contains(e) <==> before.project_files.contains(e) || ws.contains(
            StoreWrite::ContainsFile(e.from, e.to),
        )
    &&& forall|e: EdgeView| #[trigger]
        after.file_pkgs.contains(e) <==> before.file_pkgs.contains(e) || ws.contains(
            StoreWrite::ImportsPackage(e.from, e.to),
        )
    &&& forall|e: EdgeView| #[trigger]
        after.sym_inherits.contains(e) <==> before.sym_inherits.contains(e) || ws.contains(
            StoreWrite::Inherits(e.from, e.to),
        )
    &&& forall|e: EdgeView| #[trigger]
        after.sym_implements.contains(e) <==> before.sym_implements.contains(e) || ws.contains(
            StoreWrite::Implements(e.from, e.to),
        )
    &&& forall|e: EdgeView| #[trigger]
        after.sym_references.contains(e) <==> before.sym_references.contains(e) || ws.contains(
            StoreWrite::References(e.from, e.to),
        )
}

proof fn contains_last<T>(s: Seq<T>, x: T)
    requires
        s.len() > 0,
    ensures
        s.contains(x) <==> s.drop_last().contains(x) || x == s.last(),
{
    let rest = s.drop_last();
    if rest.contains(x) {
        assert(s[rest.index_of(x)] == x);
    }
    assert(s[s.len() - 1] == s.last());
    if s.contains(x) {
        let i = s.index_of(x);
        if i < rest.len() {
            assert(rest[i] == x);
        }
    }
}

proof fn links_are_added(h: Seq<StoreWrite>, ws: Seq<StoreWrite>)
    requires
        all_links(ws),
    ensures
        has_links(replay(h), ws, replay(h + ws)),
    decreases ws.len(),
{
    if ws.len() == 0 {
        assert(h + ws =~= h);
    } else {
        let rest = ws.drop_last();
        let w = ws.last();
        assert(is_link(ws[ws.len() - 1]));
        assert forall|i: int| 0 <= i < rest.len() implies is_link(#[trigger] rest[i]) by {
            assert(rest[i] == ws[i]);
        }
        links_are_added(h, rest);
        replay_push(h + rest, w);
        assert((h + rest).push(w) =~= h + ws);
        replay_well_ordered(h + rest);
        let g = replay(h + rest);
        match w {
            StoreWrite::ContainsFile(from, to) => upsert_ascending::<Edge>(g.project_files, EdgeView { from, to }),
            StoreWrite::ImportsPackage(from, to) => upsert_ascending::<Edge>(g.file_pkgs, EdgeView { from, to }),
            StoreWrite::Inherits(from, to) => upsert_ascending::<Edge>(g.sym_inherits, EdgeView { from, to }),
            StoreWrite::Implements(from, to) => upsert_ascending::<Edge>(g.sym_implements, EdgeView { from, to }),
            StoreWrite::References(from, to) => upsert_ascending::<Edge>(g.sym_references, EdgeView { from, to }),
            _ => {},
        }
        assert forall|x: StoreWrite| #[trigger] ws.contains(x) <==> rest.contains(x) || x == w by {
            contains_last(ws, x);
        }
    }
}

/// Edges are a set: which ones are written decides what graph is left, not how often
/// or in what order.
pub proof fn edges_are_a_set(h: Seq<StoreWrite>, a: Seq<StoreWrite>, b: Seq<StoreWrite>)
    requires
        all_links(a),
        all_links(b),
        forall|w: StoreWrite| #[trigger] a.contains(w) <==> b.contains(w),
    ensures
        replay(h + a) == replay(h + b),
{
    links_are_added(h, a);
    links_are_added(h, b);
    replay_well_ordered(h + a);
    replay_well_ordered(h + b);
    let x = replay(h + a);
    let y = replay(h + b);
    ascending_unique::<Edge>(x.project_files, y.project_files);
    ascending_unique::<Edge>(x.file_pkgs, y.file_pkgs);
    ascending_unique::<Edge>(x.sym_inherits, y.sym_inherits);
    ascending_unique::<Edge>(x.sym_implements, y.sym_implements);
    ascending_unique::<Edge>(x.sym_references, y.sym_references);
}

proof fn edges_are_links(edges: Seq<GraphEdge>)
    ensures
        all_links(views(edges)),
{
    let ws = views(edges);
    assert forall|i: int| 0 <= i < ws.len() implies is_link(#[trigger] ws[i]) by {
        assert(ws[i] == edges[i]@);
    }
}

/// Linking the same edges again changes nothing.
pub proof fn linking_again_changes_nothing(h: Seq<StoreWrite>, edges: Seq<GraphEdge>)
    ensures
        replay(h + views(edges) + views(edges)) == replay(h + views(edges)),
{
    let ws = views(edges);
    edges_are_links(edges);
    let twice = ws + ws;
    assert forall|i: int| 0 <= i < twice.len() implies is_link(#[trigger] twice[i]) by {
        if i < ws.len() {
            assert(twice[i] == ws[i]);
        } else {
            assert(twice[i] == ws[i - ws.len()]);
        }
    }
    assert forall|w: StoreWrite| #[trigger] twice.contains(w) <==> ws.contains(w) by {
        if ws.contains(w) {
            assert(twice[ws.index_of(w)] == w);
        }
        if twice.contains(w) {
            let i = twice.index_of(w);
            if i < ws.len() {
                assert(ws[i] == w);
            } else {
                assert(ws[i - ws.len()] == w);
            }
        }
    }
    edges_are_a_set(h, twice, ws);
    assert(h + ws + ws =~= h + twice);
}

/// The order in which edges are linked does not matter.
pub proof fn order_of_linking_does_not_matter(h: Seq<StoreWrite>, a: Seq<GraphEdge>, b: Seq<GraphEdge>)
    requires
        views(a).to_multiset() == views(b).to_multiset(),
    ensures
        replay(h + views(a)) == replay(h + views(b)),
{
    broadcast use vstd::seq_lib::group_to_multiset_ensures;

    edges_are_links(a);
    edges_are_links(b);
    assert forall|w: StoreWrite| #[trigger] views(a).contains(w) <==> views(b).contains(w) by {
        assert(views(a).contains(w) <==> views(a).to_multiset().count(w) > 0);
        assert(views(b).contains(w) <==> views(b).to_multiset().count(w) > 0);
    }
    edges_are_a_set(h, views(a), views(b));
}

// --- type edges are seen from both ends --------------------------------------------------------
proof fn path_reason_order_total()
    ensures
        total_preorder(path_reason_order()),
        forall|a: RelatedView, b: RelatedView| #[trigger]
            same_path_reason()(a, b) == (path_reason_order()(a, b) && path_reason_order()(b, a)),
{
    let le = path_reason_order();
    assert forall|a: RelatedView, b: RelatedView| #![trigger le(a, b)] le(a, b) || le(b, a) by {
        text_lt_laws(a.path, b.path, a.path);
        if text_lt(b.reason, a.reason) {
            text_lt_asymmetric(b.reason, a.reason);
        }
    }
    assert forall|a: RelatedView, b: RelatedView, c: RelatedView|
        #![trigger le(a, b), le(b, c)]
        le(a, b) && le(b, c) implies le(a, c) by {
        text_lt_laws(a.path, b.path, c.path);
        if a.path == b.path && b.path == c.path {
            text_le_transitive(a.reason, b.reason, c.reason);
        }
    }
    assert forall|a: RelatedView, b: RelatedView| #[trigger]
        same_path_reason()(a, b) == (le(a, b) && le(b, a)) by {
        text_lt_laws(a.path, b.path, a.path);
        text_lt_laws(b.path, a.path, b.path);
        text_lt_laws(a.reason, b.reason, a.reason);
        text_lt_laws(b.reason, a.reason, b.reason);
    }
}

/// The answer to a question about type relations is sorted by path and reason, each
/// pair once.
pub proof fn type_relations_are_ordered(h: Seq<StoreWrite>, name: Seq<char>)
    ensures
        sorted(MemoryGraphStore::symbol_type_relations_in(h, name), path_reason_order()),
        forall|i: int, j: int|
            0 <= i < j < MemoryGraphStore::symbol_type_relations_in(h, name).len() ==> !same_path_reason()(
                #[trigger] MemoryGraphStore::symbol_type_relations_in(h, name)[i],
                #[trigger] MemoryGraphStore::symbol_type_relations_in(h, name)[j],
            ),
        forall|x: RelatedView| #[trigger]
            MemoryGraphStore::symbol_type_relations_in(h, name).contains(x) <==> type_relations(
                replay(h),
                name,
            ).contains(x),
{
    let all = type_relations(replay(h), name);
    let le = path_reason_order();
    let found = stable_sort(all, le);
    path_reason_order_total();
    stable_sort_sorted(all, le);
    stable_sort_keeps(all, le);
    dedup_of_sorted(found, le, same_path_reason());
    let d = MemoryGraphStore::symbol_type_relations_in(h, name);
    assert forall|x: RelatedView| all.contains(x) implies #[trigger] d.contains(x) by {
        assert(found.contains(x));
        let y = choose|y: RelatedView| #[trigger] d.contains(y) && same_path_reason()(x, y);
        assert(found.contains(y));
        one_step_away(replay(h), name, x);
        one_step_away(replay(h), name, y);
        assert(x == y);
    }
}

/// Whatever type edges tell is one step away.
proof fn one_step_away(g: Graph, name: Seq<char>, x: RelatedView)
    requires
        type_relations(g, name).contains(x),
    ensures
        x.depth == 1,
{
    let up = |e: EdgeView| type_edge_items(g, name, "base type (inherits)"@, "subtype (inherits)"@, e);
    let impls = |e: EdgeView| type_edge_items(g, name, "implemented interface/trait"@, "implementor"@, e);
    let a = flat(g.sym_inherits, up);
    let b = flat(g.sym_implements, impls);
    flat_members(g.sym_inherits, up, x);
    flat_members(g.sym_implements, impls, x);
    let i = (a + b).index_of(x);
    if i < a.len() {
        assert(a[i] == x);
        let e = choose|e: EdgeView| #[trigger] g.sym_inherits.contains(e) && up(e).contains(x);
        let k = up(e).index_of(x);
        assert(up(e)[k].depth == 1);
    } else {
        assert(b[i - a.len()] == x);
        let e = choose|e: EdgeView| #[trigger] g.sym_implements.contains(e) && impls(e).contains(x);
        let k = impls(e).index_of(x);
        assert(impls(e)[k].depth == 1);
    }
}

/// A recorded symbol is known by its id and by its name.
proof fn recorded_symbol_is_known(h: Seq<StoreWrite>, s: SymbolView)
    requires
        replay(h).symbols.contains(s),
    ensures
        symbol_by_id(replay(h), s.id) == Some(s),
        names(replay(h), s.name, s.id),
{
    replay_well_ordered(h);
    let g = replay(h);
    let i = g.symbols.index_of(s);
    assert(g.symbols[i].name == s.name);
    let p = |x: SymbolView| x.id == s.id;
    first_found(g.symbols, p);
    assert(p(g.symbols[i]));
    one_in_its_place::<IndexedSymbol>(g.symbols, first(g.symbols, p)->0, s);
}

proof fn edge_tells(
    h: Seq<StoreWrite>,
    a: SymbolView,
    b: SymbolView,
    up: Seq<char>,
    down: Seq<char>,
)
    requires
        replay(h).symbols.contains(a),
        replay(h).symbols.contains(b),
    ensures
        type_edge_items(replay(h), a.name, up, down, EdgeView { from: a.id, to: b.id }).contains(
            RelatedView { path: b.file_path, reason: up, depth: 1 },
        ),
        type_edge_items(replay(h), b.name, up, down, EdgeView { from: a.id, to: b.id }).contains(
            RelatedView { path: a.file_path, reason: down, depth: 1 },
        ),
{
    recorded_symbol_is_known(h, a);
    recorded_symbol_is_known(h, b);
    let g = replay(h);
    let e = EdgeView { from: a.id, to: b.id };
    let of_a = type_edge_items(g, a.name, up, down, e);
    assert(of_a[0] == as_list(file_of_symbol(g, b.id, up))[0]);
    let of_b = type_edge_items(g, b.name, up, down, e);
    assert(of_b[of_b.len() - 1] == as_list(file_of_symbol(g, a.id, down))[0]);
}

/// As long as two symbols and the edge that says one inherits from the other are
/// there, the relation is seen from both ends.
pub proof fn inheritance_is_seen_from_both_ends(h: Seq<StoreWrite>, a: SymbolView, b: SymbolView)
    requires
        replay(h).symbols.contains(a),
        replay(h).symbols.contains(b),
        replay(h).sym_inherits.contains(EdgeView { from: a.id, to: b.id }),
    ensures
        MemoryGraphStore::symbol_type_relations_in(h, a.name).contains(
            RelatedView { path: b.file_path, reason: "base type (inherits)"@, depth: 1 },
        ),
        MemoryGraphStore::symbol_type_relations_in(h, b.name).contains(
            RelatedView { path: a.file_path, reason: "subtype (inherits)"@, depth: 1 },
        ),
{
    let up = "base type (inherits)"@;
    let down = "subtype (inherits)"@;
    edge_tells(h, a, b, up, down);
    first_part(h, a.name, EdgeView { from: a.id, to: b.id }, RelatedView { path: b.file_path, reason: up, depth: 1 });
    first_part(h, b.name, EdgeView { from: a.id, to: b.id }, RelatedView { path: a.file_path, reason: down, depth: 1 });
}

/// As long as two symbols and the edge that says one implements the other are
/// there, the relation is seen from both ends.
pub proof fn implementation_is_seen_from_both_ends(h: Seq<StoreWrite>, a: SymbolView, b: SymbolView)
    requires
        replay(h).symbols.contains(a),
        replay(h).symbols.contains(b),
        replay(h).sym_implements.contains(EdgeView { from: a.id, to: b.id }),
    ensures
        MemoryGraphStore::symbol_type_relations_in(h, a.name).contains(
            RelatedView { path: b.file_path, reason: "implemented interface/trait"@, depth: 1 },
        ),
        MemoryGraphStore::symbol_type_relations_in(h, b.name).contains(
            RelatedView { path: a.file_path, reason: "implementor"@, depth: 1 },
        ),
{
    let up = "implemented interface/trait"@;
    let down = "implementor"@;
    edge_tells(h, a, b, up, down);
    second_part(h, a.name, EdgeView { from: a.id, to: b.id }, RelatedView { path: b.file_path, reason: up, depth: 1 });
    second_part(h, b.name, EdgeView { from: a.id, to: b.id }, RelatedView { path: a.file_path, reason: down, depth: 1 });
}

proof fn first_part(h: Seq<StoreWrite>, name: Seq<char>, e: EdgeView, x: RelatedView)
    requires
        replay(h).sym_inherits.contains(e),
        type_edge_items(replay(h), name, "base type (inherits)"@, "subtype (inherits)"@, e).contains(x),
    ensures
        MemoryGraphStore::symbol_type_relations_in(h, name).contains(x),
{
    let g = replay(h);
    let f = |e: EdgeView| type_edge_items(g, name, "base type (inherits)"@, "subtype (inherits)"@, e);
    assert(makes(g.sym_inherits, f, x)) by {
        assert(g.sym_inherits.contains(e) && f(e).contains(x));
    }
    flat_members(g.sym_inherits, f, x);
    let all = type_relations(g, name);
    assert(all[flat(g.sym_inherits, f).index_of(x)] == x);
    type_relations_are_ordered(h, name);
}

proof fn second_part(h: Seq<StoreWrite>, name: Seq<char>, e: EdgeView, x: RelatedView)
    requires
        replay(h).sym_implements.contains(e),
        type_edge_items(replay(h), name, "implemented interface/trait"@, "implementor"@, e).contains(x),
    ensures
        MemoryGraphStore::symbol_type_relations_in(h, name).contains(x),
{
    let g = replay(h);
    let f = |e: EdgeView| type_edge_items(g, name, "implemented interface/trait"@, "implementor"@, e);
    assert(makes(g.sym_implements, f, x)) by {
        assert(g.sym_implements.contains(e) && f(e).contains(x));
    }
    flat_members(g.sym_implements, f, x);
    let all = type_relations(g, name);
    let k = flat(g.sym_implements, f).index_of(x);
    assert(all[all.len() - flat(g.sym_implements, f).len() + k] == x);
    type_relations_are_ordered(h, name);
}

/// A type link is there once it is written, and the symbols stay as they were.
pub proof fn written_type_link_is_there(h: Seq<StoreWrite>, from: Seq<char>, to: Seq<char>)
    ensures
        replay(h.push(StoreWrite::Inherits(from, to))).sym_inherits.contains(EdgeView { from, to }),
        replay(h.push(StoreWrite::Implements(from, to))).sym_implements.contains(EdgeView { from, to }),
        replay(h.push(StoreWrite::Inherits(from, to))).symbols == replay(h).symbols,
        replay(h.push(StoreWrite::Implements(from, to))).symbols == replay(h).symbols,
{
    replay_push(h, StoreWrite::Inherits(from, to));
    replay_push(h, StoreWrite::Implements(from, to));
    replay_well_ordered(h);
    upsert_ascending::<Edge>(replay(h).sym_inherits, EdgeView { from, to });
    upsert_ascending::<Edge>(replay(h).sym_implements, EdgeView { from, to });
}

/// A name that no type edge starts or ends at has no type relations.
pub proof fn unrelated_name_has_no_type_relations(h: Seq<StoreWrite>, name: Seq<char>)
    requires
        forall|e: EdgeView| #[trigger]
            replay(h).sym_inherits.contains(e) ==> !names(replay(h), name, e.from) && !names(replay(h), name, e.to),
        forall|e: EdgeView| #[trigger]
            replay(h).sym_implements.contains(e) ==> !names(replay(h), name, e.from) && !names(replay(h), name, e.to),
    ensures
        MemoryGraphStore::symbol_type_relations_in(h, name).len() == 0,
{
    let g = replay(h);
    let d = MemoryGraphStore::symbol_type_relations_in(h, name);
    type_relations_are_ordered(h, name);
    if d.len() > 0 {
        let x = d[0];
        assert(d.contains(x));
        let up = |e: EdgeView| type_edge_items(g, name, "base type (inherits)"@, "subtype (inherits)"@, e);
        let impls = |e: EdgeView| type_edge_items(g, name, "implemented interface/trait"@, "implementor"@, e);
        flat_members(g.sym_inherits, up, x);
        flat_members(g.sym_implements, impls, x);
        let a = flat(g.sym_inherits, up);
        let b = flat(g.sym_implements, impls);
        let i = (a + b).index_of(x);
        if i < a.len() {
            assert(a[i] == x);
            let e = choose|e: EdgeView| #[trigger] g.sym_inherits.contains(e) && up(e).contains(x);
            assert(up(e).len() == 0);
        } else {
            assert(b[i - a.len()] == x);
            let e = choose|e: EdgeView| #[trigger] g.sym_implements.contains(e) && impls(e).contains(x);
            assert(impls(e).len() == 0);
        }
    }
}

// --- references, imports and projects ------------------------------------------------------------
/// As long as two symbols and the edge that says one refers to the other are there,
/// the file of the one is among the references to the other.
pub proof fn reference_is_found(h: Seq<StoreWrite>, a: SymbolView, b: SymbolView)
    requires
        replay(h).symbols.contains(a),
        replay(h).symbols.contains(b),
        replay(h).sym_references.contains(EdgeView { from: a.id, to: b.id }),
    ensures
        MemoryGraphStore::symbol_references_in(h, b.name).contains(
            RelatedView { path: a.file_path, reason: "references "@ + b.name, depth: 1 },
        ),
{
    let g = replay(h);
    let f = |e: EdgeView|
        if names(g, b.name, e.to) {
            file_of_symbol(g, e.from, "references "@ + b.name)
        } else {
            None
        };
    let e = EdgeView { from: a.id, to: b.id };
    let x = RelatedView { path: a.file_path, reason: "references "@ + b.name, depth: 1 };
    recorded_symbol_is_known(h, a);
    recorded_symbol_is_known(h, b);
    let all = referrers(g, b.name);
    assert(all == pick(g.sym_references, f));
    assert(f(e) == Some(x));
    assert(made(g.sym_references, f, x));
    made_is_picked(g.sym_references, f, x);
    something_at_path(all, x);
    let y = choose|y: RelatedView| #[trigger] one_per_path(all).contains(y) && y.path == x.path;
    picked_from(g.sym_references, f);
    assert(all.contains(y));
    assert(made(g.sym_references, f, all[all.index_of(y)]));
    assert(x == y);
}

/// Where a list has an item at a path, so has what is left of it with one item per
/// path, and that was in the list.
pub proof fn something_at_path(all: Seq<RelatedView>, x: RelatedView)
    requires
        all.contains(x),
    ensures
        exists|y: RelatedView| #[trigger] one_per_path(all).contains(y) && y.path == x.path,
        forall|y: RelatedView| #[trigger] one_per_path(all).contains(y) ==> all.contains(y),
{
    let found = stable_sort(all, path_order());
    path_order_total();
    stable_sort_sorted(all, path_order());
    stable_sort_keeps(all, path_order());
    dedup_of_sorted(found, path_order(), same_path());
    assert(found.contains(x));
    assert(has_alike(one_per_path(all), same_path(), x));
    let y = choose|y: RelatedView| #[trigger] one_per_path(all).contains(y) && same_path()(x, y);
    assert(one_per_path(all).contains(y) && y.path == x.path);
}

/// What is left with one item per path was in the list.
pub proof fn one_per_path_is_part(all: Seq<RelatedView>, y: RelatedView)
    requires
        one_per_path(all).contains(y),
    ensures
        all.contains(y),
{
    let found = stable_sort(all, path_order());
    path_order_total();
    stable_sort_sorted(all, path_order());
    stable_sort_keeps(all, path_order());
    dedup_of_sorted(found, path_order(), same_path());
}

/// A file imports a package exactly when an edge leads from it to a package of that
/// name.
pub proof fn import_is_found(h: Seq<StoreWrite>, path: Seq<char>, package: Seq<char>)
    ensures
        MemoryGraphStore::files_importing_package_in(h, package).contains(path) <==> exists|e: EdgeView| #[trigger]
            replay(h).file_pkgs.contains(e) && e.from == file_id_of(path) && package_named(replay(h), package, e.to),
{
    importers_are(replay(h), package, path);
    sorted_set_laws(importers(replay(h), package));
}

/// Two files of one project are siblings of each other.
pub proof fn project_members_are_siblings(h: Seq<StoreWrite>, pid: Seq<char>, p: Seq<char>, q: Seq<char>)
    requires
        p != q,
        replay(h).project_files.contains(EdgeView { from: pid, to: file_id_of(p) }),
        replay(h).project_files.contains(EdgeView { from: pid, to: file_id_of(q) }),
    ensures
        exists|x: RelatedView| #[trigger] MemoryGraphStore::project_siblings_in(h, p).contains(x) && x.path == q,
        exists|x: RelatedView| #[trigger] MemoryGraphStore::project_siblings_in(h, q).contains(x) && x.path == p,
{
    has_sibling(h, pid, p, q);
    has_sibling(h, pid, q, p);
}

proof fn has_sibling(h: Seq<StoreWrite>, pid: Seq<char>, p: Seq<char>, q: Seq<char>)
    requires
        p != q,
        replay(h).project_files.contains(EdgeView { from: pid, to: file_id_of(p) }),
        replay(h).project_files.contains(EdgeView { from: pid, to: file_id_of(q) }),
    ensures
        exists|x: RelatedView| #[trigger] MemoryGraphStore::project_siblings_in(h, p).contains(x) && x.path == q,
{
    let g = replay(h);
    let fid = file_id_of(p);
    let item = member_item(g, pid, fid);
    let there = EdgeView { from: pid, to: file_id_of(q) };
    let here = EdgeView { from: pid, to: fid };
    let x = RelatedView { path: q, reason: "same project ("@ + project_label(g, pid) + ")"@, depth: 1 };
    if file_id_of(q) == fid {
        file_id_injective(p, q);
    }
    let mark = "file:"@;
    assert(mark =~= there.to.take(mark.len() as int));
    assert(there.to.skip(mark.len() as int) =~= q);
    assert(item(there) == Some(x));
    assert(made(g.project_files, item, x));
    made_is_picked(g.project_files, item, x);
    members_by_item(g, pid, fid);
    let f = |e: EdgeView|
        if e.to == fid {
            members(g, e.from, fid)
        } else {
            Seq::empty()
        };
    assert(makes(g.project_files, f, x)) by {
        assert(g.project_files.contains(here) && f(here).contains(x));
    }
    flat_members(g.project_files, f, x);
    assert(siblings(g, p).contains(x));
    something_at_path(siblings(g, p), x);
    let y = choose|y: RelatedView| #[trigger] one_per_path(siblings(g, p)).contains(y) && y.path == x.path;
    assert(MemoryGraphStore::project_siblings_in(h, p).contains(y) && y.path == q);
}

} // verus!
