//! What every query of the in-memory store answers, said of what was recorded.

use crate::graph::edge_laws::something_at_path;
use crate::graph::laws::{one_in_its_place, replay_well_ordered};
use crate::graph::memory_store::{
    declarations, depth_path_order, file_of_symbol, file_passes, file_path_order, members, names, neighbours,
    one_per_path, path_depth_order, referrers, replay, replay_push, same_path, siblings, symbol_by_id,
    symbol_name_order, symbol_passes, Edge, EdgeView, Graph, MemoryGraphStore,
};
use crate::graph::model::{
    FileQueryView, FileView, IndexedPackage, IndexedProject, IndexedSymbol, PackageView, ProjectView, RelatedView,
    SymbolQueryView, SymbolView,
};
use crate::graph::removal_laws::{member_item, members_by_item};
use crate::graph::store::{GraphStore, StoreWrite};
use crate::indexer::ids::file_id_of;
use crate::lists::{
    first, first_found, flat_members, keep, keep_members, made, made_is_picked, pick, picked_from,
    text_le_transitive, upsert_ascending,
};
use crate::sorting::{
    dedup, sorted, stable_sort, stable_sort_keeps, stable_sort_sorted, total_preorder,
};
use crate::text::{before_last, has, lower, text_lt_laws};
use vstd::prelude::*;

verus! {

// --- searches -------------------------------------------------------------------------------------
/// A search for symbols finds exactly those that pass each of its filters.
pub proof fn symbol_search_finds_what_passes(h: Seq<StoreWrite>, q: SymbolQueryView, s: SymbolView)
    ensures
        MemoryGraphStore::symbols_matching_in(h, q).contains(s) <==> {
            &&& replay(h).symbols.contains(s)
            &&& q.name matches Some(n) ==> has(lower(s.name), lower(n))
            &&& q.kind matches Some(k) ==> s.kind == k
            &&& q.language matches Some(l) ==> s.language == l
            &&& q.file matches Some(f) ==> s.file_path == f
        },
{
    let p = |x: SymbolView| symbol_passes(q, x);
    keep_members(replay(h).symbols, p);
    stable_sort_keeps(keep(replay(h).symbols, p), symbol_name_order());
}

/// A search for files finds exactly those that pass each of its filters, in the order
/// of their paths.
pub proof fn file_search_finds_what_passes(h: Seq<StoreWrite>, q: FileQueryView, f: FileView)
    ensures
        MemoryGraphStore::files_matching_in(h, q).contains(f) <==> {
            &&& replay(h).files.contains(f)
            &&& q.path_contains matches Some(p) ==> has(lower(f.path), lower(p))
            &&& q.language matches Some(l) ==> f.language == l
        },
        sorted(MemoryGraphStore::files_matching_in(h, q), file_path_order()),
{
    let p = |x: FileView| file_passes(q, x);
    keep_members(replay(h).files, p);
    stable_sort_keeps(keep(replay(h).files, p), file_path_order());
    let le = file_path_order();
    assert forall|a: FileView, b: FileView| #![trigger le(a, b)] le(a, b) || le(b, a) by {
        text_lt_laws(a.path, b.path, a.path);
    }
    assert forall|a: FileView, b: FileView, c: FileView|
        #![trigger le(a, b), le(b, c)]
        le(a, b) && le(b, c) implies le(a, c) by {
        text_le_transitive(a.path, b.path, c.path);
    }
    stable_sort_sorted(keep(replay(h).files, p), le);
}

/// A search by name asks for the name alone, and a search by path for the path alone.
pub proof fn simple_searches(name: Seq<char>)
    ensures
        crate::pack::selector::name_query(name) == (SymbolQueryView {
            name: Some(name),
            kind: None,
            language: None,
            file: None,
        }),
        crate::pack::selector::path_query(name) == (FileQueryView { path_contains: Some(name), language: None }),
        crate::pack::symbols::file_query(name) == (SymbolQueryView {
            name: None,
            kind: None,
            language: None,
            file: Some(name),
        }),
{
}

// --- counts ---------------------------------------------------------------------------------------
/// The counts are those of what is recorded; edges are those between projects and to
/// packages, and references are counted apart.
pub proof fn counts_are_of_what_is_recorded(h: Seq<StoreWrite>)
    ensures
        ({
            let g = replay(h);
            let s = MemoryGraphStore::stats_in(h);
            &&& g.files.len() <= usize::MAX ==> s.files == g.files.len()
            &&& g.symbols.len() <= usize::MAX ==> s.symbols == g.symbols.len()
            &&& g.projects.len() <= usize::MAX ==> s.projects == g.projects.len()
            &&& g.packages.len() <= usize::MAX ==> s.packages == g.packages.len()
            &&& g.sym_references.len() <= usize::MAX ==> s.reference_edges == g.sym_references.len()
            &&& g.project_refs.len() + g.project_pkgs.len() <= usize::MAX ==> s.edges == g.project_refs.len()
                + g.project_pkgs.len()
        }),
{
}

// --- writes are read back -------------------------------------------------------------------------
/// A project or package that was recorded is listed, in place of one with its id, and
/// every other stays.
pub proof fn projects_and_packages_are_listed(h: Seq<StoreWrite>, p: ProjectView, k: PackageView, x: ProjectView, y: PackageView)
    ensures
        MemoryGraphStore::all_projects_in(h.push(StoreWrite::UpsertProject(p))).contains(x) <==> x == p || (
        MemoryGraphStore::all_projects_in(h).contains(x) && x.id != p.id),
        MemoryGraphStore::all_packages_in(h.push(StoreWrite::UpsertPackage(k))).contains(y) <==> y == k || (
        MemoryGraphStore::all_packages_in(h).contains(y) && y.id != k.id),
{
    replay_push(h, StoreWrite::UpsertProject(p));
    replay_push(h, StoreWrite::UpsertPackage(k));
    replay_well_ordered(h);
    upsert_ascending::<IndexedProject>(replay(h).projects, p);
    upsert_ascending::<IndexedPackage>(replay(h).packages, k);
}

/// Every edge that was written is there, and every other stays.
pub proof fn written_edges_are_there(h: Seq<StoreWrite>, from: Seq<char>, to: Seq<char>, e: EdgeView)
    ensures
        replay(h.push(StoreWrite::ContainsFile(from, to))).project_files.contains(e) <==> e == (EdgeView { from, to })
            || replay(h).project_files.contains(e),
        replay(h.push(StoreWrite::Declares(from, to))).file_symbols.contains(e) <==> e == (EdgeView { from, to })
            || replay(h).file_symbols.contains(e),
        replay(h.push(StoreWrite::ReferencesProject(from, to))).project_refs.contains(e) <==> e == (EdgeView { from, to })
            || replay(h).project_refs.contains(e),
        replay(h.push(StoreWrite::UsesPackage(from, to))).project_pkgs.contains(e) <==> e == (EdgeView { from, to })
            || replay(h).project_pkgs.contains(e),
        replay(h.push(StoreWrite::ImportsPackage(from, to))).file_pkgs.contains(e) <==> e == (EdgeView { from, to })
            || replay(h).file_pkgs.contains(e),
        replay(h.push(StoreWrite::Inherits(from, to))).sym_inherits.contains(e) <==> e == (EdgeView { from, to })
            || replay(h).sym_inherits.contains(e),
        replay(h.push(StoreWrite::Implements(from, to))).sym_implements.contains(e) <==> e == (EdgeView { from, to })
            || replay(h).sym_implements.contains(e),
        replay(h.push(StoreWrite::References(from, to))).sym_references.contains(e) <==> e == (EdgeView { from, to })
            || replay(h).sym_references.contains(e),
{
    replay_well_ordered(h);
    let g = replay(h);
    let x = EdgeView { from, to };
    replay_push(h, StoreWrite::ContainsFile(from, to));
    replay_push(h, StoreWrite::Declares(from, to));
    replay_push(h, StoreWrite::ReferencesProject(from, to));
    replay_push(h, StoreWrite::UsesPackage(from, to));
    replay_push(h, StoreWrite::ImportsPackage(from, to));
    replay_push(h, StoreWrite::Inherits(from, to));
    replay_push(h, StoreWrite::Implements(from, to));
    replay_push(h, StoreWrite::References(from, to));
    upsert_ascending::<Edge>(g.project_files, x);
    upsert_ascending::<Edge>(g.file_symbols, x);
    upsert_ascending::<Edge>(g.project_refs, x);
    upsert_ascending::<Edge>(g.project_pkgs, x);
    upsert_ascending::<Edge>(g.file_pkgs, x);
    upsert_ascending::<Edge>(g.sym_inherits, x);
    upsert_ascending::<Edge>(g.sym_implements, x);
    upsert_ascending::<Edge>(g.sym_references, x);
}

// --- relations of a symbol ------------------------------------------------------------------------
proof fn declaration_items(g: Graph, name: Seq<char>, x: RelatedView)
    ensures
        declarations(g, name).contains(x) <==> x.depth == 0 && x.reason == "exact symbol declaration"@ && exists|
            s: SymbolView,
        | #[trigger] g.symbols.contains(s) && s.name == name && s.file_path == x.path,
{
    let f = |s: SymbolView|
        if s.name == name {
            Some(RelatedView { path: s.file_path, reason: "exact symbol declaration"@, depth: 0 })
        } else {
            None
        };
    let list = declarations(g, name);
    assert(list == pick(g.symbols, f));
    if list.contains(x) {
        picked_from(g.symbols, f);
        assert(made(g.symbols, f, list[list.index_of(x)]));
        let s = choose|s: SymbolView| #[trigger] g.symbols.contains(s) && f(s) == Some(x);
        assert(g.symbols.contains(s) && s.name == name);
    }
    if x.depth == 0 && x.reason == "exact symbol declaration"@ && exists|s: SymbolView| #[trigger]
        g.symbols.contains(s) && s.name == name && s.file_path == x.path {
        let s = choose|s: SymbolView| #[trigger] g.symbols.contains(s) && s.name == name && s.file_path == x.path;
        assert(f(s) == Some(x));
        assert(made(g.symbols, f, x));
        made_is_picked(g.symbols, f, x);
    }
}

/// A symbol refers to one of that name.
pub open spec fn refers(g: Graph, s: SymbolView, name: Seq<char>) -> bool {
    exists|t: SymbolView| #[trigger]
        g.symbols.contains(t) && t.name == name && g.sym_references.contains(EdgeView { from: s.id, to: t.id })
}

proof fn referrer_items(h: Seq<StoreWrite>, name: Seq<char>, x: RelatedView)
    ensures
        referrers(replay(h), name).contains(x) <==> x.depth == 1 && x.reason == "references "@ + name && exists|
            s: SymbolView,
        | #[trigger] replay(h).symbols.contains(s) && s.file_path == x.path && refers(replay(h), s, name),
{
    let g = replay(h);
    replay_well_ordered(h);
    let f = |e: EdgeView|
        if names(g, name, e.to) {
            file_of_symbol(g, e.from, "references "@ + name)
        } else {
            None
        };
    let list = referrers(g, name);
    assert(list == pick(g.sym_references, f));
    if list.contains(x) {
        picked_from(g.sym_references, f);
        assert(made(g.sym_references, f, list[list.index_of(x)]));
        let e = choose|e: EdgeView| #[trigger] g.sym_references.contains(e) && f(e) == Some(x);
        let p = |s: SymbolView| s.id == e.from;
        first_found(g.symbols, p);
        let s = symbol_by_id(g, e.from)->0;
        let i = choose|i: int| 0 <= i < g.symbols.len() && (#[trigger] g.symbols[i]).name == name && g.symbols[i].id
            == e.to;
        assert(g.symbols.contains(g.symbols[i]));
        assert(e == (EdgeView { from: s.id, to: g.symbols[i].id }));
        assert(refers(g, s, name));
        assert(g.symbols.contains(s) && s.file_path == x.path);
    }
    if x.depth == 1 && x.reason == "references "@ + name && exists|s: SymbolView| #[trigger]
        g.symbols.contains(s) && s.file_path == x.path && refers(g, s, name) {
        let s = choose|s: SymbolView| #[trigger] g.symbols.contains(s) && s.file_path == x.path && refers(g, s, name);
        let t = choose|t: SymbolView| #[trigger]
            g.symbols.contains(t) && t.name == name && g.sym_references.contains(EdgeView { from: s.id, to: t.id });
        let e = EdgeView { from: s.id, to: t.id };
        assert(g.symbols[g.symbols.index_of(t)].name == name);
        assert(names(g, name, e.to));
        let p = |y: SymbolView| y.id == s.id;
        first_found(g.symbols, p);
        assert(p(g.symbols[g.symbols.index_of(s)]));
        one_in_its_place::<IndexedSymbol>(g.symbols, first(g.symbols, p)->0, s);
        assert(f(e) == Some(x));
        assert(made(g.sym_references, f, x));
        made_is_picked(g.sym_references, f, x);
    }
}

proof fn path_depth_order_laws()
    ensures
        total_preorder(path_depth_order()),
{
    let le = path_depth_order();
    assert forall|a: RelatedView, b: RelatedView| #![trigger le(a, b)] le(a, b) || le(b, a) by {
        text_lt_laws(a.path, b.path, a.path);
    }
    assert forall|a: RelatedView, b: RelatedView, c: RelatedView|
        #![trigger le(a, b), le(b, c)]
        le(a, b) && le(b, c) implies le(a, c) by {
        text_lt_laws(a.path, b.path, c.path);
    }
}

/// Of a list sorted by path and distance, one item per path is left: the nearest.
proof fn nearest_per_path(s: Seq<RelatedView>, x: RelatedView)
    requires
        sorted(s, path_depth_order()),
    ensures
        dedup(s, same_path()).contains(x) ==> s.contains(x),
        s.contains(x) ==> exists|y: RelatedView| #[trigger]
            dedup(s, same_path()).contains(y) && y.path == x.path && y.depth <= x.depth,
        s.len() > 0 ==> dedup(s, same_path()).len() > 0 && dedup(s, same_path()).last().path == s.last().path && dedup(
            s,
            same_path(),
        ).last().depth <= s.last().depth,
    decreases s.len(),
{
    if s.len() > 0 {
        let rest = s.drop_last();
        let d = dedup(s, same_path());
        let k = dedup(rest, same_path());
        assert forall|i: int, j: int| 0 <= i < j < rest.len() implies path_depth_order()(
            #[trigger] rest[i],
            #[trigger] rest[j],
        ) by {
            assert(path_depth_order()(s[i], s[j]));
        }
        nearest_per_path(rest, x);
        nearest_per_path(rest, rest.last());
        let z = s.last();
        assert(s[s.len() - 1] == z);
        if rest.len() > 0 {
            assert(path_depth_order()(s[rest.len() - 1], s[s.len() - 1]));
            text_lt_laws(z.path, z.path, z.path);
        }
        if d.contains(x) {
            let i = d.index_of(x);
            if i < k.len() {
                assert(k[i] == x);
                assert(k.contains(x));
                assert(s[rest.index_of(x)] == x);
            }
        }
        if s.contains(x) {
            let i = s.index_of(x);
            if i < rest.len() {
                assert(rest[i] == x);
                assert(rest.contains(x));
                let y = choose|y: RelatedView| #[trigger] k.contains(y) && y.path == x.path && y.depth <= x.depth;
                assert(d[k.index_of(y)] == y);
                assert(d.contains(y));
            } else {
                assert(d[d.len() - 1] == d.last());
                assert(d.contains(d.last()));
            }
        }
    }
}

/// The graph relates to a symbol exactly the files that declare it, at distance zero,
/// and the files with a symbol that refers to it, at distance one.
pub proof fn relations_of_a_symbol(h: Seq<StoreWrite>, name: Seq<char>, depth: usize, x: RelatedView, path: Seq<char>)
    ensures
        ({
            let g = replay(h);
            let list = MemoryGraphStore::related_to_symbol_in(h, name, depth);
            let declared = exists|s: SymbolView| #[trigger]
                g.symbols.contains(s) && s.name == name && s.file_path == path;
            let referring = exists|s: SymbolView| #[trigger]
                g.symbols.contains(s) && s.file_path == path && refers(g, s, name);
            &&& declared ==> exists|y: RelatedView| #[trigger] list.contains(y) && y.path == path && y.depth == 0
            &&& referring ==> exists|y: RelatedView| #[trigger] list.contains(y) && y.path == path && y.depth <= 1
            &&& list.contains(x) && x.path == path ==> (if x.depth == 0 {
                declared
            } else {
                referring && x.depth == 1
            })
        }),
{
    let g = replay(h);
    let a = declarations(g, name);
    let b = referrers(g, name);
    let all = a + b;
    let s = stable_sort(all, path_depth_order());
    let list = MemoryGraphStore::related_to_symbol_in(h, name, depth);
    path_depth_order_laws();
    stable_sort_sorted(all, path_depth_order());
    stable_sort_keeps(all, path_depth_order());
    let d = RelatedView { path, reason: "exact symbol declaration"@, depth: 0 };
    let r = RelatedView { path, reason: "references "@ + name, depth: 1 };
    declaration_items(g, name, d);
    referrer_items(h, name, r);
    if a.contains(d) {
        assert(all[a.index_of(d)] == d);
        nearest_per_path(s, d);
    }
    if b.contains(r) {
        assert(all[a.len() + b.index_of(r)] == r);
        nearest_per_path(s, r);
    }
    nearest_per_path(s, x);
    if list.contains(x) && x.path == path {
        let k = all.index_of(x);
        if k < a.len() {
            assert(a[k] == x);
            declaration_items(g, name, x);
        } else {
            assert(b[k - a.len()] == x);
            referrer_items(h, name, x);
        }
    }
}

/// The references to a name are exactly the files with a symbol that refers to it.
pub proof fn references_to_a_name(h: Seq<StoreWrite>, name: Seq<char>, path: Seq<char>)
    ensures
        (exists|y: RelatedView| #[trigger] MemoryGraphStore::symbol_references_in(h, name).contains(y) && y.path == path)
            <==> exists|s: SymbolView| #[trigger]
            replay(h).symbols.contains(s) && s.file_path == path && refers(replay(h), s, name),
{
    let all = referrers(replay(h), name);
    let r = RelatedView { path, reason: "references "@ + name, depth: 1 };
    referrer_items(h, name, r);
    if all.contains(r) {
        something_at_path(all, r);
        let y = choose|y: RelatedView| #[trigger] one_per_path(all).contains(y) && y.path == path;
        assert(MemoryGraphStore::symbol_references_in(h, name).contains(y) && y.path == path);
    }
    if exists|y: RelatedView| #[trigger] MemoryGraphStore::symbol_references_in(h, name).contains(y) && y.path == path {
        let y = choose|y: RelatedView| #[trigger]
            MemoryGraphStore::symbol_references_in(h, name).contains(y) && y.path == path;
        crate::graph::edge_laws::one_per_path_is_part(all, y);
        referrer_items(h, name, y);
    }
}

// --- relations of a file --------------------------------------------------------------------------
/// The graph relates to a file itself and the other files of its directory.
pub proof fn relations_of_a_file(h: Seq<StoreWrite>, path: Seq<char>, depth: usize, x: RelatedView)
    ensures
        MemoryGraphStore::related_to_file_in(h, path, depth).contains(x) <==> x == (RelatedView {
            path,
            reason: "seed file"@,
            depth: 0,
        }) || (x.path != path && x.depth == 1 && x.reason == "same directory"@ && before_last(x.path, '/')
            == before_last(path, '/') && exists|f: FileView| #[trigger] replay(h).files.contains(f) && f.path == x.path),
{
    let g = replay(h);
    let f = |f: FileView|
        if before_last(f.path, '/') == before_last(path, '/') && f.path != path {
            Some(RelatedView { path: f.path, reason: "same directory"@, depth: 1 })
        } else {
            None
        };
    let near = neighbours(g, path);
    assert(near == pick(g.files, f));
    let seed = seq![RelatedView { path, reason: "seed file"@, depth: 0 }];
    let all = seed + near;
    stable_sort_keeps(all, depth_path_order());
    assert(all[0] == (RelatedView { path, reason: "seed file"@, depth: 0 }));
    if near.contains(x) {
        assert(all[1 + near.index_of(x)] == x);
        picked_from(g.files, f);
        assert(made(g.files, f, near[near.index_of(x)]));
        let y = choose|y: FileView| #[trigger] g.files.contains(y) && f(y) == Some(x);
        assert(g.files.contains(y) && y.path == x.path);
    }
    if all.contains(x) {
        let k = all.index_of(x);
        if k > 0 {
            assert(near[k - 1] == x);
        }
    }
    if x.path != path && x.depth == 1 && x.reason == "same directory"@ && before_last(x.path, '/') == before_last(
        path,
        '/',
    ) && exists|f: FileView| #[trigger] g.files.contains(f) && f.path == x.path {
        let y = choose|y: FileView| #[trigger] g.files.contains(y) && y.path == x.path;
        assert(f(y) == Some(x));
        assert(made(g.files, f, x));
        made_is_picked(g.files, f, x);
        assert(all[1 + near.index_of(x)] == x);
    }
}

/// The siblings of a file are exactly the other files of the projects it belongs to.
pub proof fn siblings_of_a_file(h: Seq<StoreWrite>, path: Seq<char>, q: Seq<char>)
    ensures
        (exists|y: RelatedView| #[trigger] MemoryGraphStore::project_siblings_in(h, path).contains(y) && y.path == q)
            ==> q != path && exists|pid: Seq<char>| #[trigger]
            replay(h).project_files.contains(EdgeView { from: pid, to: file_id_of(path) }) && replay(
                h,
            ).project_files.contains(EdgeView { from: pid, to: file_id_of(q) }),
{
    let g = replay(h);
    let all = siblings(g, path);
    if exists|y: RelatedView| #[trigger] MemoryGraphStore::project_siblings_in(h, path).contains(y) && y.path == q {
        let y = choose|y: RelatedView| #[trigger]
            MemoryGraphStore::project_siblings_in(h, path).contains(y) && y.path == q;
        crate::graph::edge_laws::one_per_path_is_part(all, y);
        let fid = file_id_of(path);
        let f = |e: EdgeView|
            if e.to == fid {
                members(g, e.from, fid)
            } else {
                Seq::empty()
            };
        flat_members(g.project_files, f, y);
        let e = choose|e: EdgeView| #[trigger] g.project_files.contains(e) && f(e).contains(y);
        let pid = e.from;
        members_by_item(g, pid, fid);
        let item = member_item(g, pid, fid);
        let list = members(g, pid, fid);
        picked_from(g.project_files, item);
        assert(made(g.project_files, item, list[list.index_of(y)]));
        let m = choose|m: EdgeView| #[trigger] g.project_files.contains(m) && item(m) == Some(y);
        assert(m.to =~= file_id_of(q));
        assert(m == (EdgeView { from: pid, to: file_id_of(q) }));
        assert(e == (EdgeView { from: pid, to: file_id_of(path) }));
    }
}

} // verus!
