//! What the queries of the in-memory store answer once a file was removed.

use crate::graph::laws::{removed_file_leaves_nothing, writes_idempotent};
use crate::graph::memory_store::{
    declarations, declares, depth_path_order, file_of_symbol, file_passes, file_path_order, importers, members, names,
    neighbours, one_per_path, package_named, path_depth_order, path_order, path_reason_order, project_label, referrers,
    replay, replay_push, same_path, same_path_reason, siblings, symbol_name_order, symbol_passes, type_edge_items,
    type_relations, without_file, EdgeView, Graph, MemoryGraphStore,
};
use crate::graph::model::{FileQueryView, FileView, RelatedView, SymbolQueryView, SymbolView};
use crate::graph::store::{GraphStore, StoreWrite};
use crate::indexer::ids::{file_id_injective, file_id_of};
use crate::lists::{
    first, first_found, flat, flat_members, keep, keep_members, keep_of_dedup, keep_of_flat, keep_of_pick,
    keep_of_sorted, made, made_is_picked, pick, picked_from, sorted_set_laws, text_order, text_order_total,
};
use crate::sorting::{dedup, stable_sort, stable_sort_keeps, stable_sort_sorted, total_preorder};
use crate::text::{before_last, stripped, text_lt_laws};
use vstd::prelude::*;

verus! {

/// The items that are not about `path`.
pub open spec fn not_at(path: Seq<char>) -> spec_fn(RelatedView) -> bool {
    |x: RelatedView| x.path != path
}

// --- nothing names the removed path ---------------------------------------------------------
/// No item of the list is about `path`.
pub open spec fn none_at(s: Seq<RelatedView>, path: Seq<char>) -> bool {
    forall|x: RelatedView| #[trigger] s.contains(x) ==> x.path != path
}

proof fn dedup_is_part<T>(s: Seq<T>, eq: spec_fn(T, T) -> bool)
    ensures
        forall|x: T| #[trigger] dedup(s, eq).contains(x) ==> s.contains(x),
    decreases s.len(),
{
    if s.len() > 0 {
        let rest = s.drop_last();
        dedup_is_part(rest, eq);
        let k = dedup(rest, eq);
        let d = dedup(s, eq);
        assert forall|x: T| #[trigger] d.contains(x) implies s.contains(x) by {
            let i = d.index_of(x);
            if i < k.len() {
                assert(k[i] == x);
                assert(k.contains(x));
                assert(s[rest.index_of(x)] == x);
            } else {
                assert(s[s.len() - 1] == x);
            }
        }
    }
}

proof fn tidied_none_at(
    s: Seq<RelatedView>,
    le: spec_fn(RelatedView, RelatedView) -> bool,
    eq: spec_fn(RelatedView, RelatedView) -> bool,
    path: Seq<char>,
)
    requires
        none_at(s, path),
    ensures
        none_at(stable_sort(s, le), path),
        none_at(dedup(stable_sort(s, le), eq), path),
{
    stable_sort_keeps(s, le);
    dedup_is_part(stable_sort(s, le), eq);
}

proof fn sum_none_at(a: Seq<RelatedView>, b: Seq<RelatedView>, path: Seq<char>)
    requires
        none_at(a, path),
        none_at(b, path),
    ensures
        none_at(a + b, path),
{
    assert forall|x: RelatedView| #[trigger] (a + b).contains(x) implies x.path != path by {
        let i = (a + b).index_of(x);
        if i < a.len() {
            assert(a.contains(a[i]));
        } else {
            assert(b.contains(b[i - a.len()]));
        }
    }
}

proof fn picked_none_at<T>(s: Seq<T>, f: spec_fn(T) -> Option<RelatedView>, path: Seq<char>)
    requires
        forall|x: T| #[trigger] s.contains(x) ==> (f(x) matches Some(y) ==> y.path != path),
    ensures
        none_at(pick(s, f), path),
{
    picked_from(s, f);
    let k = pick(s, f);
    assert forall|y: RelatedView| #[trigger] k.contains(y) implies y.path != path by {
        let i = k.index_of(y);
        assert(made(s, f, k[i]));
    }
}

proof fn flat_none_at<T>(s: Seq<T>, f: spec_fn(T) -> Seq<RelatedView>, path: Seq<char>)
    requires
        forall|x: T| #[trigger] s.contains(x) ==> none_at(f(x), path),
    ensures
        none_at(flat(s, f), path),
{
    assert forall|y: RelatedView| #[trigger] flat(s, f).contains(y) implies y.path != path by {
        flat_members(s, f, y);
    }
}

/// No file and no symbol of the graph is at `path`, and no project holds it.
spec fn forgotten(g: Graph, path: Seq<char>) -> bool {
    &&& forall|f: FileView| #[trigger] g.files.contains(f) ==> f.path != path
    &&& forall|s: SymbolView| #[trigger] g.symbols.contains(s) ==> s.file_path != path
    &&& forall|e: EdgeView| #[trigger] g.project_files.contains(e) ==> e.to != file_id_of(path)
    &&& forall|e: EdgeView| #[trigger] g.file_pkgs.contains(e) ==> e.from != file_id_of(path)
}

proof fn file_of_symbol_elsewhere(g: Graph, path: Seq<char>, id: Seq<char>, reason: Seq<char>)
    requires
        forgotten(g, path),
    ensures
        file_of_symbol(g, id, reason) matches Some(x) ==> x.path != path,
{
    first_found(g.symbols, |s: SymbolView| s.id == id);
}

proof fn referrers_elsewhere(g: Graph, path: Seq<char>, name: Seq<char>)
    requires
        forgotten(g, path),
    ensures
        none_at(referrers(g, name), path),
{
    let f = |e: EdgeView|
        if names(g, name, e.to) {
            file_of_symbol(g, e.from, "references "@ + name)
        } else {
            None
        };
    assert forall|e: EdgeView| #[trigger] g.sym_references.contains(e) implies (f(e) matches Some(y) ==> y.path
        != path) by {
        file_of_symbol_elsewhere(g, path, e.from, "references "@ + name);
    }
    picked_none_at(g.sym_references, f, path);
}

proof fn declarations_elsewhere(g: Graph, path: Seq<char>, name: Seq<char>)
    requires
        forgotten(g, path),
    ensures
        none_at(declarations(g, name), path),
{
    picked_none_at(
        g.symbols,
        |s: SymbolView|
            if s.name == name {
                Some(RelatedView { path: s.file_path, reason: "exact symbol declaration"@, depth: 0 })
            } else {
                None
            },
        path,
    );
}

proof fn type_edge_elsewhere(
    g: Graph,
    path: Seq<char>,
    name: Seq<char>,
    up: Seq<char>,
    down: Seq<char>,
    e: EdgeView,
)
    requires
        forgotten(g, path),
    ensures
        none_at(type_edge_items(g, name, up, down, e), path),
{
    file_of_symbol_elsewhere(g, path, e.to, up);
    file_of_symbol_elsewhere(g, path, e.from, down);
}

proof fn type_relations_elsewhere(g: Graph, path: Seq<char>, name: Seq<char>)
    requires
        forgotten(g, path),
    ensures
        none_at(type_relations(g, name), path),
{
    let a = |e: EdgeView| type_edge_items(g, name, "base type (inherits)"@, "subtype (inherits)"@, e);
    let b = |e: EdgeView| type_edge_items(g, name, "implemented interface/trait"@, "implementor"@, e);
    assert forall|e: EdgeView| #[trigger] g.sym_inherits.contains(e) implies none_at(a(e), path) by {
        type_edge_elsewhere(g, path, name, "base type (inherits)"@, "subtype (inherits)"@, e);
    }
    assert forall|e: EdgeView| #[trigger] g.sym_implements.contains(e) implies none_at(b(e), path) by {
        type_edge_elsewhere(g, path, name, "implemented interface/trait"@, "implementor"@, e);
    }
    flat_none_at(g.sym_inherits, a, path);
    flat_none_at(g.sym_implements, b, path);
    sum_none_at(flat(g.sym_inherits, a), flat(g.sym_implements, b), path);
}

proof fn neighbours_elsewhere(g: Graph, path: Seq<char>, q: Seq<char>)
    requires
        forgotten(g, path),
    ensures
        none_at(neighbours(g, q), path),
{
    picked_none_at(
        g.files,
        |f: FileView|
            if before_last(f.path, '/') == before_last(q, '/') && f.path != q {
                Some(RelatedView { path: f.path, reason: "same directory"@, depth: 1 })
            } else {
                None
            },
        path,
    );
}

/// What follows the mark of a file's id is its path.
proof fn stripped_file_id(id: Seq<char>)
    ensures
        stripped(id, "file:"@) matches Some(p) ==> id == file_id_of(p),
{
    if let Some(p) = stripped(id, "file:"@) {
        assert(id =~= "file:"@ + p);
    }
}

/// The importers of a package are the files that an edge leads from to a package of
/// that name.
pub proof fn importers_are(g: Graph, name: Seq<char>, x: Seq<char>)
    ensures
        importers(g, name).contains(x) <==> exists|e: EdgeView| #[trigger]
            g.file_pkgs.contains(e) && e.from == file_id_of(x) && package_named(g, name, e.to),
{
    let f = |e: EdgeView|
        if package_named(g, name, e.to) {
            stripped(e.from, "file:"@)
        } else {
            None
        };
    let k = importers(g, name);
    assert(k == pick(g.file_pkgs, f));
    if k.contains(x) {
        picked_from(g.file_pkgs, f);
        assert(made(g.file_pkgs, f, k[k.index_of(x)]));
        let e = choose|e: EdgeView| #[trigger] g.file_pkgs.contains(e) && f(e) == Some(x);
        stripped_file_id(e.from);
        assert(g.file_pkgs.contains(e) && e.from == file_id_of(x) && package_named(g, name, e.to));
    }
    if exists|e: EdgeView| #[trigger]
        g.file_pkgs.contains(e) && e.from == file_id_of(x) && package_named(g, name, e.to) {
        let e = choose|e: EdgeView| #[trigger]
            g.file_pkgs.contains(e) && e.from == file_id_of(x) && package_named(g, name, e.to);
        let mark = "file:"@;
        assert(mark =~= e.from.take(mark.len() as int));
        assert(e.from.skip(mark.len() as int) =~= x);
        assert(f(e) == Some(x));
        assert(made(g.file_pkgs, f, x));
        made_is_picked(g.file_pkgs, f, x);
    }
}

/// Once a file was removed, no query names its path: it is not found, no list of
/// files, symbols, importers or relations holds it, and it has no siblings.
pub proof fn removed_file_is_named_nowhere(
    h: Seq<StoreWrite>,
    path: Seq<char>,
    files: FileQueryView,
    symbols: SymbolQueryView,
    name: Seq<char>,
    q: Seq<char>,
    depth: usize,
)
    ensures
        ({
            let after = h.push(StoreWrite::RemoveFile(path));
            &&& MemoryGraphStore::file_by_path_in(after, path) is None
            &&& forall|f: FileView| #[trigger] MemoryGraphStore::all_files_in(after).contains(f) ==> f.path != path
            &&& forall|f: FileView| #[trigger]
                MemoryGraphStore::files_matching_in(after, files).contains(f) ==> f.path != path
            &&& forall|s: SymbolView| #[trigger]
                MemoryGraphStore::symbols_matching_in(after, symbols).contains(s) ==> s.file_path != path
            &&& !MemoryGraphStore::files_importing_package_in(after, name).contains(path)
            &&& none_at(MemoryGraphStore::related_to_symbol_in(after, name, depth), path)
            &&& none_at(MemoryGraphStore::symbol_type_relations_in(after, name), path)
            &&& none_at(MemoryGraphStore::symbol_references_in(after, name), path)
            &&& q != path ==> none_at(MemoryGraphStore::related_to_file_in(after, q, depth), path)
            &&& none_at(MemoryGraphStore::project_siblings_in(after, q), path)
            &&& MemoryGraphStore::project_siblings_in(after, path).len() == 0
        }),
{
    let after = h.push(StoreWrite::RemoveFile(path));
    let g = replay(after);
    removed_file_leaves_nothing(h, path);
    assert(forgotten(g, path));
    keep_members(g.files, |f: FileView| file_passes(files, f));
    stable_sort_keeps(keep(g.files, |f: FileView| file_passes(files, f)), file_path_order());
    keep_members(g.symbols, |s: SymbolView| symbol_passes(symbols, s));
    stable_sort_keeps(keep(g.symbols, |s: SymbolView| symbol_passes(symbols, s)), symbol_name_order());
    sorted_set_laws(importers(g, name));
    importers_are(g, name, path);
    referrers_elsewhere(g, path, name);
    declarations_elsewhere(g, path, name);
    type_relations_elsewhere(g, path, name);
    neighbours_elsewhere(g, path, q);
    sum_none_at(declarations(g, name), referrers(g, name), path);
    tidied_none_at(
        declarations(g, name) + referrers(g, name),
        path_depth_order(),
        same_path(),
        path,
    );
    tidied_none_at(
        type_relations(g, name),
        path_reason_order(),
        same_path_reason(),
        path,
    );
    tidied_none_at(referrers(g, name), path_order(), same_path(), path);
    let seed = seq![RelatedView { path: q, reason: "seed file"@, depth: 0 }];
    if q != path {
        sum_none_at(seed, neighbours(g, q), path);
        tidied_none_at(seed + neighbours(g, q), depth_path_order(), same_path(), path);
    }
    siblings_elsewhere(g, path, q);
    tidied_none_at(siblings(g, q), path_order(), same_path(), path);
    no_siblings(g, path);
}

proof fn siblings_elsewhere(g: Graph, path: Seq<char>, q: Seq<char>)
    requires
        forgotten(g, path),
    ensures
        none_at(siblings(g, q), path),
{
    let fid = file_id_of(q);
    let f = |e: EdgeView|
        if e.to == fid {
            members(g, e.from, fid)
        } else {
            Seq::empty()
        };
    assert forall|e: EdgeView| #[trigger] g.project_files.contains(e) implies none_at(f(e), path) by {
        members_elsewhere(g, path, e.from, fid);
    }
    flat_none_at(g.project_files, f, path);
}

/// What one membership edge tells of the project `pid`.
pub open spec fn member_item(g: Graph, pid: Seq<char>, fid: Seq<char>) -> spec_fn(EdgeView) -> Option<RelatedView> {
    |e: EdgeView|
        if e.from == pid && e.to != fid {
            match stripped(e.to, "file:"@) {
                Some(p) => Some(
                    RelatedView { path: p, reason: "same project ("@ + project_label(g, pid) + ")"@, depth: 1 },
                ),
                None => None,
            }
        } else {
            None
        }
}

pub proof fn members_by_item(g: Graph, pid: Seq<char>, fid: Seq<char>)
    ensures
        members(g, pid, fid) == pick(g.project_files, member_item(g, pid, fid)),
{
    let f = |e: EdgeView|
        if e.from == pid && e.to != fid {
            match stripped(e.to, "file:"@) {
                Some(p) => Some(
                    RelatedView { path: p, reason: "same project ("@ + project_label(g, pid) + ")"@, depth: 1 },
                ),
                None => None,
            }
        } else {
            None
        };
    assert(f =~= member_item(g, pid, fid));
}

proof fn members_elsewhere(g: Graph, path: Seq<char>, pid: Seq<char>, fid: Seq<char>)
    requires
        forgotten(g, path),
    ensures
        none_at(members(g, pid, fid), path),
{
    members_by_item(g, pid, fid);
    let f = member_item(g, pid, fid);
    assert forall|e: EdgeView| #[trigger] g.project_files.contains(e) implies (f(e) matches Some(y) ==> y.path
        != path) by {
        stripped_file_id(e.to);
    }
    picked_none_at(g.project_files, f, path);
}

proof fn no_siblings(g: Graph, path: Seq<char>)
    requires
        forgotten(g, path),
    ensures
        one_per_path(siblings(g, path)).len() == 0,
{
    let fid = file_id_of(path);
    let f = |e: EdgeView|
        if e.to == fid {
            members(g, e.from, fid)
        } else {
            Seq::empty()
        };
    let s = siblings(g, path);
    if s.len() > 0 {
        assert(s.contains(s[0]));
        flat_members(g.project_files, f, s[0]);
    }
    stable_sort_keeps(s, path_order());
}

// --- everything else answers as before --------------------------------------------------------
pub proof fn path_order_total()
    ensures
        total_preorder(path_order()),
        forall|a: RelatedView, b: RelatedView| #[trigger]
            same_path()(a, b) == (path_order()(a, b) && path_order()(b, a)),
{
    text_order_total();
    let le = path_order();
    let text = text_order();
    assert forall|a: RelatedView, b: RelatedView| #![trigger le(a, b)] le(a, b) || le(b, a) by {
        assert(text(a.path, b.path) || text(b.path, a.path));
    }
    assert forall|a: RelatedView, b: RelatedView, c: RelatedView|
        #![trigger le(a, b), le(b, c)]
        le(a, b) && le(b, c) implies le(a, c) by {
        assert(text(a.path, b.path) && text(b.path, c.path));
    }
    assert forall|a: RelatedView, b: RelatedView| #[trigger] same_path()(a, b) == (le(a, b) && le(b, a)) by {
        text_lt_laws(a.path, b.path, a.path);
        text_lt_laws(b.path, a.path, b.path);
    }
}

/// The siblings of another file, without the removed one.
proof fn siblings_but_one(g: Graph, path: Seq<char>, q: Seq<char>)
    requires
        q != path,
    ensures
        siblings(without_file(g, path), q) == keep(siblings(g, q), not_at(path)),
{
    let g1 = without_file(g, path);
    let gone = file_id_of(path);
    let fid = file_id_of(q);
    let stays = |e: EdgeView| e.to != gone;
    let f = |e: EdgeView|
        if e.to == fid {
            members(g, e.from, fid)
        } else {
            Seq::empty()
        };
    let f1 = |e: EdgeView|
        if e.to == fid {
            members(g1, e.from, fid)
        } else {
            Seq::empty()
        };
    let r = not_at(path);
    assert forall|e: EdgeView| #[trigger] f(e).len() >= 0 && (if stays(e) {
        f1(e) == keep(f(e), r)
    } else {
        keep(f(e), r).len() == 0
    }) by {
        if stays(e) {
            members_but_one(g, path, e.from, fid);
        } else if e.to == fid {
            file_id_injective(path, q);
        }
    }
    keep_of_flat(g.project_files, f, stays, f1, r);
}

proof fn members_but_one(g: Graph, path: Seq<char>, pid: Seq<char>, fid: Seq<char>)
    ensures
        members(without_file(g, path), pid, fid) == keep(members(g, pid, fid), not_at(path)),
{
    let g1 = without_file(g, path);
    let gone = file_id_of(path);
    let stays = |e: EdgeView| e.to != gone;
    let f = member_item(g, pid, fid);
    let f1 = member_item(g1, pid, fid);
    members_by_item(g, pid, fid);
    members_by_item(g1, pid, fid);
    let r = not_at(path);
    assert forall|e: EdgeView| (#[trigger] f(e)) matches Some(u) ==> stays(e) == r(u) by {
        stripped_file_id(e.to);
        if let Some(u) = f(e) {
            if e.to == gone {
                file_id_injective(path, u.path);
            }
        }
    }
    keep_of_pick(g.project_files, f, stays, f1, r);
}

/// Removing a file leaves what is known of every other path: the file, the
/// importers of every package and the siblings in every project but for the removed
/// file, every project and package, and every symbol that is neither at the path nor
/// declared by the file.
pub proof fn other_answers_stay(
    h: Seq<StoreWrite>,
    path: Seq<char>,
    q: Seq<char>,
    symbols: SymbolQueryView,
    package: Seq<char>,
)
    requires
        q != path,
    ensures
        ({
            let after = h.push(StoreWrite::RemoveFile(path));
            &&& MemoryGraphStore::file_by_path_in(after, q) == MemoryGraphStore::file_by_path_in(h, q)
            &&& MemoryGraphStore::all_projects_in(after) == MemoryGraphStore::all_projects_in(h)
            &&& MemoryGraphStore::all_packages_in(after) == MemoryGraphStore::all_packages_in(h)
            &&& forall|s: SymbolView| #[trigger]
                MemoryGraphStore::symbols_matching_in(after, symbols).contains(s)
                    <==> MemoryGraphStore::symbols_matching_in(h, symbols).contains(s) && s.file_path != path
                    && !declares(replay(h), file_id_of(path), s.id)
            &&& forall|x: Seq<char>| #[trigger]
                MemoryGraphStore::files_importing_package_in(after, package).contains(x)
                    <==> MemoryGraphStore::files_importing_package_in(h, package).contains(x) && x != path
            &&& MemoryGraphStore::project_siblings_in(after, q) == keep(
                MemoryGraphStore::project_siblings_in(h, q),
                not_at(path),
            )
            &&& replay(after.push(StoreWrite::RemoveFile(path))) == replay(after)
        }),
{
    let after = h.push(StoreWrite::RemoveFile(path));
    let g = replay(h);
    let g1 = replay(after);
    let fid = file_id_of(path);
    replay_push(h, StoreWrite::RemoveFile(path));
    writes_idempotent(h, StoreWrite::RemoveFile(path));
    // The file.
    first_of_kept(g.files, path, q);
    // The symbols.
    let p = |s: SymbolView| symbol_passes(symbols, s);
    keep_members(g.symbols, |s: SymbolView| !declares(g, fid, s.id) && s.file_path != path);
    keep_members(g.symbols, p);
    keep_members(g1.symbols, p);
    stable_sort_keeps(keep(g.symbols, p), symbol_name_order());
    stable_sort_keeps(keep(g1.symbols, p), symbol_name_order());
    // The importers.
    sorted_set_laws(importers(g, package));
    sorted_set_laws(importers(g1, package));
    keep_members(g.file_pkgs, |e: EdgeView| e.from != fid);
    assert forall|x: Seq<char>| #[trigger]
        MemoryGraphStore::files_importing_package_in(after, package).contains(x)
            <==> MemoryGraphStore::files_importing_package_in(h, package).contains(x) && x != path by {
        importers_are(g, package, x);
        importers_are(g1, package, x);
        assert forall|id: Seq<char>| package_named(g1, package, id) == package_named(g, package, id) by {
            assert(g1.packages == g.packages);
        }
        if importers(g1, package).contains(x) {
            let e = choose|e: EdgeView| #[trigger]
                g1.file_pkgs.contains(e) && e.from == file_id_of(x) && package_named(g1, package, e.to);
            assert(g.file_pkgs.contains(e) && package_named(g, package, e.to));
        }
        if importers(g, package).contains(x) && x != path {
            let e = choose|e: EdgeView| #[trigger]
                g.file_pkgs.contains(e) && e.from == file_id_of(x) && package_named(g, package, e.to);
            if e.from == fid {
                file_id_injective(x, path);
            }
            assert(g1.file_pkgs.contains(e) && package_named(g1, package, e.to));
        }
    }
    // The siblings.
    siblings_but_one(g, path, q);
    let r = not_at(path);
    let all = siblings(g, q);
    path_order_total();
    keep_of_sorted(all, path_order(), r);
    stable_sort_sorted(all, path_order());
    keep_of_dedup(stable_sort(all, path_order()), path_order(), same_path(), r);
}

/// The first file at a path is still the first when files at another are dropped.
proof fn first_of_kept(files: Seq<FileView>, path: Seq<char>, q: Seq<char>)
    requires
        q != path,
    ensures
        first(keep(files, |f: FileView| f.path != path), |f: FileView| f.path == q) == first(
            files,
            |f: FileView| f.path == q,
        ),
    decreases files.len(),
{
    let stays = |f: FileView| f.path != path;
    if files.len() > 0 {
        let rest = files.drop_last();
        first_of_kept(rest, path, q);
        let kept = keep(rest, stays);
        assert(kept.push(files.last()).drop_last() =~= kept);
    }
}

} // verus!
