//! What holds of the in-memory store after any sequence of writes.

use crate::graph::memory_store::{
    declares, replay, replay_push, step, symbol_name_order, symbol_passes, symbol_prefix, without_file, Edge, EdgeView,
    Graph, MemoryGraphStore,
};
use crate::graph::model::{
    FileView, IndexedFile, IndexedPackage, IndexedProject, IndexedSymbol, SymbolQueryView, SymbolView,
};
use crate::graph::store::{GraphStore, StoreWrite};
use crate::indexer::ids::file_id_of;
use crate::lists::{
    ascending, first, first_found, keep, keep_ascending, keep_members, upsert, upsert_ascending, upsert_present,
    Ordered,
};
use crate::sorting::stable_sort_keeps;
use vstd::prelude::*;

verus! {

/// Every list of the graph is strictly ascending: no key and no edge occurs twice.
pub open spec fn well_ordered(g: Graph) -> bool {
    &&& ascending::<IndexedFile>(g.files)
    &&& ascending::<IndexedSymbol>(g.symbols)
    &&& ascending::<IndexedProject>(g.projects)
    &&& ascending::<IndexedPackage>(g.packages)
    &&& ascending::<Edge>(g.file_symbols)
    &&& ascending::<Edge>(g.project_files)
    &&& ascending::<Edge>(g.project_refs)
    &&& ascending::<Edge>(g.project_pkgs)
    &&& ascending::<Edge>(g.file_pkgs)
    &&& ascending::<Edge>(g.sym_inherits)
    &&& ascending::<Edge>(g.sym_implements)
    &&& ascending::<Edge>(g.sym_references)
}

proof fn step_well_ordered(g: Graph, w: StoreWrite)
    requires
        well_ordered(g),
    ensures
        well_ordered(step(g, w)),
{
    match w {
        StoreWrite::UpsertFile(f) => {
            upsert_ascending::<IndexedFile>(g.files, f);
        },
        StoreWrite::RemoveFile(p) => {
            let fid = file_id_of(p);
            keep_ascending::<IndexedFile>(g.files, |f: FileView| f.path != p);
            keep_ascending::<IndexedSymbol>(
                g.symbols,
                |s: SymbolView| !declares(g, fid, s.id) && s.file_path != p,
            );
            keep_ascending::<Edge>(g.file_symbols, |e: EdgeView| e.from != fid);
            keep_ascending::<Edge>(g.file_pkgs, |e: EdgeView| e.from != fid);
            keep_ascending::<Edge>(g.project_files, |e: EdgeView| e.to != fid);
            let other = |e: EdgeView| !symbol_prefix(p).is_prefix_of(e.from);
            keep_ascending::<Edge>(g.sym_inherits, other);
            keep_ascending::<Edge>(g.sym_implements, other);
            keep_ascending::<Edge>(g.sym_references, other);
        },
        StoreWrite::UpsertSymbol(s) => {
            upsert_ascending::<IndexedSymbol>(g.symbols, s);
        },
        StoreWrite::UpsertProject(p) => {
            upsert_ascending::<IndexedProject>(g.projects, p);
        },
        StoreWrite::UpsertPackage(p) => {
            upsert_ascending::<IndexedPackage>(g.packages, p);
        },
        StoreWrite::ContainsFile(from, to) => {
            upsert_ascending::<Edge>(g.project_files, EdgeView { from, to });
        },
        StoreWrite::Declares(from, to) => {
            upsert_ascending::<Edge>(g.file_symbols, EdgeView { from, to });
        },
        StoreWrite::ReferencesProject(from, to) => {
            upsert_ascending::<Edge>(g.project_refs, EdgeView { from, to });
        },
        StoreWrite::UsesPackage(from, to) => {
            upsert_ascending::<Edge>(g.project_pkgs, EdgeView { from, to });
        },
        StoreWrite::ImportsPackage(from, to) => {
            upsert_ascending::<Edge>(g.file_pkgs, EdgeView { from, to });
        },
        StoreWrite::Inherits(from, to) => {
            upsert_ascending::<Edge>(g.sym_inherits, EdgeView { from, to });
        },
        StoreWrite::Implements(from, to) => {
            upsert_ascending::<Edge>(g.sym_implements, EdgeView { from, to });
        },
        StoreWrite::References(from, to) => {
            upsert_ascending::<Edge>(g.sym_references, EdgeView { from, to });
        },
    }
}

/// Whatever is written, every list stays strictly ascending.
pub proof fn replay_well_ordered(h: Seq<StoreWrite>)
    ensures
        well_ordered(replay(h)),
    decreases h.len(),
{
    if h.len() > 0 {
        replay_well_ordered(h.drop_last());
        step_well_ordered(replay(h.drop_last()), h.last());
    }
}

proof fn upsert_twice<T: Ordered>(s: Seq<T::V>, x: T::V)
    requires
        ascending::<T>(s),
    ensures
        upsert::<T>(upsert::<T>(s, x), x) == upsert::<T>(s, x),
{
    upsert_ascending::<T>(s, x);
    upsert_present::<T>(upsert::<T>(s, x), x);
}

proof fn keep_twice<T>(s: Seq<T>, p: spec_fn(T) -> bool)
    ensures
        keep(keep(s, p), p) == keep(s, p),
    decreases s.len(),
{
    if s.len() > 0 {
        keep_twice(s.drop_last(), p);
        let k = keep(s.drop_last(), p);
        assert(k.push(s.last()).drop_last() =~= k);
    }
}

/// Writing the same thing twice in a row leaves the graph as writing it once.
pub proof fn writes_idempotent(h: Seq<StoreWrite>, w: StoreWrite)
    ensures
        replay(h.push(w).push(w)) == replay(h.push(w)),
{
    replay_push(h, w);
    replay_push(h.push(w), w);
    replay_well_ordered(h);
    let g = replay(h);
    match w {
        StoreWrite::UpsertFile(f) => {
            upsert_twice::<IndexedFile>(g.files, f);
        },
        StoreWrite::RemoveFile(p) => {
            let fid = file_id_of(p);
            let g1 = without_file(g, p);
            let left = |s: SymbolView| !declares(g, fid, s.id) && s.file_path != p;
            let left1 = |s: SymbolView| !declares(g1, fid, s.id) && s.file_path != p;
            keep_twice(g.files, |f: FileView| f.path != p);
            keep_twice(g.file_symbols, |e: EdgeView| e.from != fid);
            keep_twice(g.file_pkgs, |e: EdgeView| e.from != fid);
            keep_twice(g.project_files, |e: EdgeView| e.to != fid);
            let other = |e: EdgeView| !symbol_prefix(p).is_prefix_of(e.from);
            keep_twice(g.sym_inherits, other);
            keep_twice(g.sym_implements, other);
            keep_twice(g.sym_references, other);
            keep_members(g.symbols, left);
            keep_members(g.file_symbols, |e: EdgeView| e.from != fid);
            assert forall|i: int| 0 <= i < g1.symbols.len() implies left1(#[trigger] g1.symbols[i]) by {
                assert(keep(g.symbols, left).contains(g1.symbols[i]));
                let e = EdgeView { from: fid, to: g1.symbols[i].id };
                assert(!g1.file_symbols.contains(e));
            }
            crate::lists::keep_everything(g1.symbols, left1);
        },
        StoreWrite::UpsertSymbol(s) => {
            upsert_twice::<IndexedSymbol>(g.symbols, s);
        },
        StoreWrite::UpsertProject(p) => {
            upsert_twice::<IndexedProject>(g.projects, p);
        },
        StoreWrite::UpsertPackage(p) => {
            upsert_twice::<IndexedPackage>(g.packages, p);
        },
        StoreWrite::ContainsFile(from, to) => {
            upsert_twice::<Edge>(g.project_files, EdgeView { from, to });
        },
        StoreWrite::Declares(from, to) => {
            upsert_twice::<Edge>(g.file_symbols, EdgeView { from, to });
        },
        StoreWrite::ReferencesProject(from, to) => {
            upsert_twice::<Edge>(g.project_refs, EdgeView { from, to });
        },
        StoreWrite::UsesPackage(from, to) => {
            upsert_twice::<Edge>(g.project_pkgs, EdgeView { from, to });
        },
        StoreWrite::ImportsPackage(from, to) => {
            upsert_twice::<Edge>(g.file_pkgs, EdgeView { from, to });
        },
        StoreWrite::Inherits(from, to) => {
            upsert_twice::<Edge>(g.sym_inherits, EdgeView { from, to });
        },
        StoreWrite::Implements(from, to) => {
            upsert_twice::<Edge>(g.sym_implements, EdgeView { from, to });
        },
        StoreWrite::References(from, to) => {
            upsert_twice::<Edge>(g.sym_references, EdgeView { from, to });
        },
    }
}

/// Reading a file's path right after recording the file gives back that file,
/// and every other path reads as before.
pub proof fn recorded_file_is_read_back(h: Seq<StoreWrite>, f: FileView, path: Seq<char>)
    ensures
        MemoryGraphStore::file_by_path_in(h.push(StoreWrite::UpsertFile(f)), path) == (if path == f.path {
            Some(f)
        } else {
            MemoryGraphStore::file_by_path_in(h, path)
        }),
{
    replay_push(h, StoreWrite::UpsertFile(f));
    replay_well_ordered(h);
    replay_well_ordered(h.push(StoreWrite::UpsertFile(f)));
    let s = replay(h).files;
    let u = replay(h.push(StoreWrite::UpsertFile(f))).files;
    upsert_ascending::<IndexedFile>(s, f);
    let p = |x: FileView| x.path == path;
    first_found(s, p);
    first_found(u, p);
    if path == f.path {
        let i = u.index_of(f);
        assert(p(u[i]));
    } else {
        if first(u, p) is Some {
            let y = first(u, p).unwrap();
            assert(s.contains(y));
            let i = s.index_of(y);
            assert(p(s[i]));
            let z = first(s, p).unwrap();
            one_in_its_place::<IndexedFile>(s, y, z);
        }
        if first(s, p) is Some {
            let z = first(s, p).unwrap();
            assert(u.contains(z));
            let i = u.index_of(z);
            assert(p(u[i]));
        }
    }
}

/// A symbol is found right after it was recorded, by every search that it passes.
pub proof fn recorded_symbol_is_found(h: Seq<StoreWrite>, s: SymbolView, q: SymbolQueryView)
    requires
        symbol_passes(q, s),
    ensures
        MemoryGraphStore::symbols_matching_in(h.push(StoreWrite::UpsertSymbol(s)), q).contains(s),
{
    replay_push(h, StoreWrite::UpsertSymbol(s));
    replay_well_ordered(h);
    upsert_ascending::<IndexedSymbol>(replay(h).symbols, s);
    let all = replay(h.push(StoreWrite::UpsertSymbol(s))).symbols;
    keep_members(all, |x: SymbolView| symbol_passes(q, x));
    stable_sort_keeps(keep(all, |x: SymbolView| symbol_passes(q, x)), symbol_name_order());
}

pub proof fn one_in_its_place<T: Ordered>(s: Seq<T::V>, y: T::V, z: T::V)
    requires
        ascending::<T>(s),
        s.contains(y),
        s.contains(z),
        T::alike(y, z),
    ensures
        y == z,
{
    let i = s.index_of(y);
    let j = s.index_of(z);
    T::order_laws(y, z, y);
    T::order_laws(z, y, z);
    if i < j {
        assert(T::less(s[i], s[j]));
    }
    if j < i {
        assert(T::less(s[j], s[i]));
    }
}

/// Nothing of a removed file is left: no file node, no symbol of it, no edge from
/// it or from its symbols, and no project that holds it.
pub proof fn removed_file_leaves_nothing(h: Seq<StoreWrite>, path: Seq<char>)
    ensures
        ({
            let g = replay(h.push(StoreWrite::RemoveFile(path)));
            let fid = file_id_of(path);
            &&& forall|f: FileView| #[trigger] g.files.contains(f) ==> f.path != path
            &&& forall|s: SymbolView| #[trigger] g.symbols.contains(s) ==> s.file_path != path
            &&& forall|e: EdgeView| #[trigger] g.file_symbols.contains(e) ==> e.from != fid
            &&& forall|e: EdgeView| #[trigger] g.file_pkgs.contains(e) ==> e.from != fid
            &&& forall|e: EdgeView| #[trigger] g.project_files.contains(e) ==> e.to != fid
            &&& forall|e: EdgeView| #[trigger]
                g.sym_inherits.contains(e) ==> !symbol_prefix(path).is_prefix_of(e.from)
            &&& forall|e: EdgeView| #[trigger]
                g.sym_implements.contains(e) ==> !symbol_prefix(path).is_prefix_of(e.from)
            &&& forall|e: EdgeView| #[trigger]
                g.sym_references.contains(e) ==> !symbol_prefix(path).is_prefix_of(e.from)
        }),
        MemoryGraphStore::file_by_path_in(h.push(StoreWrite::RemoveFile(path)), path) is None,
{
    replay_push(h, StoreWrite::RemoveFile(path));
    let g = replay(h);
    let fid = file_id_of(path);
    keep_members(g.files, |f: FileView| f.path != path);
    keep_members(g.symbols, |s: SymbolView| !declares(g, fid, s.id) && s.file_path != path);
    keep_members(g.file_symbols, |e: EdgeView| e.from != fid);
    keep_members(g.file_pkgs, |e: EdgeView| e.from != fid);
    keep_members(g.project_files, |e: EdgeView| e.to != fid);
    let other = |e: EdgeView| !symbol_prefix(path).is_prefix_of(e.from);
    keep_members(g.sym_inherits, other);
    keep_members(g.sym_implements, other);
    keep_members(g.sym_references, other);
    first_found(without_file(g, path).files, |f: FileView| f.path == path);
}

/// Removing one file leaves every other file and every package and project as
/// they were.
pub proof fn removing_a_file_keeps_the_others(h: Seq<StoreWrite>, path: Seq<char>, f: FileView)
    requires
        f.path != path,
    ensures
        replay(h.push(StoreWrite::RemoveFile(path))).files.contains(f) == replay(h).files.contains(f),
        replay(h.push(StoreWrite::RemoveFile(path))).projects == replay(h).projects,
        replay(h.push(StoreWrite::RemoveFile(path))).packages == replay(h).packages,
{
    replay_push(h, StoreWrite::RemoveFile(path));
    keep_members(replay(h).files, |x: FileView| x.path != path);
}

} // verus!
