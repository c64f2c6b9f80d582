//! What holds of the in-memory store after a batch of files was written.

use crate::graph::laws::{recorded_file_is_read_back, replay_well_ordered, well_ordered};
use crate::graph::memory_store::{
    declares, replay, replay_push, step, symbol_name_order, symbol_passes, symbol_prefix, without_file, Edge, EdgeView,
    Graph, MemoryGraphStore,
};
use crate::graph::model::{FileWriteView, IndexedSymbol, SymbolQueryView, SymbolView};
use crate::graph::removal_laws::other_answers_stay;
use crate::graph::store::{batch_writes, declare_writes, file_write_steps, GraphStore, StoreWrite};
use crate::indexer::ids::{file_id_injective, file_id_of};
use crate::lists::{ascending, ascending_unique, keep, keep_ascending, keep_members, upsert_ascending};
use crate::sorting::stable_sort_keeps;
use crate::text::text_lt_irreflexive;
use vstd::prelude::*;

verus! {

/// The symbols of the file at `p` are exactly `v`.
pub open spec fn exactly(g: Graph, p: Seq<char>, v: Seq<SymbolView>) -> bool {
    forall|s: SymbolView| s.file_path == p ==> (#[trigger] g.symbols.contains(s) <==> v.contains(s))
}

/// Symbols of the file at `p`, with different ids.
pub open spec fn own_symbols(p: Seq<char>, v: Seq<SymbolView>) -> bool {
    &&& forall|i: int| 0 <= i < v.len() ==> (#[trigger] v[i]).file_path == p
    &&& forall|i: int, j: int| 0 <= i < j < v.len() ==> (#[trigger] v[i]).id != (#[trigger] v[j]).id
}

/// One of the symbols has the id.
pub open spec fn has_id(v: Seq<SymbolView>, id: Seq<char>) -> bool {
    exists|i: int| 0 <= i < v.len() && (#[trigger] v[i]).id == id
}

/// No symbol of the list is declared by the file at `q`.
pub open spec fn undeclared(g: Graph, q: Seq<char>, v: Seq<SymbolView>) -> bool {
    forall|s: SymbolView| #[trigger] v.contains(s) ==> !declares(g, file_id_of(q), s.id)
}

/// No symbol of the one list has the id of a symbol of the other.
pub open spec fn disjoint_ids(v: Seq<SymbolView>, w: Seq<SymbolView>) -> bool {
    forall|s: SymbolView| #[trigger] v.contains(s) ==> !has_id(w, s.id)
}

/// No id of a symbol of the list belongs to the file that is written: it declares
/// none so far, and is about to declare none.
pub open spec fn not_claimed(g: Graph, fw: FileWriteView, v: Seq<SymbolView>) -> bool {
    undeclared(g, fw.file.path, v) && disjoint_ids(v, fw.symbols)
}

pub proof fn removing_another(g: Graph, q: Seq<char>, p: Seq<char>, v: Seq<SymbolView>)
    requires
        exactly(g, p, v),
        undeclared(g, q, v),
        p != q,
    ensures
        exactly(without_file(g, q), p, v),
{
    let fid = file_id_of(q);
    keep_members(g.symbols, |s: SymbolView| !declares(g, fid, s.id) && s.file_path != q);
}

proof fn removing_empties(g: Graph, p: Seq<char>)
    ensures
        exactly(without_file(g, p), p, Seq::empty()),
{
    let fid = file_id_of(p);
    keep_members(g.symbols, |s: SymbolView| !declares(g, fid, s.id) && s.file_path != p);
    assert forall|s: SymbolView| s.file_path == p implies !(#[trigger] without_file(g, p).symbols.contains(s)) by {}
}

/// One more symbol of the file at `p`.
proof fn one_more(g: Graph, p: Seq<char>, v: Seq<SymbolView>, s: SymbolView)
    requires
        well_ordered(g),
        exactly(g, p, v),
        own_symbols(p, v.push(s)),
    ensures
        exactly(step(g, StoreWrite::UpsertSymbol(s)), p, v.push(s)),
{
    let more = v.push(s);
    let g1 = step(g, StoreWrite::UpsertSymbol(s));
    assert(more[v.len() as int] == s);
    upsert_ascending::<IndexedSymbol>(g.symbols, s);
    assert forall|y: SymbolView| y.file_path == p implies (#[trigger] g1.symbols.contains(y) <==> more.contains(y)) by {
        if v.contains(y) {
            let i = v.index_of(y);
            assert(more[i] == y);
            assert(more[i].id != more[v.len() as int].id);
        }
        if more.contains(y) && y != s {
            let i = more.index_of(y);
            assert(v[i] == y);
        }
    }
}

/// The symbols of a file, one after the other.
proof fn declared(h: Seq<StoreWrite>, p: Seq<char>, v: Seq<SymbolView>)
    requires
        exactly(replay(h), p, Seq::empty()),
        own_symbols(p, v),
    ensures
        exactly(replay(h + declare_writes(file_id_of(p), v)), p, v),
    decreases v.len(),
{
    let fid = file_id_of(p);
    if v.len() == 0 {
        assert(h + declare_writes(fid, v) =~= h);
        assert(v =~= Seq::<SymbolView>::empty());
    } else {
        let rest = v.drop_last();
        let s = v.last();
        assert(rest.push(s) =~= v);
        own_part(p, v);
        declared(h, p, rest);
        let before = h + declare_writes(fid, rest);
        replay_well_ordered(before);
        one_more(replay(before), p, rest, s);
        declare_more(h, fid, v);
    }
}

proof fn own_part(p: Seq<char>, v: Seq<SymbolView>)
    requires
        own_symbols(p, v),
        v.len() > 0,
    ensures
        own_symbols(p, v.drop_last()),
        v.last().file_path == p,
{
    let rest = v.drop_last();
    assert forall|i: int| 0 <= i < rest.len() implies (#[trigger] rest[i]).file_path == p by {
        assert(v[i].file_path == p);
    }
    assert forall|i: int, j: int| 0 <= i < j < rest.len() implies (#[trigger] rest[i]).id != (
    #[trigger] rest[j]).id by {
        assert(v[i].id != v[j].id);
    }
    assert(v[v.len() - 1].file_path == p);
}

/// Declaring one symbol more: the symbol, then its edge.
proof fn declare_more(h: Seq<StoreWrite>, file_id: Seq<char>, v: Seq<SymbolView>)
    requires
        v.len() > 0,
    ensures
        replay(h + declare_writes(file_id, v)) == step(
            step(replay(h + declare_writes(file_id, v.drop_last())), StoreWrite::UpsertSymbol(v.last())),
            StoreWrite::Declares(file_id, v.last().id),
        ),
{
    let before = h + declare_writes(file_id, v.drop_last());
    let a = StoreWrite::UpsertSymbol(v.last());
    let b = StoreWrite::Declares(file_id, v.last().id);
    replay_push(before, a);
    replay_push(before.push(a), b);
    assert(before.push(a).push(b) =~= h + declare_writes(file_id, v));
}

/// The symbols of another file, one after the other.
proof fn declared_elsewhere(h: Seq<StoreWrite>, q: Seq<char>, w: Seq<SymbolView>, p: Seq<char>, v: Seq<SymbolView>)
    requires
        exactly(replay(h), p, v),
        own_symbols(q, w),
        disjoint_ids(v, w),
        p != q,
    ensures
        exactly(replay(h + declare_writes(file_id_of(q), w)), p, v),
    decreases w.len(),
{
    let fid = file_id_of(q);
    if w.len() == 0 {
        assert(h + declare_writes(fid, w) =~= h);
    } else {
        let rest = w.drop_last();
        let s = w.last();
        own_part(q, w);
        assert(w[w.len() - 1] == s);
        assert forall|x: SymbolView| #[trigger] v.contains(x) implies !has_id(rest, x.id) && x.id != s.id by {
            assert(!has_id(w, x.id));
            if has_id(rest, x.id) {
                let i = choose|i: int| 0 <= i < rest.len() && (#[trigger] rest[i]).id == x.id;
                assert(w[i].id == x.id);
            }
        }
        declared_elsewhere(h, q, rest, p, v);
        let before = h + declare_writes(fid, rest);
        replay_well_ordered(before);
        upsert_ascending::<IndexedSymbol>(replay(before).symbols, s);
        declare_more(h, fid, w);
    }
}

// --- what else the symbols of a file leave alone ------------------------------------------------
/// Declaring symbols of one file changes no file, nor what another file declares.
proof fn declaring_keeps_files(h: Seq<StoreWrite>, file_id: Seq<char>, v: Seq<SymbolView>)
    ensures
        replay(h + declare_writes(file_id, v)).files == replay(h).files,
        forall|e: EdgeView|
            e.from != file_id ==> (#[trigger] replay(h + declare_writes(file_id, v)).file_symbols.contains(e)
                <==> replay(h).file_symbols.contains(e)),
    decreases v.len(),
{
    if v.len() == 0 {
        assert(h + declare_writes(file_id, v) =~= h);
    } else {
        let rest = v.drop_last();
        declaring_keeps_files(h, file_id, rest);
        declare_more(h, file_id, v);
        let before = h + declare_writes(file_id, rest);
        replay_well_ordered(before);
        upsert_ascending::<Edge>(replay(before).file_symbols, EdgeView { from: file_id, to: v.last().id });
    }
}

// --- one file of a batch -------------------------------------------------------------------------
/// A file under its id, with symbols of its own.
pub open spec fn proper_write(fw: FileWriteView) -> bool {
    fw.file.id == file_id_of(fw.file.path) && own_symbols(fw.file.path, fw.symbols)
}

/// The history before the symbols of a file are declared.
spec fn file_recorded(h: Seq<StoreWrite>, fw: FileWriteView) -> Seq<StoreWrite> {
    h.push(StoreWrite::RemoveFile(fw.file.path)).push(StoreWrite::UpsertFile(fw.file))
}

proof fn recorded_graph(h: Seq<StoreWrite>, fw: FileWriteView)
    ensures
        replay(file_recorded(h, fw)).symbols == without_file(replay(h), fw.file.path).symbols,
        replay(file_recorded(h, fw)).file_symbols == without_file(replay(h), fw.file.path).file_symbols,
        h + file_write_steps(fw) == file_recorded(h, fw) + declare_writes(fw.file.id, fw.symbols),
{
    replay_push(h, StoreWrite::RemoveFile(fw.file.path));
    replay_push(h.push(StoreWrite::RemoveFile(fw.file.path)), StoreWrite::UpsertFile(fw.file));
    assert(h + file_write_steps(fw) =~= file_recorded(h, fw) + declare_writes(fw.file.id, fw.symbols));
}

proof fn file_is_written(h: Seq<StoreWrite>, fw: FileWriteView)
    requires
        proper_write(fw),
    ensures
        exactly(replay(h + file_write_steps(fw)), fw.file.path, fw.symbols),
        MemoryGraphStore::file_by_path_in(h + file_write_steps(fw), fw.file.path) == Some(fw.file),
{
    let p = fw.file.path;
    let h1 = h.push(StoreWrite::RemoveFile(p));
    let h2 = file_recorded(h, fw);
    recorded_graph(h, fw);
    removing_empties(replay(h), p);
    declared(h2, p, fw.symbols);
    recorded_file_is_read_back(h1, fw.file, p);
    declaring_keeps_files(h2, fw.file.id, fw.symbols);
}

/// Writing a file changes nothing of another: what is known of it, what it declares,
/// and its symbols, as far as none of their ids belongs to the written file.
proof fn another_file_is_spared(h: Seq<StoreWrite>, fw: FileWriteView, q: Seq<char>, v: Seq<SymbolView>)
    requires
        proper_write(fw),
        exactly(replay(h), q, v),
        not_claimed(replay(h), fw, v),
        q != fw.file.path,
    ensures
        exactly(replay(h + file_write_steps(fw)), q, v),
        MemoryGraphStore::file_by_path_in(h + file_write_steps(fw), q) == MemoryGraphStore::file_by_path_in(h, q),
{
    let p = fw.file.path;
    let h1 = h.push(StoreWrite::RemoveFile(p));
    let h2 = file_recorded(h, fw);
    recorded_graph(h, fw);
    removing_another(replay(h), p, q, v);
    declared_elsewhere(h2, p, fw.symbols, q, v);
    other_answers_stay(h, p, q, of_file(q), Seq::empty());
    recorded_file_is_read_back(h1, fw.file, q);
    declaring_keeps_files(h2, fw.file.id, fw.symbols);
}

/// Writing a file changes nothing of what another declares.
proof fn another_file_declares_as_before(h: Seq<StoreWrite>, fw: FileWriteView, q: Seq<char>, id: Seq<char>)
    requires
        proper_write(fw),
        q != fw.file.path,
    ensures
        declares(replay(h + file_write_steps(fw)), file_id_of(q), id) == declares(replay(h), file_id_of(q), id),
{
    let p = fw.file.path;
    if file_id_of(q) == fw.file.id {
        file_id_injective(q, p);
    }
    recorded_graph(h, fw);
    keep_members(replay(h).file_symbols, |e: EdgeView| e.from != file_id_of(p));
    declaring_keeps_files(file_recorded(h, fw), fw.file.id, fw.symbols);
}

// --- a batch of files ------------------------------------------------------------------------
/// Files at different paths, each with symbols of its own.
pub open spec fn proper_writes(writes: Seq<FileWriteView>) -> bool {
    &&& forall|k: int| 0 <= k < writes.len() ==> proper_write(#[trigger] writes[k])
    &&& forall|k: int, l: int|
        0 <= k < l < writes.len() ==> (#[trigger] writes[k]).file.path != (#[trigger] writes[l]).file.path
}

/// No symbol id belongs to two files of the batch.
pub open spec fn no_shared_ids(g: Graph, writes: Seq<FileWriteView>) -> bool {
    forall|k: int, l: int|
        0 <= k < writes.len() && 0 <= l < writes.len() && k != l ==> not_claimed(
            g,
            #[trigger] writes[l],
            (#[trigger] writes[k]).symbols,
        )
}

proof fn proper_rest(writes: Seq<FileWriteView>)
    requires
        proper_writes(writes),
        writes.len() > 0,
    ensures
        proper_writes(writes.drop_last()),
        proper_write(writes.last()),
{
    let rest = writes.drop_last();
    assert forall|k: int| 0 <= k < rest.len() implies proper_write(#[trigger] rest[k]) by {
        assert(rest[k] == writes[k]);
    }
    assert forall|k: int, l: int| 0 <= k < l < rest.len() implies (#[trigger] rest[k]).file.path != (
    #[trigger] rest[l]).file.path by {
        assert(writes[k].file.path != writes[l].file.path);
    }
    assert(proper_write(writes[writes.len() - 1]));
}

/// A file that is not in the batch declares what it declared.
pub proof fn batch_keeps_declarations(h: Seq<StoreWrite>, writes: Seq<FileWriteView>, q: Seq<char>, id: Seq<char>)
    requires
        proper_writes(writes),
        forall|k: int| 0 <= k < writes.len() ==> (#[trigger] writes[k]).file.path != q,
    ensures
        declares(replay(h + batch_writes(writes)), file_id_of(q), id) == declares(replay(h), file_id_of(q), id),
    decreases writes.len(),
{
    if writes.len() == 0 {
        assert(h + batch_writes(writes) =~= h);
    } else {
        let rest = writes.drop_last();
        let fw = writes.last();
        assert(writes[writes.len() - 1] == fw);
        proper_rest(writes);
        assert forall|k: int| 0 <= k < rest.len() implies (#[trigger] rest[k]).file.path != q by {
            assert(rest[k] == writes[k]);
        }
        batch_keeps_declarations(h, rest, q, id);
        let h0 = h + batch_writes(rest);
        assert(h0 + file_write_steps(fw) =~= h + batch_writes(writes));
        another_file_declares_as_before(h0, fw, q, id);
    }
}

/// What the last file of a batch does not claim before the batch, it does not claim
/// before its own turn.
proof fn still_not_claimed(h: Seq<StoreWrite>, writes: Seq<FileWriteView>, v: Seq<SymbolView>)
    requires
        proper_writes(writes),
        writes.len() > 0,
        not_claimed(replay(h), writes.last(), v),
    ensures
        not_claimed(replay(h + batch_writes(writes.drop_last())), writes.last(), v),
{
    let rest = writes.drop_last();
    let n = writes.len() - 1;
    let p = writes.last().file.path;
    proper_rest(writes);
    assert forall|k: int| 0 <= k < rest.len() implies (#[trigger] rest[k]).file.path != p by {
        assert(rest[k] == writes[k]);
        assert(writes[k].file.path != writes[n].file.path);
    }
    assert forall|s: SymbolView| #[trigger] v.contains(s) implies !declares(
        replay(h + batch_writes(rest)),
        file_id_of(p),
        s.id,
    ) by {
        batch_keeps_declarations(h, rest, p, s.id);
    }
}

/// Every file of the batch has exactly its symbols.
pub proof fn batch_is_known(h: Seq<StoreWrite>, writes: Seq<FileWriteView>, k: int)
    requires
        proper_writes(writes),
        no_shared_ids(replay(h), writes),
        0 <= k < writes.len(),
    ensures
        exactly(replay(h + batch_writes(writes)), writes[k].file.path, writes[k].symbols),
        MemoryGraphStore::file_by_path_in(h + batch_writes(writes), writes[k].file.path) == Some(writes[k].file),
    decreases writes.len(),
{
    let rest = writes.drop_last();
    let fw = writes.last();
    let n = writes.len() - 1;
    assert(writes[n] == fw);
    proper_rest(writes);
    let h0 = h + batch_writes(rest);
    assert(h0 + file_write_steps(fw) =~= h + batch_writes(writes));
    if k == n {
        file_is_written(h0, fw);
    } else {
        assert(rest[k] == writes[k]);
        assert forall|a: int, b: int| 0 <= a < rest.len() && 0 <= b < rest.len() && a != b implies not_claimed(
            replay(h),
            #[trigger] rest[b],
            (#[trigger] rest[a]).symbols,
        ) by {
            assert(not_claimed(replay(h), writes[b], writes[a].symbols));
        }
        batch_is_known(h, rest, k);
        assert(writes[k].file.path != writes[n].file.path);
        assert(not_claimed(replay(h), writes[n], writes[k].symbols));
        still_not_claimed(h, writes, writes[k].symbols);
        another_file_is_spared(h0, fw, writes[k].file.path, writes[k].symbols);
    }
}

proof fn batch_spares(h: Seq<StoreWrite>, writes: Seq<FileWriteView>, q: Seq<char>, v: Seq<SymbolView>)
    requires
        proper_writes(writes),
        exactly(replay(h), q, v),
        forall|k: int|
            0 <= k < writes.len() ==> (#[trigger] writes[k]).file.path != q && not_claimed(replay(h), writes[k], v),
    ensures
        exactly(replay(h + batch_writes(writes)), q, v),
        MemoryGraphStore::file_by_path_in(h + batch_writes(writes), q) == MemoryGraphStore::file_by_path_in(h, q),
    decreases writes.len(),
{
    if writes.len() == 0 {
        assert(h + batch_writes(writes) =~= h);
    } else {
        let rest = writes.drop_last();
        let fw = writes.last();
        assert(writes[writes.len() - 1] == fw);
        proper_rest(writes);
        assert forall|k: int| 0 <= k < rest.len() implies (#[trigger] rest[k]).file.path != q && not_claimed(
            replay(h),
            rest[k],
            v,
        ) by {
            assert(rest[k] == writes[k]);
        }
        batch_spares(h, rest, q, v);
        still_not_claimed(h, writes, v);
        let h0 = h + batch_writes(rest);
        assert(h0 + file_write_steps(fw) =~= h + batch_writes(writes));
        another_file_is_spared(h0, fw, q, v);
    }
}

/// The search for the symbols of one file.
pub open spec fn of_file(path: Seq<char>) -> SymbolQueryView {
    SymbolQueryView { name: None, kind: None, language: None, file: Some(path) }
}

/// The symbols of a file, as the graph lists them.
spec fn listed(g: Graph, path: Seq<char>) -> Seq<SymbolView> {
    keep(g.symbols, |s: SymbolView| symbol_passes(of_file(path), s))
}

proof fn listed_symbols(h: Seq<StoreWrite>, path: Seq<char>)
    ensures
        forall|s: SymbolView| #[trigger]
            listed(replay(h), path).contains(s) <==> replay(h).symbols.contains(s) && s.file_path == path,
        ascending::<IndexedSymbol>(listed(replay(h), path)),
        MemoryGraphStore::symbols_matching_in(h, of_file(path)).to_multiset() == listed(
            replay(h),
            path,
        ).to_multiset(),
        forall|s: SymbolView| #[trigger]
            MemoryGraphStore::symbols_matching_in(h, of_file(path)).contains(s) <==> listed(
                replay(h),
                path,
            ).contains(s),
{
    let g = replay(h);
    let p = |s: SymbolView| symbol_passes(of_file(path), s);
    replay_well_ordered(h);
    keep_members(g.symbols, p);
    keep_ascending::<IndexedSymbol>(g.symbols, p);
    stable_sort_keeps(keep(g.symbols, p), symbol_name_order());
}

/// Lists of the same elements, none of them twice, are the same up to order.
proof fn same_up_to_order(a: Seq<SymbolView>, b: Seq<SymbolView>)
    requires
        a.no_duplicates(),
        b.no_duplicates(),
        forall|s: SymbolView| #[trigger] a.contains(s) <==> b.contains(s),
    ensures
        a.to_multiset() == b.to_multiset(),
{
    broadcast use vstd::seq_lib::group_to_multiset_ensures;

    a.lemma_multiset_has_no_duplicates();
    b.lemma_multiset_has_no_duplicates();
    assert forall|s: SymbolView| a.to_multiset().count(s) == b.to_multiset().count(s) by {
        assert(a.contains(s) <==> a.to_multiset().count(s) > 0);
        assert(b.contains(s) <==> b.to_multiset().count(s) > 0);
    }
    assert(a.to_multiset() =~= b.to_multiset());
}

proof fn ascending_symbols_differ(a: Seq<SymbolView>)
    requires
        ascending::<IndexedSymbol>(a),
    ensures
        forall|i: int, j: int| 0 <= i < j < a.len() ==> (#[trigger] a[i]).id != (#[trigger] a[j]).id,
{
    assert forall|i: int, j: int| 0 <= i < j < a.len() implies (#[trigger] a[i]).id != (#[trigger] a[j]).id by {
        text_lt_irreflexive(a[i].id);
    }
}

/// Each file of a batch is read back as it was written, with exactly its symbols, up
/// to their order: those of an earlier version that are not among them are gone.
pub proof fn batch_is_read_back(h: Seq<StoreWrite>, writes: Seq<FileWriteView>, k: int)
    requires
        proper_writes(writes),
        no_shared_ids(replay(h), writes),
        0 <= k < writes.len(),
    ensures
        MemoryGraphStore::file_by_path_in(h + batch_writes(writes), writes[k].file.path) == Some(writes[k].file),
        MemoryGraphStore::symbols_matching_in(
            h + batch_writes(writes),
            of_file(writes[k].file.path),
        ).to_multiset() == writes[k].symbols.to_multiset(),
{
    let after = h + batch_writes(writes);
    let p = writes[k].file.path;
    let v = writes[k].symbols;
    batch_is_known(h, writes, k);
    listed_symbols(after, p);
    let l = listed(replay(after), p);
    ascending_symbols_differ(l);
    assert(proper_write(writes[k]));
    assert forall|s: SymbolView| #[trigger] l.contains(s) <==> v.contains(s) by {
        if v.contains(s) {
            assert(v[v.index_of(s)].file_path == p);
        }
        assert(replay(after).symbols.contains(s) && s.file_path == p <==> v.contains(s));
    }
    ids_tell_symbols_apart(l);
    ids_tell_symbols_apart(v);
    same_up_to_order(l, v);
}

proof fn ids_tell_symbols_apart(v: Seq<SymbolView>)
    requires
        forall|i: int, j: int| 0 <= i < j < v.len() ==> (#[trigger] v[i]).id != (#[trigger] v[j]).id,
    ensures
        v.no_duplicates(),
{
    assert forall|i: int, j: int| 0 <= i < v.len() && 0 <= j < v.len() && i != j implies v[i] != v[j] by {
        if i < j {
            assert(v[i].id != v[j].id);
        } else {
            assert(v[j].id != v[i].id);
        }
    }
}

/// A batch leaves a file that is not in it, and its symbols, as they were, as long as
/// none of their ids belongs to a file of the batch.
pub proof fn batch_leaves_other_files(h: Seq<StoreWrite>, writes: Seq<FileWriteView>, q: Seq<char>)
    requires
        proper_writes(writes),
        forall|k: int|
            0 <= k < writes.len() ==> (#[trigger] writes[k]).file.path != q && not_claimed(
                replay(h),
                writes[k],
                MemoryGraphStore::symbols_matching_in(h, of_file(q)),
            ),
    ensures
        MemoryGraphStore::file_by_path_in(h + batch_writes(writes), q) == MemoryGraphStore::file_by_path_in(h, q),
        MemoryGraphStore::symbols_matching_in(h + batch_writes(writes), of_file(q))
            == MemoryGraphStore::symbols_matching_in(h, of_file(q)),
{
    let after = h + batch_writes(writes);
    listed_symbols(h, q);
    listed_symbols(after, q);
    let v = listed(replay(h), q);
    let found = MemoryGraphStore::symbols_matching_in(h, of_file(q));
    assert forall|k: int| 0 <= k < writes.len() implies (#[trigger] writes[k]).file.path != q && not_claimed(
        replay(h),
        writes[k],
        v,
    ) by {
        assert forall|s: SymbolView| #[trigger] v.contains(s) implies !declares(
            replay(h),
            file_id_of(writes[k].file.path),
            s.id,
        ) && !has_id(writes[k].symbols, s.id) by {
            assert(found.contains(s));
        }
    }
    batch_spares(h, writes, q, v);
    let l = listed(replay(after), q);
    assert forall|s: SymbolView| #[trigger] l.contains(s) <==> v.contains(s) by {
        assert(l.contains(s) <==> replay(after).symbols.contains(s) && s.file_path == q);
        assert(v.contains(s) <==> replay(h).symbols.contains(s) && s.file_path == q);
    }
    ascending_unique::<IndexedSymbol>(l, v);
}

// --- where ids start with the path of their file ---------------------------------------------------
/// Every file declares only symbols whose ids start with its path.
pub open spec fn at_home(g: Graph) -> bool {
    forall|e: EdgeView, q: Seq<char>|
        #![trigger g.file_symbols.contains(e), file_id_of(q)]
        g.file_symbols.contains(e) && e.from == file_id_of(q) ==> symbol_prefix(q).is_prefix_of(e.to)
}

/// The ids of the symbols start with the path `p`.
pub open spec fn prefixed(p: Seq<char>, v: Seq<SymbolView>) -> bool {
    forall|s: SymbolView| #[trigger] v.contains(s) ==> symbol_prefix(p).is_prefix_of(s.id)
}

/// No symbol id starts as the ids of both files do. Different paths are apart
/// unless one of them is the other with a `#` and more behind it.
pub open spec fn apart(p: Seq<char>, q: Seq<char>) -> bool {
    p != q ==> !symbol_prefix(p).is_prefix_of(symbol_prefix(q)) && !symbol_prefix(q).is_prefix_of(symbol_prefix(p))
}

/// Of two beginnings of a text, the shorter begins the longer.
proof fn beginnings(a: Seq<char>, b: Seq<char>, s: Seq<char>)
    requires
        a.is_prefix_of(s),
        b.is_prefix_of(s),
    ensures
        a.is_prefix_of(b) || b.is_prefix_of(a),
{
    if a.len() <= b.len() {
        assert(a =~= b.take(a.len() as int));
    } else {
        assert(b =~= a.take(b.len() as int));
    }
}

/// Where every file is at home, a file whose path is apart declares no symbol with an
/// id that starts with the path `p`.
pub proof fn apart_files_declare_apart(g: Graph, p: Seq<char>, v: Seq<SymbolView>, q: Seq<char>)
    requires
        at_home(g),
        prefixed(p, v),
        p != q,
        apart(p, q),
    ensures
        undeclared(g, q, v),
{
    assert forall|s: SymbolView| #[trigger] v.contains(s) implies !declares(g, file_id_of(q), s.id) by {
        let e = EdgeView { from: file_id_of(q), to: s.id };
        if g.file_symbols.contains(e) {
            assert(e.from == file_id_of(q));
            beginnings(symbol_prefix(p), symbol_prefix(q), s.id);
        }
    }
}

/// Files whose paths are apart share no symbol id, as long as ids start with the path
/// of their file.
pub proof fn apart_files_share_no_ids(g: Graph, writes: Seq<FileWriteView>)
    requires
        at_home(g),
        proper_writes(writes),
        forall|k: int| 0 <= k < writes.len() ==> prefixed((#[trigger] writes[k]).file.path, writes[k].symbols),
        forall|k: int, l: int|
            0 <= k < writes.len() && 0 <= l < writes.len() ==> apart(
                (#[trigger] writes[k]).file.path,
                (#[trigger] writes[l]).file.path,
            ),
    ensures
        no_shared_ids(g, writes),
{
    assert forall|k: int, l: int| 0 <= k < writes.len() && 0 <= l < writes.len() && k != l implies not_claimed(
        g,
        #[trigger] writes[l],
        (#[trigger] writes[k]).symbols,
    ) by {
        let p = writes[k].file.path;
        let q = writes[l].file.path;
        if k < l {
            assert(p != q);
        } else {
            assert(writes[l].file.path != writes[k].file.path);
        }
        assert(apart(writes[k].file.path, writes[l].file.path));
        assert(prefixed(p, writes[k].symbols) && prefixed(q, writes[l].symbols));
        apart_files_declare_apart(g, p, writes[k].symbols, q);
        assert forall|s: SymbolView| #[trigger] writes[k].symbols.contains(s) implies !has_id(
            writes[l].symbols,
            s.id,
        ) by {
            if has_id(writes[l].symbols, s.id) {
                let i = choose|i: int|
                    0 <= i < writes[l].symbols.len() && (#[trigger] writes[l].symbols[i]).id == s.id;
                assert(writes[l].symbols.contains(writes[l].symbols[i]));
                beginnings(symbol_prefix(p), symbol_prefix(q), s.id);
            }
        }
    }
}

pub proof fn removing_keeps_home(g: Graph, q: Seq<char>)
    requires
        at_home(g),
    ensures
        at_home(without_file(g, q)),
{
    keep_members(g.file_symbols, |e: EdgeView| e.from != file_id_of(q));
}

proof fn declaring_keeps_home(h: Seq<StoreWrite>, p: Seq<char>, v: Seq<SymbolView>)
    requires
        at_home(replay(h)),
        prefixed(p, v),
    ensures
        at_home(replay(h + declare_writes(file_id_of(p), v))),
    decreases v.len(),
{
    let fid = file_id_of(p);
    if v.len() == 0 {
        assert(h + declare_writes(fid, v) =~= h);
    } else {
        let rest = v.drop_last();
        let s = v.last();
        assert(v[v.len() - 1] == s);
        assert(v.contains(s));
        assert forall|x: SymbolView| #[trigger] rest.contains(x) implies symbol_prefix(p).is_prefix_of(x.id) by {
            assert(v[rest.index_of(x)] == x);
            assert(v.contains(x));
        }
        declaring_keeps_home(h, p, rest);
        declare_more(h, fid, v);
        let before = replay(h + declare_writes(fid, rest));
        let after = replay(h + declare_writes(fid, v));
        replay_well_ordered(h + declare_writes(fid, rest));
        let e = EdgeView { from: fid, to: s.id };
        upsert_ascending::<Edge>(before.file_symbols, e);
        assert forall|x: EdgeView, q: Seq<char>|
            #![trigger after.file_symbols.contains(x), file_id_of(q)]
            after.file_symbols.contains(x) && x.from == file_id_of(q) implies symbol_prefix(q).is_prefix_of(x.to) by {
            if x == e {
                file_id_injective(p, q);
            } else {
                assert(before.file_symbols.contains(x));
            }
        }
    }
}

/// A batch of files with ids that start with their paths keeps every file at home.
pub proof fn batch_keeps_home(h: Seq<StoreWrite>, writes: Seq<FileWriteView>)
    requires
        at_home(replay(h)),
        proper_writes(writes),
        forall|k: int| 0 <= k < writes.len() ==> prefixed((#[trigger] writes[k]).file.path, writes[k].symbols),
    ensures
        at_home(replay(h + batch_writes(writes))),
    decreases writes.len(),
{
    if writes.len() == 0 {
        assert(h + batch_writes(writes) =~= h);
    } else {
        let rest = writes.drop_last();
        let fw = writes.last();
        assert(writes[writes.len() - 1] == fw);
        proper_rest(writes);
        assert forall|k: int| 0 <= k < rest.len() implies prefixed(
            (#[trigger] rest[k]).file.path,
            rest[k].symbols,
        ) by {
            assert(rest[k] == writes[k]);
        }
        batch_keeps_home(h, rest);
        let h0 = h + batch_writes(rest);
        recorded_graph(h0, fw);
        removing_keeps_home(replay(h0), fw.file.path);
        declaring_keeps_home(file_recorded(h0, fw), fw.file.path, fw.symbols);
        assert(h0 + file_write_steps(fw) =~= h + batch_writes(writes));
    }
}

/// A graph that nothing was written to has every file at home.
pub proof fn new_graph_is_at_home()
    ensures
        at_home(replay(Seq::empty())),
{
}

} // verus!
