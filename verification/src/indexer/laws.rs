//! What holds of indexing runs on the in-memory store.

use crate::commands::status::stale;
use crate::graph::laws::{recorded_file_is_read_back, replay_well_ordered};
use crate::graph::memory_store::{replay, replay_push, EdgeView, Edge, MemoryGraphStore};
use crate::graph::model::{FileView, FileWriteView, SymbolQueryView, SymbolView};
use crate::graph::store::{batch_writes, declare_writes, file_write_steps, GraphStore, StoreWrite};
use crate::hashing::blake3_hex;
use crate::indexer::facts::{FileImportsView, FileReferencesView, FileSupertypesView, ReferenceView, SupertypeView};
use crate::indexer::ids::{file_id_injective, file_id_of, project_id_of};
use crate::indexer::index::{
    after_imports, after_index, after_nodes, all_work, contains_writes, gone, good_work, import_edges_of, imports_of,
    manifests_in, op_count, outcome_of, ref_edges_of, refs_of, removals, removed, skipped, some_fails, super_edges_of,
    supers_of, symbol_count, writes_of,
};
use crate::indexer::manifests::{manifest_writes, manifests_of, op_writes, owner, ManifestOpView, ManifestView};
use crate::indexer::resolve::{all_symbols, file_import_writes, names_in, super_writes, usage_writes};
use crate::indexer::work::{file_work, unchanged, FileWorkView, ParseView};
use crate::lists::{
    first, first_found, flat, keep, keep_members, made, nothing_picked, pick, picked_from, same_count, upsert_ascending,
    upsert_present,
};
use vstd::prelude::*;

verus! {

// --- what a sequence of writes says of one path ---------------------------------------------
/// What is known of the path `p` after one more write.
spec fn told(known: Option<FileView>, w: StoreWrite, p: Seq<char>) -> Option<FileView> {
    match w {
        StoreWrite::UpsertFile(f) => if f.path == p {
            Some(f)
        } else {
            known
        },
        StoreWrite::RemoveFile(q) => if q == p {
            None
        } else {
            known
        },
        _ => known,
    }
}

/// What is known of the path `p` after the writes `ws`.
spec fn told_all(known: Option<FileView>, ws: Seq<StoreWrite>, p: Seq<char>) -> Option<FileView>
    decreases ws.len(),
{
    if ws.len() == 0 {
        known
    } else {
        told(told_all(known, ws.drop_last(), p), ws.last(), p)
    }
}

proof fn told_after_add(known: Option<FileView>, a: Seq<StoreWrite>, b: Seq<StoreWrite>, p: Seq<char>)
    ensures
        told_all(known, a + b, p) == told_all(told_all(known, a, p), b, p),
    decreases b.len(),
{
    if b.len() == 0 {
        assert(a + b =~= a);
    } else {
        told_after_add(known, a, b.drop_last(), p);
        assert((a + b).drop_last() =~= a + b.drop_last());
    }
}

proof fn known_after_write(h: Seq<StoreWrite>, w: StoreWrite, p: Seq<char>)
    ensures
        MemoryGraphStore::file_by_path_in(h.push(w), p) == told(MemoryGraphStore::file_by_path_in(h, p), w, p),
{
    replay_push(h, w);
    match w {
        StoreWrite::UpsertFile(f) => {
            recorded_file_is_read_back(h, f, p);
        },
        StoreWrite::RemoveFile(q) => {
            first_kept(replay(h).files, q, p);
        },
        _ => {},
    }
}

/// What is known of one path, when another is dropped.
proof fn first_kept(files: Seq<FileView>, q: Seq<char>, p: Seq<char>)
    ensures
        first(crate::lists::keep(files, |f: FileView| f.path != q), |f: FileView| f.path == p) == (if p == q {
            None
        } else {
            first(files, |f: FileView| f.path == p)
        }),
    decreases files.len(),
{
    if files.len() > 0 {
        let rest = files.drop_last();
        first_kept(rest, q, p);
        let k = crate::lists::keep(rest, |f: FileView| f.path != q);
        assert(k.push(files.last()).drop_last() =~= k);
    }
}

proof fn known_after_writes(h: Seq<StoreWrite>, ws: Seq<StoreWrite>, p: Seq<char>)
    ensures
        MemoryGraphStore::file_by_path_in(h + ws, p) == told_all(MemoryGraphStore::file_by_path_in(h, p), ws, p),
    decreases ws.len(),
{
    if ws.len() == 0 {
        assert(h + ws =~= h);
    } else {
        known_after_writes(h, ws.drop_last(), p);
        known_after_write(h + ws.drop_last(), ws.last(), p);
        assert((h + ws.drop_last()).push(ws.last()) =~= h + ws);
    }
}

/// The writes neither record nor remove a file.
spec fn about_no_file(ws: Seq<StoreWrite>) -> bool {
    forall|i: int| 0 <= i < ws.len() ==> !((#[trigger] ws[i]) is UpsertFile) && !(ws[i] is RemoveFile)
}

proof fn nothing_told(known: Option<FileView>, ws: Seq<StoreWrite>, p: Seq<char>)
    requires
        about_no_file(ws),
    ensures
        told_all(known, ws, p) == known,
    decreases ws.len(),
{
    if ws.len() > 0 {
        let rest = ws.drop_last();
        assert forall|i: int| 0 <= i < rest.len() implies !((#[trigger] rest[i]) is UpsertFile) && !(rest[i]
            is RemoveFile) by {
            assert(rest[i] == ws[i]);
        }
        nothing_told(known, rest, p);
        assert(ws[ws.len() - 1] == ws.last());
    }
}

/// The writes neither record nor remove a file, and are about no symbol either.
pub open spec fn only_links(ws: Seq<StoreWrite>) -> bool {
    forall|i: int|
        0 <= i < ws.len() ==> !((#[trigger] ws[i]) is UpsertFile) && !(ws[i] is RemoveFile) && !(ws[i] is UpsertSymbol)
            && !(ws[i] is Declares)
}

proof fn links_are_about_no_file(ws: Seq<StoreWrite>)
    requires
        only_links(ws),
    ensures
        about_no_file(ws),
{
}

proof fn sum_only_links(a: Seq<StoreWrite>, b: Seq<StoreWrite>)
    requires
        only_links(a),
        only_links(b),
    ensures
        only_links(a + b),
{
    let ws = a + b;
    assert forall|i: int| 0 <= i < ws.len() implies !((#[trigger] ws[i]) is UpsertFile) && !(ws[i] is RemoveFile) && !(
    ws[i] is UpsertSymbol) && !(ws[i] is Declares) by {
        if i < a.len() {
            assert(ws[i] == a[i]);
        } else {
            assert(ws[i] == b[i - a.len()]);
        }
    }
}

proof fn flat_only_links<T>(s: Seq<T>, f: spec_fn(T) -> Seq<StoreWrite>)
    requires
        forall|x: T| only_links(#[trigger] f(x)),
    ensures
        only_links(flat(s, f)),
    decreases s.len(),
{
    if s.len() > 0 {
        flat_only_links(s.drop_last(), f);
        sum_only_links(flat(s.drop_last(), f), f(s.last()));
    }
}

pub proof fn manifests_only_link(ms: Seq<ManifestView>)
    ensures
        only_links(flat(ms, |m: ManifestView| manifest_writes(m))),
{
    let each = |m: ManifestView| manifest_writes(m);
    assert forall|m: ManifestView| only_links(#[trigger] each(m)) by {
        let op = |op: ManifestOpView| op_writes(m.project.id, op);
        assert forall|o: ManifestOpView| only_links(#[trigger] op(o)) by {}
        flat_only_links(m.ops, op);
        sum_only_links(seq![StoreWrite::UpsertProject(m.project)], flat(m.ops, op));
    }
    flat_only_links(ms, each);
}

pub proof fn edges_only_link(h: Seq<StoreWrite>, parsed: Seq<FileWorkView>, candidates: Seq<Seq<char>>)
    ensures
        only_links(import_edges_of::<MemoryGraphStore>(h, parsed)),
        only_links(super_edges_of::<MemoryGraphStore>(h, parsed)),
        only_links(ref_edges_of::<MemoryGraphStore>(h, parsed)),
        only_links(contains_writes(candidates)),
{
    let packages = MemoryGraphStore::all_packages_in(after_nodes(h, parsed));
    let npm = names_in(packages, "npm"@);
    let nuget = names_in(packages, "nuget"@);
    let all = all_symbols::<MemoryGraphStore>(after_imports::<MemoryGraphStore>(h, parsed));
    let imports = |f: FileImportsView| file_import_writes(npm, nuget, f);
    assert forall|f: FileImportsView| only_links(#[trigger] imports(f)) by {}
    flat_only_links(imports_of(parsed), imports);
    let supers = |f: FileSupertypesView| flat(f.supers, |st: SupertypeView| super_writes(all, f.file, st));
    assert forall|f: FileSupertypesView| only_links(#[trigger] supers(f)) by {
        let each = |st: SupertypeView| super_writes(all, f.file, st);
        assert forall|st: SupertypeView| only_links(#[trigger] each(st)) by {}
        flat_only_links(f.supers, each);
    }
    flat_only_links(supers_of(parsed), supers);
    let refs = |f: FileReferencesView| flat(f.refs, |r: ReferenceView| usage_writes(all, f.file, r));
    assert forall|f: FileReferencesView| only_links(#[trigger] refs(f)) by {
        let each = |r: ReferenceView| usage_writes(all, f.file, r);
        assert forall|r: ReferenceView| only_links(#[trigger] each(r)) by {}
        flat_only_links(f.refs, each);
    }
    flat_only_links(refs_of(parsed), refs);
    membership(candidates);
}

/// Every membership edge leads to a candidate.
proof fn membership(candidates: Seq<Seq<char>>)
    ensures
        forall|i: int|
            0 <= i < contains_writes(candidates).len() ==> ((#[trigger] contains_writes(candidates)[i]) matches
                StoreWrite::ContainsFile(_, to) && exists|rel: Seq<char>| #[trigger]
                candidates.contains(rel) && to == file_id_of(rel)),
{
    let f = |rel: Seq<char>|
        match owner(rel, manifests_of(candidates)) {
            Some(m) => Some(StoreWrite::ContainsFile(project_id_of(m), file_id_of(rel))),
            None => None,
        };
    picked_from(candidates, f);
    let ws = contains_writes(candidates);
    assert forall|i: int| 0 <= i < ws.len() implies ((#[trigger] ws[i]) matches StoreWrite::ContainsFile(_, to)
        && exists|rel: Seq<char>| #[trigger] candidates.contains(rel) && to == file_id_of(rel)) by {
        assert(made(candidates, f, pick(candidates, f)[i]));
        let rel = choose|rel: Seq<char>| #[trigger] candidates.contains(rel) && f(rel) == Some(ws[i]);
        assert(candidates.contains(rel));
    }
}

/// The file that a batch records at `p`.
spec fn written(writes: Seq<FileWriteView>, p: Seq<char>) -> Option<FileView>
    decreases writes.len(),
{
    if writes.len() == 0 {
        None
    } else if writes.last().file.path == p {
        Some(writes.last().file)
    } else {
        written(writes.drop_last(), p)
    }
}

proof fn declares_about_no_file(file_id: Seq<char>, symbols: Seq<SymbolView>)
    ensures
        about_no_file(declare_writes(file_id, symbols)),
    decreases symbols.len(),
{
    if symbols.len() > 0 {
        declares_about_no_file(file_id, symbols.drop_last());
    }
}

proof fn batch_tells(known: Option<FileView>, writes: Seq<FileWriteView>, p: Seq<char>)
    ensures
        told_all(known, batch_writes(writes), p) == (match written(writes, p) {
            Some(f) => Some(f),
            None => known,
        }),
    decreases writes.len(),
{
    if writes.len() > 0 {
        let rest = writes.drop_last();
        let fw = writes.last();
        batch_tells(known, rest, p);
        let before = told_all(known, batch_writes(rest), p);
        told_after_add(known, batch_writes(rest), file_write_steps(fw), p);
        let head = seq![StoreWrite::RemoveFile(fw.file.path), StoreWrite::UpsertFile(fw.file)];
        let tail = declare_writes(fw.file.id, fw.symbols);
        told_after_add(before, head, tail, p);
        declares_about_no_file(fw.file.id, fw.symbols);
        nothing_told(told_all(before, head, p), tail, p);
        let one = seq![StoreWrite::RemoveFile(fw.file.path)];
        assert(head.drop_last() =~= one);
        assert(one.drop_last() =~= Seq::<StoreWrite>::empty());
        assert(told_all(before, one.drop_last(), p) == before);
        assert(told_all(before, one, p) == told(before, StoreWrite::RemoveFile(fw.file.path), p));
    }
}

proof fn removals_tell(known: Option<FileView>, paths: Seq<Seq<char>>, p: Seq<char>)
    ensures
        told_all(known, removals(paths), p) == (if paths.contains(p) {
            None
        } else {
            known
        }),
    decreases paths.len(),
{
    if paths.len() > 0 {
        let rest = paths.drop_last();
        removals_tell(known, rest, p);
        assert(removals(paths).drop_last() =~= removals(rest));
        assert(paths[paths.len() - 1] == paths.last());
        if rest.contains(p) {
            let i = rest.index_of(p);
            assert(paths[i] == p);
        }
        if paths.contains(p) && p != paths.last() {
            let i = paths.index_of(p);
            assert(rest[i] == p);
        }
    }
}

/// What a run leaves known of a path: nothing if the path was removed, what the
/// run recorded there if it recorded something, else what was known before.
proof fn known_after_run(
    h: Seq<StoreWrite>,
    candidates: Seq<Seq<char>>,
    existing: Seq<FileView>,
    parsed: Seq<FileWorkView>,
    changed_only: bool,
    p: Seq<char>,
)
    ensures
        MemoryGraphStore::file_by_path_in(
            after_index::<MemoryGraphStore>(h, candidates, existing, parsed, changed_only),
            p,
        ) == (if removed(candidates, existing, changed_only).contains(p) {
            None
        } else {
            match written(writes_of(parsed), p) {
                Some(f) => Some(f),
                None => MemoryGraphStore::file_by_path_in(h, p),
            }
        }),
{
    let known = MemoryGraphStore::file_by_path_in(h, p);
    let batch = batch_writes(writes_of(parsed));
    let manifests = flat(manifests_in(parsed), |m: ManifestView| manifest_writes(m));
    let imports = import_edges_of::<MemoryGraphStore>(h, parsed);
    let supers = super_edges_of::<MemoryGraphStore>(h, parsed);
    let refs = ref_edges_of::<MemoryGraphStore>(h, parsed);
    let members = contains_writes(candidates);
    let gone = removals(removed(candidates, existing, changed_only));
    let recorded = told_all(known, batch, p);
    manifests_only_link(manifests_in(parsed));
    edges_only_link(h, parsed, candidates);
    links_are_about_no_file(manifests);
    links_are_about_no_file(imports);
    links_are_about_no_file(supers);
    links_are_about_no_file(refs);
    links_are_about_no_file(members);
    batch_tells(known, writes_of(parsed), p);
    let h1 = h + batch;
    let h2 = h1 + manifests;
    let h3 = h2 + imports;
    let h4 = h3 + supers;
    let h5 = h4 + refs;
    let h6 = h5 + members;
    known_after_writes(h, batch, p);
    known_after_writes(h1, manifests, p);
    nothing_told(recorded, manifests, p);
    known_after_writes(h2, imports, p);
    nothing_told(recorded, imports, p);
    known_after_writes(h3, supers, p);
    nothing_told(recorded, supers, p);
    known_after_writes(h4, refs, p);
    nothing_told(recorded, refs, p);
    known_after_writes(h5, members, p);
    nothing_told(recorded, members, p);
    known_after_writes(h6, gone, p);
    removals_tell(recorded, removed(candidates, existing, changed_only), p);
}

/// A file that a run records stands at its candidate's path.
proof fn written_is_a_candidate(parsed: Seq<FileWorkView>, candidates: Seq<Seq<char>>, p: Seq<char>)
    requires
        parsed.len() == candidates.len(),
        forall|i: int|
            0 <= i < parsed.len() ==> ((#[trigger] parsed[i]) matches FileWorkView::Indexed(x) ==> x.file.path
                == candidates[i]),
        candidates.no_duplicates(),
    ensures
        written(writes_of(parsed), p) is Some ==> candidates.contains(p),
        forall|i: int|
            0 <= i < candidates.len() && #[trigger] candidates[i] == p ==> written(writes_of(parsed), p) == (
            match parsed[i] {
                FileWorkView::Indexed(x) => Some(x.file),
                _ => None,
            }),
    decreases parsed.len(),
{
    if parsed.len() > 0 {
        let rest = parsed.drop_last();
        let cands = candidates.drop_last();
        let n = parsed.len() - 1;
        assert forall|i: int| 0 <= i < rest.len() implies ((#[trigger] rest[i]) matches FileWorkView::Indexed(x)
            ==> x.file.path == cands[i]) by {
            assert(rest[i] == parsed[i]);
        }
        assert forall|i: int, j: int| 0 <= i < cands.len() && 0 <= j < cands.len() && i != j implies cands[i]
            != cands[j] by {
            assert(candidates[i] != candidates[j]);
        }
        written_is_a_candidate(rest, cands, p);
        if cands.contains(p) {
            let i = cands.index_of(p);
            assert(candidates[i] == p);
        }
        let before = writes_of(rest);
        assert(parsed[n] == parsed.last());
        match parsed.last() {
            FileWorkView::Indexed(x) => {
                let fw = FileWriteView { file: x.file, symbols: x.symbols };
                assert(writes_of(parsed) == before.push(fw));
                assert(before.push(fw).drop_last() =~= before);
                assert(x.file.path == candidates[n]);
            },
            _ => {
                assert(writes_of(parsed) == before);
            },
        }
        assert forall|i: int| 0 <= i < candidates.len() && #[trigger] candidates[i] == p implies written(
            writes_of(parsed),
            p,
        ) == (match parsed[i] {
            FileWorkView::Indexed(x) => Some(x.file),
            _ => None,
        }) by {
            if i < n {
                assert(cands[i] == p);
                assert(parsed[i] == rest[i]);
                assert(candidates[n] != p);
            } else {
                if cands.contains(p) {
                    let j = cands.index_of(p);
                    assert(candidates[j] == candidates[i]);
                }
                assert(written(before, p) is None);
            }
        }
    } else {
        assert(writes_of(parsed) =~= Seq::<FileWriteView>::empty());
    }
}

/// The bytes of a candidate, where it could be read.
pub open spec fn content_at(contents: Seq<Option<Vec<u8>>>, i: int) -> Option<Seq<u8>> {
    match contents[i] {
        Some(b) => Some(b@),
        None => None,
    }
}

/// The history after a run of `index_repo`.
pub open spec fn after_run(
    h: Seq<StoreWrite>,
    ctx: ParseView,
    candidates: Seq<Seq<char>>,
    contents: Seq<Option<Vec<u8>>>,
) -> Seq<StoreWrite> {
    after_index::<MemoryGraphStore>(
        h,
        candidates,
        ctx.existing,
        good_work(all_work(ctx, candidates, contents)),
        ctx.changed_only,
    )
}

/// An unchanged file is skipped, unless the run is forced: nothing is parsed, and
/// nothing of it can fail.
pub proof fn unchanged_file_is_skipped(ctx: ParseView, rel: Seq<char>, bytes: Seq<u8>, prev: FileView)
    requires
        !ctx.force,
        first(ctx.existing, |f: FileView| f.path == rel) == Some(prev),
        prev.hash == blake3_hex(bytes),
    ensures
        file_work(ctx, rel, Some(bytes)) == Ok::<FileWorkView, Seq<char>>(FileWorkView::SkipCounted),
{
}

/// After a run, the graph knows of every candidate what the run parsed of it: the
/// file with the hash of its content. What it knew of a skipped one stays.
pub proof fn indexed_file_is_known(
    h: Seq<StoreWrite>,
    ctx: ParseView,
    candidates: Seq<Seq<char>>,
    contents: Seq<Option<Vec<u8>>>,
    i: int,
)
    requires
        contents.len() == candidates.len(),
        candidates.no_duplicates(),
        !some_fails(all_work(ctx, candidates, contents)),
        0 <= i < candidates.len(),
    ensures
        MemoryGraphStore::file_by_path_in(after_run(h, ctx, candidates, contents), candidates[i]) == (match file_work(
            ctx,
            candidates[i],
            content_at(contents, i),
        ) {
            Ok(FileWorkView::Indexed(x)) => Some(x.file),
            _ => MemoryGraphStore::file_by_path_in(h, candidates[i]),
        }),
{
    let work = all_work(ctx, candidates, contents);
    let parsed = good_work(work);
    let p = candidates[i];
    parsed_paths(ctx, candidates, contents);
    known_after_run(h, candidates, ctx.existing, parsed, ctx.changed_only, p);
    written_is_a_candidate(parsed, candidates, p);
    assert(candidates.contains(p));
    gone_paths(ctx.existing, candidates);
    assert(work[i] is Ok);
    assert(parsed[i] == work[i]->Ok_0);
    let stays = written(writes_of(parsed), p);
    assert(candidates[i] == p);
}

pub proof fn parsed_paths(ctx: ParseView, candidates: Seq<Seq<char>>, contents: Seq<Option<Vec<u8>>>)
    requires
        contents.len() == candidates.len(),
        !some_fails(all_work(ctx, candidates, contents)),
    ensures
        good_work(all_work(ctx, candidates, contents)).len() == candidates.len(),
        forall|i: int|
            0 <= i < candidates.len() ==> ((#[trigger] good_work(all_work(ctx, candidates, contents))[i]) matches
                FileWorkView::Indexed(x) ==> x.file.path == candidates[i]),
        forall|i: int|
            0 <= i < candidates.len() ==> (#[trigger] good_work(all_work(ctx, candidates, contents))[i]) == file_work(
                ctx,
                candidates[i],
                content_at(contents, i),
            )->Ok_0 && file_work(ctx, candidates[i], content_at(contents, i)) is Ok,
{
    let work = all_work(ctx, candidates, contents);
    let parsed = good_work(work);
    assert forall|i: int| 0 <= i < candidates.len() implies (#[trigger] parsed[i]) == file_work(
        ctx,
        candidates[i],
        content_at(contents, i),
    )->Ok_0 && file_work(ctx, candidates[i], content_at(contents, i)) is Ok && (parsed[i] matches FileWorkView::Indexed(
        x,
    ) ==> x.file.path == candidates[i]) by {
        assert(work[i] is Ok);
    }
}

/// A file is known at the path `p`.
pub open spec fn stands_at(files: Seq<FileView>, p: Seq<char>) -> bool {
    exists|f: FileView| #[trigger] files.contains(f) && f.path == p
}

/// A file is gone exactly when it is known and no candidate.
pub proof fn gone_paths(existing: Seq<FileView>, candidates: Seq<Seq<char>>)
    ensures
        forall|p: Seq<char>| #[trigger]
            gone(existing, candidates).contains(p) <==> !candidates.contains(p) && stands_at(existing, p),
    decreases existing.len(),
{
    if existing.len() > 0 {
        let rest = existing.drop_last();
        gone_paths(rest, candidates);
        let g = gone(rest, candidates);
        let last = existing.last();
        assert(existing[existing.len() - 1] == last);
        assert(existing.contains(last));
        let more = g.push(last.path);
        assert(more[g.len() as int] == last.path);
        assert forall|p: Seq<char>| #[trigger] gone(existing, candidates).contains(p) <==> !candidates.contains(p)
            && stands_at(existing, p) by {
            assert(g.contains(p) <==> !candidates.contains(p) && stands_at(rest, p));
            assert(more.contains(p) <==> g.contains(p) || p == last.path) by {
                if g.contains(p) {
                    let j = g.index_of(p);
                    assert(more[j] == p);
                }
                if more.contains(p) && p != last.path {
                    let j = more.index_of(p);
                    assert(g[j] == p);
                }
            }
            assert(stands_at(existing, p) <==> stands_at(rest, p) || p == last.path) by {
                if stands_at(rest, p) {
                    let f = choose|f: FileView| #[trigger] rest.contains(f) && f.path == p;
                    let j = rest.index_of(f);
                    assert(existing[j] == f);
                    assert(existing.contains(f));
                }
                if stands_at(existing, p) && p != last.path {
                    let f = choose|f: FileView| #[trigger] existing.contains(f) && f.path == p;
                    let j = existing.index_of(f);
                    assert(rest[j] == f);
                    assert(rest.contains(f));
                }
            }
        }
    }
}

/// After a full run, the graph knows nothing of a path that is no candidate.
pub proof fn deleted_file_is_forgotten(
    h: Seq<StoreWrite>,
    ctx: ParseView,
    candidates: Seq<Seq<char>>,
    contents: Seq<Option<Vec<u8>>>,
    p: Seq<char>,
)
    requires
        contents.len() == candidates.len(),
        candidates.no_duplicates(),
        !some_fails(all_work(ctx, candidates, contents)),
        ctx.existing == MemoryGraphStore::all_files_in(h),
        !ctx.changed_only,
        !candidates.contains(p),
    ensures
        MemoryGraphStore::file_by_path_in(after_run(h, ctx, candidates, contents), p) is None,
{
    let parsed = good_work(all_work(ctx, candidates, contents));
    let existing = ctx.existing;
    parsed_paths(ctx, candidates, contents);
    known_after_run(h, candidates, existing, parsed, false, p);
    written_is_a_candidate(parsed, candidates, p);
    gone_paths(existing, candidates);
    first_found(replay(h).files, |f: FileView| f.path == p);
}

/// A run on changed files only forgets no file.
pub proof fn changed_run_removes_nothing(
    h: Seq<StoreWrite>,
    ctx: ParseView,
    candidates: Seq<Seq<char>>,
    contents: Seq<Option<Vec<u8>>>,
    p: Seq<char>,
)
    requires
        ctx.changed_only,
        MemoryGraphStore::file_by_path_in(h, p) is Some,
    ensures
        MemoryGraphStore::file_by_path_in(after_run(h, ctx, candidates, contents), p) is Some,
{
    known_after_run(h, candidates, ctx.existing, good_work(all_work(ctx, candidates, contents)), true, p);
}

/// Once a full run is through, no candidate that could be read is stale.
pub proof fn nothing_is_stale_after_a_run(
    h: Seq<StoreWrite>,
    ctx: ParseView,
    candidates: Seq<Seq<char>>,
    contents: Seq<Option<Vec<u8>>>,
    i: int,
)
    requires
        contents.len() == candidates.len(),
        candidates.no_duplicates(),
        !some_fails(all_work(ctx, candidates, contents)),
        ctx.existing == MemoryGraphStore::all_files_in(h),
        !ctx.changed_only,
        0 <= i < candidates.len(),
        contents[i] is Some,
    ensures
        !stale(
            MemoryGraphStore::all_files_in(after_run(h, ctx, candidates, contents)),
            candidates[i],
            content_at(contents, i),
        ),
{
    let rel = candidates[i];
    let h1 = after_run(h, ctx, candidates, contents);
    indexed_file_is_known(h, ctx, candidates, contents, i);
    assert(all_work(ctx, candidates, contents)[i] is Ok);
    assert(first(MemoryGraphStore::all_files_in(h1), |f: FileView| f.path == rel)
        == MemoryGraphStore::file_by_path_in(h1, rel));
    assert(first(ctx.existing, |f: FileView| f.path == rel) == MemoryGraphStore::file_by_path_in(h, rel));
}

// --- indexing again --------------------------------------------------------------------------
/// A write of an edge that is there already.
proof fn known_member_changes_nothing(h: Seq<StoreWrite>, w: StoreWrite)
    requires
        w matches StoreWrite::ContainsFile(from, to) && replay(h).project_files.contains(EdgeView { from, to }),
    ensures
        replay(h.push(w)) == replay(h),
{
    replay_push(h, w);
    replay_well_ordered(h);
    if let StoreWrite::ContainsFile(from, to) = w {
        upsert_present::<Edge>(replay(h).project_files, EdgeView { from, to });
    }
}

spec fn members_known(h: Seq<StoreWrite>, ws: Seq<StoreWrite>) -> bool {
    forall|i: int|
        0 <= i < ws.len() ==> ((#[trigger] ws[i]) matches StoreWrite::ContainsFile(from, to) && replay(
            h,
        ).project_files.contains(EdgeView { from, to }))
}

proof fn known_members_change_nothing(h: Seq<StoreWrite>, ws: Seq<StoreWrite>)
    requires
        members_known(h, ws),
    ensures
        replay(h + ws) == replay(h),
    decreases ws.len(),
{
    if ws.len() == 0 {
        assert(h + ws =~= h);
    } else {
        let rest = ws.drop_last();
        assert forall|i: int| 0 <= i < rest.len() implies ((#[trigger] rest[i]) matches StoreWrite::ContainsFile(
            from,
            to,
        ) && replay(h).project_files.contains(EdgeView { from, to })) by {
            assert(rest[i] == ws[i]);
        }
        known_members_change_nothing(h, rest);
        assert(ws[ws.len() - 1] == ws.last());
        known_member_changes_nothing(h + rest, ws.last());
        assert((h + rest).push(ws.last()) =~= h + ws);
    }
}

/// Edges are known once they are written.
proof fn written_members_are_known(h: Seq<StoreWrite>, ws: Seq<StoreWrite>)
    requires
        forall|i: int| 0 <= i < ws.len() ==> (#[trigger] ws[i]) is ContainsFile,
    ensures
        members_known(h + ws, ws),
    decreases ws.len(),
{
    if ws.len() > 0 {
        let rest = ws.drop_last();
        assert forall|i: int| 0 <= i < rest.len() implies (#[trigger] rest[i]) is ContainsFile by {
            assert(rest[i] == ws[i]);
        }
        written_members_are_known(h, rest);
        let w = ws.last();
        assert(ws[ws.len() - 1] == w);
        assert((h + rest).push(w) =~= h + ws);
        replay_push(h + rest, w);
        replay_well_ordered(h + rest);
        if let StoreWrite::ContainsFile(a, b) = w {
            upsert_ascending::<Edge>(replay(h + rest).project_files, EdgeView { from: a, to: b });
        }
        assert forall|i: int| 0 <= i < ws.len() implies ((#[trigger] ws[i]) matches StoreWrite::ContainsFile(from, to)
            && replay(h + ws).project_files.contains(EdgeView { from, to })) by {
            if i < rest.len() {
                assert(rest[i] == ws[i]);
            }
        }
    }
}

/// Removing files that no edge leads to leaves the edges.
proof fn members_outlive_removals(h: Seq<StoreWrite>, ws: Seq<StoreWrite>, paths: Seq<Seq<char>>)
    requires
        members_known(h, ws),
        forall|i: int, j: int|
            0 <= i < ws.len() && 0 <= j < paths.len() ==> ((#[trigger] ws[i]) matches StoreWrite::ContainsFile(_, to)
                && to != file_id_of(#[trigger] paths[j])),
    ensures
        members_known(h + removals(paths), ws),
    decreases paths.len(),
{
    if paths.len() == 0 {
        assert(h + removals(paths) =~= h);
    } else {
        let rest = paths.drop_last();
        let p = paths.last();
        assert(paths[paths.len() - 1] == p);
        assert forall|i: int, j: int| 0 <= i < ws.len() && 0 <= j < rest.len() implies ((#[trigger] ws[i]) matches
            StoreWrite::ContainsFile(_, to) && to != file_id_of(#[trigger] rest[j])) by {
            assert(rest[j] == paths[j]);
        }
        members_outlive_removals(h, ws, rest);
        let before = h + removals(rest);
        assert(before.push(StoreWrite::RemoveFile(p)) =~= h + removals(paths));
        replay_push(before, StoreWrite::RemoveFile(p));
        keep_members(replay(before).project_files, |e: EdgeView| e.to != file_id_of(p));
        assert forall|i: int| 0 <= i < ws.len() implies ((#[trigger] ws[i]) matches StoreWrite::ContainsFile(from, to)
            && replay(h + removals(paths)).project_files.contains(EdgeView { from, to })) by {
            assert(paths[paths.len() - 1] == p);
        }
    }
}

/// A run in which every file is skipped parses nothing that could be written.
proof fn skipped_run_writes_nothing(h: Seq<StoreWrite>, parsed: Seq<FileWorkView>)
    requires
        forall|i: int| 0 <= i < parsed.len() ==> !((#[trigger] parsed[i]) is Indexed),
    ensures
        writes_of(parsed).len() == 0,
        manifests_in(parsed).len() == 0,
        after_imports::<MemoryGraphStore>(h, parsed) == h,
        import_edges_of::<MemoryGraphStore>(h, parsed).len() == 0,
        super_edges_of::<MemoryGraphStore>(h, parsed).len() == 0,
        ref_edges_of::<MemoryGraphStore>(h, parsed).len() == 0,
{
    nothing_picked(
        parsed,
        |w: FileWorkView|
            match w {
                FileWorkView::Indexed(x) => Some(FileWriteView { file: x.file, symbols: x.symbols }),
                _ => None,
            },
    );
    nothing_picked(
        parsed,
        |w: FileWorkView|
            match w {
                FileWorkView::Indexed(x) => if x.imports.len() > 0 {
                    Some(FileImportsView { file_id: x.file.id, imports: x.imports, language: x.file.language })
                } else {
                    None
                },
                _ => None,
            },
    );
    nothing_picked(
        parsed,
        |w: FileWorkView|
            match w {
                FileWorkView::Indexed(x) => if x.supers.len() > 0 {
                    Some(FileSupertypesView { file: x.file.path, supers: x.supers })
                } else {
                    None
                },
                _ => None,
            },
    );
    nothing_picked(
        parsed,
        |w: FileWorkView|
            match w {
                FileWorkView::Indexed(x) => if x.references.len() > 0 {
                    Some(FileReferencesView { file: x.file.path, refs: x.references })
                } else {
                    None
                },
                _ => None,
            },
    );
    nothing_picked(
        parsed,
        |w: FileWorkView|
            match w {
                FileWorkView::Indexed(x) => x.manifest,
                _ => None,
            },
    );
    assert(writes_of(parsed).len() == 0);
    assert(imports_of(parsed).len() == 0);
    assert(supers_of(parsed).len() == 0);
    assert(refs_of(parsed).len() == 0);
    assert(manifests_in(parsed).len() == 0);
    assert(after_nodes(h, parsed) =~= h);
    assert(after_imports::<MemoryGraphStore>(h, parsed) =~= h);
}

/// How many candidates could be read.
pub open spec fn readable(contents: Seq<Option<Vec<u8>>>) -> nat {
    keep(contents, |c: Option<Vec<u8>>| c is Some).len()
}

/// Indexing again, with nothing changed on disk, changes nothing in the graph, so
/// that every query answers as before; every readable file is counted as skipped,
/// nothing is removed and nothing can fail.
pub proof fn indexing_again_changes_nothing(
    h: Seq<StoreWrite>,
    ctx: ParseView,
    again: ParseView,
    candidates: Seq<Seq<char>>,
    contents: Seq<Option<Vec<u8>>>,
)
    requires
        contents.len() == candidates.len(),
        candidates.no_duplicates(),
        !some_fails(all_work(ctx, candidates, contents)),
        ctx.existing == MemoryGraphStore::all_files_in(h),
        !ctx.changed_only,
        again.existing == MemoryGraphStore::all_files_in(after_run(h, ctx, candidates, contents)),
        !again.changed_only,
        !again.force,
    ensures
        !some_fails(all_work(again, candidates, contents)),
        ({
            let first_run = after_run(h, ctx, candidates, contents);
            let outcome = outcome_of::<MemoryGraphStore>(
                first_run,
                candidates,
                again.existing,
                good_work(all_work(again, candidates, contents)),
                false,
            );
            let second_run = after_run(first_run, again, candidates, contents);
            &&& replay(second_run) == replay(first_run)
            &&& MemoryGraphStore::all_files_in(second_run) == MemoryGraphStore::all_files_in(first_run)
            &&& forall|q: SymbolQueryView| #[trigger]
                MemoryGraphStore::symbols_matching_in(second_run, q) == MemoryGraphStore::symbols_matching_in(first_run, q)
            &&& MemoryGraphStore::all_projects_in(second_run) == MemoryGraphStore::all_projects_in(first_run)
            &&& MemoryGraphStore::all_packages_in(second_run) == MemoryGraphStore::all_packages_in(first_run)
            &&& MemoryGraphStore::stats_in(second_run) == MemoryGraphStore::stats_in(first_run)
            &&& outcome.files_indexed == 0
            &&& contents.len() <= usize::MAX ==> outcome.files_skipped_unchanged == readable(contents)
            &&& outcome.files_removed == 0
            &&& outcome.symbols == 0
            &&& outcome.edges == 0
        }),
{
    let h1 = after_run(h, ctx, candidates, contents);
    let existing = ctx.existing;
    let known = again.existing;
    let parsed1 = good_work(all_work(ctx, candidates, contents));
    let work2 = all_work(again, candidates, contents);
    let parsed2 = good_work(work2);
    // Every readable file is unchanged.
    assert forall|i: int| 0 <= i < candidates.len() implies (#[trigger] work2[i]) is Ok && !(work2[i]->Ok_0
        is Indexed) by {
        let rel = candidates[i];
        indexed_file_is_known(h, ctx, candidates, contents, i);
        match content_at(contents, i) {
            Some(b) => {
                assert(all_work(ctx, candidates, contents)[i] is Ok);
                let was = file_work(ctx, rel, Some(b));
                assert(first(known, |f: FileView| f.path == rel) == MemoryGraphStore::file_by_path_in(h1, rel));
                assert(first(existing, |f: FileView| f.path == rel) == MemoryGraphStore::file_by_path_in(h, rel));
                assert(unchanged(again, rel, b));
            },
            None => {},
        }
    }
    assert(!some_fails(work2));
    assert forall|i: int| 0 <= i < parsed2.len() implies !((#[trigger] parsed2[i]) is Indexed) by {
        assert(work2[i] is Ok);
    }
    skipped_run_writes_nothing(h1, parsed2);
    // Every known file is a candidate.
    assert(gone(known, candidates) =~= Seq::<Seq<char>>::empty()) by {
        gone_paths(known, candidates);
        if gone(known, candidates).len() > 0 {
            let p = gone(known, candidates)[0];
            assert(gone(known, candidates).contains(p));
            let f = choose|f: FileView| #[trigger] known.contains(f) && f.path == p;
            deleted_file_is_forgotten(h, ctx, candidates, contents, p);
            first_found(known, |f: FileView| f.path == p);
            let i = known.index_of(f);
            assert(known[i].path == p);
        }
    }
    // Every membership edge is there already.
    let members = contains_writes(candidates);
    let lost = removed(candidates, existing, false);
    let linked = after_imports::<MemoryGraphStore>(h, parsed1) + super_edges_of::<MemoryGraphStore>(h, parsed1)
        + ref_edges_of::<MemoryGraphStore>(h, parsed1);
    membership(candidates);
    written_members_are_known(linked, members);
    gone_paths(existing, candidates);
    assert forall|i: int, j: int| 0 <= i < members.len() && 0 <= j < lost.len() implies ((#[trigger] members[i]) matches
        StoreWrite::ContainsFile(_, to) && to != file_id_of(#[trigger] lost[j])) by {
        assert(gone(existing, candidates).contains(lost[j]));
        if let StoreWrite::ContainsFile(_, to) = members[i] {
            let rel = choose|rel: Seq<char>| #[trigger] candidates.contains(rel) && to == file_id_of(rel);
            if to == file_id_of(lost[j]) {
                file_id_injective(rel, lost[j]);
            }
        }
    }
    members_outlive_removals(linked + members, members, lost);
    assert(h1 == linked + members + removals(lost));
    known_members_change_nothing(h1, members);
    let h2 = after_run(h1, again, candidates, contents);
    assert(h2 =~= h1 + members);
    assert forall|i: int| 0 <= i < parsed2.len() implies ((#[trigger] parsed2[i]) is SkipCounted) == (contents[i]
        is Some) by {
        assert(work2[i] is Ok);
    }
    let is_counted = |w: FileWorkView| w is SkipCounted;
    let is_readable = |c: Option<Vec<u8>>| c is Some;
    same_count(parsed2, is_counted, contents, is_readable);
    keep_members(contents, is_readable);
    assert(skipped(parsed2) == readable(contents));
    assert(symbol_count(writes_of(parsed2)) == 0);
    assert(op_count(manifests_in(parsed2)) == 0);
}

} // verus!
