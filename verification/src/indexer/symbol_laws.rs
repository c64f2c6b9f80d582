//! What an indexing run on the in-memory store leaves of the symbols of a file.

use crate::graph::batch_laws::{
    apart, apart_files_declare_apart, apart_files_share_no_ids, at_home, batch_is_known, batch_keeps_declarations,
    batch_keeps_home, exactly, no_shared_ids, of_file, own_symbols, prefixed, proper_write, proper_writes,
    removing_another, removing_keeps_home, undeclared,
};
use crate::graph::memory_store::{
    declares, replay, replay_push, symbol_name_order, symbol_passes, symbol_prefix, EdgeView, MemoryGraphStore,
};
use crate::graph::model::{FileView, FileWriteView, SymbolView};
use crate::graph::store::{batch_writes, GraphStore, StoreWrite};
use crate::indexer::ids::file_id_of;
use crate::indexer::index::{
    after_imports, after_nodes, all_work, contains_writes, gone, good_work, import_edges_of, manifests_in, ref_edges_of,
    removals, removed, some_fails, super_edges_of, writes_of,
};
use crate::indexer::languages::language_of;
use crate::indexer::laws::{
    after_run, content_at, edges_only_link, gone_paths, manifests_only_link, only_links, parsed_paths,
};
use crate::indexer::manifests::{manifest_writes, ManifestView};
use crate::indexer::tree_sitter::extract::{extraction_is_ordered, ordered_symbols, symbols_in};
use crate::indexer::tree_sitter::laws::{
    extracted_ids_differ, id_starts_with_path, identified, ids_tell_files_apart, symbols_are_identified,
};
use crate::indexer::work::{extracted, file_work, FileWorkView, ParseView, WorkView};
use crate::lists::{flat, keep, keep_members};
use crate::sorting::stable_sort_keeps;
use crate::text::lossy_text;
use vstd::prelude::*;

verus! {

// --- after the batch ---------------------------------------------------------------------------
/// Links change neither symbols nor what files declare.
proof fn links_keep_symbols(h: Seq<StoreWrite>, ws: Seq<StoreWrite>)
    requires
        only_links(ws),
    ensures
        replay(h + ws).symbols == replay(h).symbols,
        replay(h + ws).file_symbols == replay(h).file_symbols,
    decreases ws.len(),
{
    if ws.len() == 0 {
        assert(h + ws =~= h);
    } else {
        let rest = ws.drop_last();
        assert forall|i: int| 0 <= i < rest.len() implies !((#[trigger] rest[i]) is UpsertFile) && !(rest[i]
            is RemoveFile) && !(rest[i] is UpsertSymbol) && !(rest[i] is Declares) by {
            assert(rest[i] == ws[i]);
        }
        links_keep_symbols(h, rest);
        assert(ws[ws.len() - 1] == ws.last());
        replay_push(h + rest, ws.last());
        assert((h + rest).push(ws.last()) =~= h + ws);
    }
}

proof fn removals_keep_symbols(h: Seq<StoreWrite>, paths: Seq<Seq<char>>, p: Seq<char>, v: Seq<SymbolView>)
    requires
        exactly(replay(h), p, v),
        forall|i: int| 0 <= i < paths.len() ==> (#[trigger] paths[i]) != p && undeclared(replay(h), paths[i], v),
    ensures
        exactly(replay(h + removals(paths)), p, v),
        forall|e: EdgeView| #[trigger]
            replay(h + removals(paths)).file_symbols.contains(e) ==> replay(h).file_symbols.contains(e),
    decreases paths.len(),
{
    if paths.len() == 0 {
        assert(h + removals(paths) =~= h);
    } else {
        let rest = paths.drop_last();
        let q = paths.last();
        assert(paths[paths.len() - 1] == q);
        assert forall|i: int| 0 <= i < rest.len() implies (#[trigger] rest[i]) != p && undeclared(
            replay(h),
            rest[i],
            v,
        ) by {
            assert(rest[i] == paths[i]);
        }
        removals_keep_symbols(h, rest, p, v);
        let before = h + removals(rest);
        assert(before.push(StoreWrite::RemoveFile(q)) =~= h + removals(paths));
        replay_push(before, StoreWrite::RemoveFile(q));
        assert(undeclared(replay(before), q, v)) by {
            assert forall|s: SymbolView| #[trigger] v.contains(s) implies !declares(
                replay(before),
                file_id_of(q),
                s.id,
            ) by {
                assert(!declares(replay(h), file_id_of(q), s.id));
            }
        }
        removing_another(replay(before), q, p, v);
        keep_members(replay(before).file_symbols, |e: EdgeView| e.from != file_id_of(q));
    }
}

proof fn removals_keep_home(h: Seq<StoreWrite>, paths: Seq<Seq<char>>)
    requires
        at_home(replay(h)),
    ensures
        at_home(replay(h + removals(paths))),
    decreases paths.len(),
{
    if paths.len() == 0 {
        assert(h + removals(paths) =~= h);
    } else {
        removals_keep_home(h, paths.drop_last());
        let before = h + removals(paths.drop_last());
        assert(before.push(StoreWrite::RemoveFile(paths.last())) =~= h + removals(paths));
        replay_push(before, StoreWrite::RemoveFile(paths.last()));
        removing_keeps_home(replay(before), paths.last());
    }
}

// --- what the parsed files ask for ---------------------------------------------------------------
/// A file at `rel` under its id, with symbols of its own under ids that start with
/// that path.
spec fn fitting(rel: Seq<char>, x: WorkView) -> bool {
    x.file.path == rel && x.file.id == file_id_of(rel) && own_symbols(rel, x.symbols) && prefixed(rel, x.symbols)
}

proof fn writes_are_proper(parsed: Seq<FileWorkView>, candidates: Seq<Seq<char>>)
    requires
        parsed.len() == candidates.len(),
        candidates.no_duplicates(),
        forall|i: int|
            0 <= i < parsed.len() ==> ((#[trigger] parsed[i]) matches FileWorkView::Indexed(x) ==> fitting(
                candidates[i],
                x,
            )),
    ensures
        proper_writes(writes_of(parsed)),
        forall|k: int|
            0 <= k < writes_of(parsed).len() ==> prefixed(
                (#[trigger] writes_of(parsed)[k]).file.path,
                writes_of(parsed)[k].symbols,
            ),
        forall|k: int|
            0 <= k < writes_of(parsed).len() ==> candidates.contains((#[trigger] writes_of(parsed)[k]).file.path),
        forall|i: int|
            0 <= i < parsed.len() ==> ((#[trigger] parsed[i]) matches FileWorkView::Indexed(x) ==> writes_of(
                parsed,
            ).contains(FileWriteView { file: x.file, symbols: x.symbols })),
    decreases parsed.len(),
{
    if parsed.len() == 0 {
        assert(writes_of(parsed) =~= Seq::<FileWriteView>::empty());
    } else {
        let rest = parsed.drop_last();
        let cands = candidates.drop_last();
        let n = parsed.len() - 1;
        assert forall|i: int| 0 <= i < rest.len() implies ((#[trigger] rest[i]) matches FileWorkView::Indexed(x)
            ==> fitting(cands[i], x)) by {
            assert(rest[i] == parsed[i]);
        }
        assert forall|i: int, j: int| 0 <= i < cands.len() && 0 <= j < cands.len() && i != j implies cands[i]
            != cands[j] by {
            assert(candidates[i] != candidates[j]);
        }
        writes_are_proper(rest, cands);
        let before = writes_of(rest);
        let all = writes_of(parsed);
        assert(parsed[n] == parsed.last());
        assert forall|p: Seq<char>| #[trigger] cands.contains(p) implies candidates.contains(p) && p
            != candidates[n] by {
            let i = cands.index_of(p);
            assert(candidates[i] == p);
            assert(candidates[i] != candidates[n]);
        }
        match parsed.last() {
            FileWorkView::Indexed(x) => {
                let fw = FileWriteView { file: x.file, symbols: x.symbols };
                assert(all == before.push(fw));
                assert(all[before.len() as int] == fw);
                assert(candidates.contains(candidates[n]));
                assert forall|k: int| 0 <= k < all.len() implies proper_write(#[trigger] all[k]) && prefixed(
                    all[k].file.path,
                    all[k].symbols,
                ) && candidates.contains(all[k].file.path) by {
                    if k < before.len() {
                        assert(all[k] == before[k]);
                    }
                }
                assert forall|k: int, l: int| 0 <= k < l < all.len() implies (#[trigger] all[k]).file.path != (
                #[trigger] all[l]).file.path by {
                    assert(all[k] == before[k]);
                    assert(cands.contains(before[k].file.path));
                    if l < before.len() {
                        assert(all[l] == before[l]);
                    }
                }
            },
            _ => {
                assert(all == before);
            },
        }
        assert forall|i: int| 0 <= i < parsed.len() implies ((#[trigger] parsed[i]) matches FileWorkView::Indexed(x)
            ==> all.contains(FileWriteView { file: x.file, symbols: x.symbols })) by {
            if i < n {
                assert(rest[i] == parsed[i]);
                if let FileWorkView::Indexed(x) = parsed[i] {
                    let fw = FileWriteView { file: x.file, symbols: x.symbols };
                    let k = before.index_of(fw);
                    assert(all[k] == fw);
                }
            } else {
                if let FileWorkView::Indexed(x) = parsed[i] {
                    assert(all[before.len() as int] == (FileWriteView { file: x.file, symbols: x.symbols }));
                }
            }
        }
    }
}

proof fn parsed_symbols_are_proper(ctx: ParseView, rel: Seq<char>, bytes: Option<Seq<u8>>)
    ensures
        file_work(ctx, rel, bytes) matches Ok(FileWorkView::Indexed(x)) ==> fitting(rel, x),
{
    if let Ok(FileWorkView::Indexed(x)) = file_work(ctx, rel, bytes) {
        if extracted(ctx, rel) {
            let lang = language_of(rel);
            let text = lossy_text(bytes->0);
            let found = symbols_in(rel, lang, text);
            symbols_are_identified(rel, lang, text);
            extraction_is_ordered(found);
            let d = ordered_symbols(found);
            assert forall|i: int| 0 <= i < d.len() implies (#[trigger] d[i]).file_path == rel && symbol_prefix(
                rel,
            ).is_prefix_of(d[i].id) by {
                assert(found.contains(d[i]));
                let k = found.index_of(d[i]);
                assert(identified(rel, found[k]));
                id_starts_with_path(rel, d[i]);
            }
            assert forall|s: SymbolView| #[trigger] d.contains(s) implies symbol_prefix(rel).is_prefix_of(s.id) by {
                assert(symbol_prefix(rel).is_prefix_of(d[d.index_of(s)].id));
            }
            assert forall|i: int, j: int| 0 <= i < j < d.len() implies (#[trigger] d[i]).id != (#[trigger] d[j]).id by {
                extracted_ids_differ(rel, found, i, j);
            }
        }
    }
}

/// No two of the paths are such that one is the other with a `#` and more behind it.
pub open spec fn all_apart(paths: Seq<Seq<char>>) -> bool {
    forall|i: int, j: int| 0 <= i < j < paths.len() ==> apart(#[trigger] paths[i], #[trigger] paths[j])
}

/// Paths without a `#` are apart.
pub proof fn paths_without_a_hash_are_apart(p: Seq<char>, q: Seq<char>)
    requires
        !p.contains('#'),
        !q.contains('#'),
    ensures
        apart(p, q),
{
    let a = symbol_prefix(p);
    let b = symbol_prefix(q);
    assert(a =~= a.take(a.len() as int));
    assert(b =~= b.take(b.len() as int));
    if a.is_prefix_of(b) {
        ids_tell_files_apart(p, q, b);
    }
    if b.is_prefix_of(a) {
        ids_tell_files_apart(p, q, a);
    }
}

/// What the parsed files of a run ask to be written fits.
proof fn run_writes(
    ctx: ParseView,
    candidates: Seq<Seq<char>>,
    contents: Seq<Option<Vec<u8>>>,
)
    requires
        contents.len() == candidates.len(),
        candidates.no_duplicates(),
        !some_fails(all_work(ctx, candidates, contents)),
    ensures
        ({
            let parsed = good_work(all_work(ctx, candidates, contents));
            let writes = writes_of(parsed);
            &&& proper_writes(writes)
            &&& forall|k: int|
                0 <= k < writes.len() ==> prefixed((#[trigger] writes[k]).file.path, writes[k].symbols)
                    && candidates.contains(writes[k].file.path)
            &&& forall|i: int|
                0 <= i < parsed.len() ==> ((#[trigger] parsed[i]) matches FileWorkView::Indexed(x) ==> fitting(
                    candidates[i],
                    x,
                ) && writes.contains(FileWriteView { file: x.file, symbols: x.symbols }))
        }),
{
    let parsed = good_work(all_work(ctx, candidates, contents));
    parsed_paths(ctx, candidates, contents);
    assert forall|k: int| 0 <= k < parsed.len() implies ((#[trigger] parsed[k]) matches FileWorkView::Indexed(y)
        ==> fitting(candidates[k], y)) by {
        parsed_symbols_are_proper(ctx, candidates[k], content_at(contents, k));
    }
    writes_are_proper(parsed, candidates);
}

/// What the parsed files of a run ask to be written.
pub open spec fn run_batch(
    ctx: ParseView,
    candidates: Seq<Seq<char>>,
    contents: Seq<Option<Vec<u8>>>,
) -> Seq<FileWriteView> {
    writes_of(good_work(all_work(ctx, candidates, contents)))
}

/// After a run, the symbols that the graph has of a file that was parsed are
/// exactly those extracted from it: none is missing, and none is left over from
/// before. No symbol id may belong to two of the files that are written, nor one of
/// this file's to a file that is removed.
pub proof fn indexed_symbols_are_those_found(
    h: Seq<StoreWrite>,
    ctx: ParseView,
    candidates: Seq<Seq<char>>,
    contents: Seq<Option<Vec<u8>>>,
    i: int,
    x: WorkView,
    s: SymbolView,
)
    requires
        contents.len() == candidates.len(),
        candidates.no_duplicates(),
        !some_fails(all_work(ctx, candidates, contents)),
        0 <= i < candidates.len(),
        file_work(ctx, candidates[i], content_at(contents, i)) == Ok::<FileWorkView, Seq<char>>(
            FileWorkView::Indexed(x),
        ),
        no_shared_ids(replay(h), run_batch(ctx, candidates, contents)),
        forall|q: Seq<char>| #[trigger]
            removed(candidates, ctx.existing, ctx.changed_only).contains(q) ==> undeclared(replay(h), q, x.symbols),
    ensures
        MemoryGraphStore::symbols_matching_in(after_run(h, ctx, candidates, contents), of_file(candidates[i])).contains(
            s,
        ) <==> x.symbols.contains(s),
{
    let p = candidates[i];
    let parsed = good_work(all_work(ctx, candidates, contents));
    let writes = writes_of(parsed);
    parsed_paths(ctx, candidates, contents);
    run_writes(ctx, candidates, contents);
    assert(parsed[i] == FileWorkView::Indexed(x));
    let fw = FileWriteView { file: x.file, symbols: x.symbols };
    let n = writes.index_of(fw);
    assert(writes[n] == fw);
    let h1 = h + batch_writes(writes);
    batch_is_known(h, writes, n);
    after_the_batch(h, ctx, candidates, contents);
    let last = linked(h, ctx, candidates, contents);
    let lost = removed(candidates, ctx.existing, ctx.changed_only);
    gone_paths(ctx.existing, candidates);
    assert(candidates.contains(p));
    assert forall|k: int| 0 <= k < lost.len() implies (#[trigger] lost[k]) != p && undeclared(
        replay(last),
        lost[k],
        x.symbols,
    ) by {
        assert(gone(ctx.existing, candidates).contains(lost[k]));
        assert(lost.contains(lost[k]));
        assert forall|y: SymbolView| #[trigger] x.symbols.contains(y) implies !declares(
            replay(last),
            file_id_of(lost[k]),
            y.id,
        ) by {
            assert(!declares(replay(h), file_id_of(lost[k]), y.id));
            batch_keeps_declarations(h, writes, lost[k], y.id);
        }
    }
    removals_keep_symbols(last, lost, p, x.symbols);
    let g = replay(after_run(h, ctx, candidates, contents));
    keep_members(g.symbols, |y: SymbolView| symbol_passes(of_file(p), y));
    stable_sort_keeps(keep(g.symbols, |y: SymbolView| symbol_passes(of_file(p), y)), symbol_name_order());
    if x.symbols.contains(s) {
        let k = x.symbols.index_of(s);
        assert(x.symbols[k].file_path == p);
    }
    assert(g.symbols.contains(s) && s.file_path == p <==> x.symbols.contains(s));
}

/// Where every file is at home, files share no symbol id as long as no path is
/// another with a `#` and more behind it: what the law on the symbols of an indexed
/// file asks for then holds.
pub proof fn apart_candidates_share_no_ids(
    h: Seq<StoreWrite>,
    ctx: ParseView,
    candidates: Seq<Seq<char>>,
    contents: Seq<Option<Vec<u8>>>,
    i: int,
    x: WorkView,
)
    requires
        contents.len() == candidates.len(),
        candidates.no_duplicates(),
        !some_fails(all_work(ctx, candidates, contents)),
        at_home(replay(h)),
        all_apart(candidates),
        forall|f: FileView| #[trigger] ctx.existing.contains(f) ==> apart(candidates[i], f.path),
        0 <= i < candidates.len(),
        file_work(ctx, candidates[i], content_at(contents, i)) == Ok::<FileWorkView, Seq<char>>(
            FileWorkView::Indexed(x),
        ),
    ensures
        no_shared_ids(replay(h), run_batch(ctx, candidates, contents)),
        forall|q: Seq<char>| #[trigger]
            removed(candidates, ctx.existing, ctx.changed_only).contains(q) ==> undeclared(replay(h), q, x.symbols),
{
    let parsed = good_work(all_work(ctx, candidates, contents));
    let writes = writes_of(parsed);
    parsed_paths(ctx, candidates, contents);
    run_writes(ctx, candidates, contents);
    assert(parsed[i] == FileWorkView::Indexed(x));
    assert forall|k: int, l: int| 0 <= k < writes.len() && 0 <= l < writes.len() implies apart(
        (#[trigger] writes[k]).file.path,
        (#[trigger] writes[l]).file.path,
    ) by {
        let a = candidates.index_of(writes[k].file.path);
        let b = candidates.index_of(writes[l].file.path);
        if a < b {
            assert(apart(candidates[a], candidates[b]));
        } else if b < a {
            assert(apart(candidates[b], candidates[a]));
        }
    }
    apart_files_share_no_ids(replay(h), writes);
    let lost = removed(candidates, ctx.existing, ctx.changed_only);
    gone_paths(ctx.existing, candidates);
    assert(candidates.contains(candidates[i]));
    assert forall|q: Seq<char>| #[trigger] lost.contains(q) implies undeclared(replay(h), q, x.symbols) by {
        assert(gone(ctx.existing, candidates).contains(q));
        apart_files_declare_apart(replay(h), candidates[i], x.symbols, q);
    }
}

/// The history of a run before anything is removed.
spec fn linked(
    h: Seq<StoreWrite>,
    ctx: ParseView,
    candidates: Seq<Seq<char>>,
    contents: Seq<Option<Vec<u8>>>,
) -> Seq<StoreWrite> {
    let parsed = good_work(all_work(ctx, candidates, contents));
    after_imports::<MemoryGraphStore>(h, parsed) + super_edges_of::<MemoryGraphStore>(h, parsed) + ref_edges_of::<
        MemoryGraphStore,
    >(h, parsed) + contains_writes(candidates)
}

proof fn after_the_batch(
    h: Seq<StoreWrite>,
    ctx: ParseView,
    candidates: Seq<Seq<char>>,
    contents: Seq<Option<Vec<u8>>>,
)
    ensures
        ({
            let parsed = good_work(all_work(ctx, candidates, contents));
            let last = linked(h, ctx, candidates, contents);
            let g = replay(h + batch_writes(writes_of(parsed)));
            &&& replay(last).symbols == g.symbols
            &&& replay(last).file_symbols == g.file_symbols
            &&& at_home(g) ==> at_home(replay(last))
            &&& after_run(h, ctx, candidates, contents) == last + removals(
                removed(candidates, ctx.existing, ctx.changed_only),
            )
        }),
{
    let parsed = good_work(all_work(ctx, candidates, contents));
    let h1 = h + batch_writes(writes_of(parsed));
    let manifests = flat(manifests_in(parsed), |m: ManifestView| manifest_writes(m));
    let imports = import_edges_of::<MemoryGraphStore>(h, parsed);
    let supers = super_edges_of::<MemoryGraphStore>(h, parsed);
    let refs = ref_edges_of::<MemoryGraphStore>(h, parsed);
    let members = contains_writes(candidates);
    manifests_only_link(manifests_in(parsed));
    edges_only_link(h, parsed, candidates);
    links_keep_symbols(h1, manifests);
    links_keep_symbols(h1 + manifests, imports);
    links_keep_symbols(h1 + manifests + imports, supers);
    links_keep_symbols(h1 + manifests + imports + supers, refs);
    links_keep_symbols(h1 + manifests + imports + supers + refs, members);
    assert(after_nodes(h, parsed) == h1 + manifests);
}

/// What a run starts from holds of what it leaves: every file declares symbols of
/// its own only.
pub proof fn runs_keep_symbols_at_home(
    h: Seq<StoreWrite>,
    ctx: ParseView,
    candidates: Seq<Seq<char>>,
    contents: Seq<Option<Vec<u8>>>,
)
    requires
        contents.len() == candidates.len(),
        candidates.no_duplicates(),
        !some_fails(all_work(ctx, candidates, contents)),
        at_home(replay(h)),
    ensures
        at_home(replay(after_run(h, ctx, candidates, contents))),
{
    let parsed = good_work(all_work(ctx, candidates, contents));
    run_writes(ctx, candidates, contents);
    batch_keeps_home(h, writes_of(parsed));
    after_the_batch(h, ctx, candidates, contents);
    removals_keep_home(
        linked(h, ctx, candidates, contents),
        removed(candidates, ctx.existing, ctx.changed_only),
    );
}

} // verus!
