//! What an indexing run records of each file, and which edges it writes.

use crate::config::enabled;
use crate::graph::model::{FileView, FileWriteView, Language};
use crate::graph::store::{batch_writes, GraphStore, StoreWrite};
use crate::hashing::blake3_hex;
use crate::indexer::facts::{
    FileImportsView, FileReferencesView, FileSupertypesView, ReferenceView, SupertypeView,
};
use crate::indexer::index::{
    after_imports, after_index, after_nodes, contains_writes, gone, import_edges_of, imports_of, manifests_in,
    outcome_of, props_among, ref_edges_of, refs_of, removals, removed, super_edges_of, supers_of, symbol_count,
    writes_of,
};
use crate::indexer::languages::language_of;
use crate::indexer::manifests::{
    is_central_props_path, manifest_writes, manifests_of, owner, ManifestView, SourceTextView,
};
use crate::indexer::resolve::{
    all_symbols, file_import_writes, names_in, super_writes, usage_writes,
};
use crate::indexer::tree_sitter::extract::{ordered_symbols, symbols_in};
use crate::indexer::tree_sitter::imports::imports_in;
use crate::indexer::tree_sitter::references::references_in;
use crate::indexer::tree_sitter::supertypes::supertypes_in;
use crate::indexer::work::{file_work, manifest_in, FileWorkView, ParseView, WorkView};
use crate::lists::{
    first_found, flat, flat_members, keep, made, made_is_picked, makes, pick, picked_from, sorted_set_laws,
};
use crate::text::lossy_text;
use vstd::prelude::*;

verus! {

// --- one file -------------------------------------------------------------------------------------
/// A file is left alone where the run is restricted to other files, where it cannot
/// be read, or where it is known under the hash of its content and the run is not
/// forced; else it is indexed, unless it is a manifest that cannot be read.
pub proof fn which_files_are_indexed(ctx: ParseView, rel: Seq<char>, bytes: Option<Seq<u8>>, f: FileView)
    ensures
        ctx.changed_only && !ctx.changed.contains(rel) ==> file_work(ctx, rel, bytes) == Ok::<FileWorkView, Seq<char>>(
            FileWorkView::SkipCounted,
        ),
        !ctx.changed_only && bytes is None ==> file_work(ctx, rel, bytes) == Ok::<FileWorkView, Seq<char>>(
            FileWorkView::SkipUnreadable,
        ),
        !ctx.changed_only && !ctx.force && bytes is Some && ctx.existing.contains(f) && f.path == rel && f.hash
            == blake3_hex(bytes->0) && (forall|g: FileView| #[trigger]
            ctx.existing.contains(g) && g.path == rel ==> g == f) ==> file_work(ctx, rel, bytes) == Ok::<
            FileWorkView,
            Seq<char>,
        >(FileWorkView::SkipCounted),
        (!ctx.changed_only || ctx.changed.contains(rel)) && bytes is Some && manifest_in(ctx, rel, bytes->0) is Ok && (
        ctx.force || (forall|g: FileView| #[trigger]
            ctx.existing.contains(g) && g.path == rel ==> g.hash != blake3_hex(bytes->0))) ==> (file_work(
            ctx,
            rel,
            bytes,
        ) matches Ok(FileWorkView::Indexed(_))),
{
    let p = |g: FileView| g.path == rel;
    first_found(ctx.existing, p);
    if ctx.existing.contains(f) && f.path == rel {
        assert(p(ctx.existing[ctx.existing.index_of(f)]));
    }
}

/// What is recorded of an indexed file: its path and the id of that, its language,
/// the hash and size of its content, whether git tracks it, and the time of the run.
pub proof fn what_is_recorded_of_a_file(ctx: ParseView, rel: Seq<char>, b: Seq<u8>, x: WorkView)
    requires
        file_work(ctx, rel, Some(b)) == Ok::<FileWorkView, Seq<char>>(FileWorkView::Indexed(x)),
    ensures
        x.file.path == rel,
        x.file.id == "file:"@ + rel,
        x.file.hash == blake3_hex(b),
        x.file.language == language_of(rel),
        b.len() <= u64::MAX ==> x.file.size_bytes == b.len(),
        x.file.git_tracked <==> ctx.in_git.contains(rel),
        x.file.last_indexed_at == ctx.now,
{
}

/// What is extracted from an indexed file: its symbols, supertypes, usages and
/// imports, where its language is known and switched on, and nothing otherwise.
pub proof fn what_is_extracted_from_a_file(ctx: ParseView, rel: Seq<char>, b: Seq<u8>, x: WorkView, i: Seq<char>)
    requires
        file_work(ctx, rel, Some(b)) == Ok::<FileWorkView, Seq<char>>(FileWorkView::Indexed(x)),
    ensures
        ({
            let lang = language_of(rel);
            let text = lossy_text(b);
            let on = lang != Language::Other && enabled(ctx.languages, lang);
            &&& on ==> x.symbols == ordered_symbols(symbols_in(rel, lang, text))
            &&& on ==> x.supers == supertypes_in(rel, lang, text)
            &&& on ==> x.references == references_in(rel, lang, text)
            &&& on && (lang == Language::CSharp || lang == Language::JavaScript || lang == Language::TypeScript) ==> (
            x.imports.contains(i) <==> imports_in(rel, lang, text).contains(i))
            &&& !on ==> x.symbols.len() == 0 && x.supers.len() == 0 && x.references.len() == 0 && x.imports.len() == 0
        }),
{
    sorted_set_laws(imports_in(rel, language_of(rel), lossy_text(b)));
}

// --- the whole run --------------------------------------------------------------------------------
proof fn in_history(a: Seq<StoreWrite>, b: Seq<StoreWrite>, w: StoreWrite)
    ensures
        a.contains(w) || b.contains(w) ==> (a + b).contains(w),
{
    if a.contains(w) {
        assert((a + b)[a.index_of(w)] == w);
    }
    if b.contains(w) {
        assert((a + b)[a.len() + b.index_of(w)] == w);
    }
}

proof fn part_is_written<S: GraphStore>(
    h: Seq<StoreWrite>,
    candidates: Seq<Seq<char>>,
    existing: Seq<FileView>,
    parsed: Seq<FileWorkView>,
    changed_only: bool,
    w: StoreWrite,
)
    requires
        batch_writes(writes_of(parsed)).contains(w) || flat(
            manifests_in(parsed),
            |m: ManifestView| manifest_writes(m),
        ).contains(w) || import_edges_of::<S>(h, parsed).contains(w) || super_edges_of::<S>(h, parsed).contains(w)
            || ref_edges_of::<S>(h, parsed).contains(w) || contains_writes(candidates).contains(w) || removals(
            removed(candidates, existing, changed_only),
        ).contains(w),
    ensures
        after_index::<S>(h, candidates, existing, parsed, changed_only).contains(w),
{
    let a = batch_writes(writes_of(parsed));
    let b = flat(manifests_in(parsed), |m: ManifestView| manifest_writes(m));
    let c = import_edges_of::<S>(h, parsed);
    let d = super_edges_of::<S>(h, parsed);
    let e = ref_edges_of::<S>(h, parsed);
    let f = contains_writes(candidates);
    let g = removals(removed(candidates, existing, changed_only));
    in_history(h, a, w);
    in_history(h + a, b, w);
    in_history(h + a + b, c, w);
    in_history(h + a + b + c, d, w);
    in_history(h + a + b + c + d, e, w);
    in_history(h + a + b + c + d + e, f, w);
    in_history(h + a + b + c + d + e + f, g, w);
}

/// Every usage in an indexed file is linked: what it leads to, with all symbols
/// known, is written.
pub proof fn every_usage_is_linked<S: GraphStore>(
    h: Seq<StoreWrite>,
    candidates: Seq<Seq<char>>,
    existing: Seq<FileView>,
    parsed: Seq<FileWorkView>,
    changed_only: bool,
    i: int,
    x: WorkView,
    r: ReferenceView,
    w: StoreWrite,
)
    requires
        0 <= i < parsed.len(),
        parsed[i] == FileWorkView::Indexed(x),
        x.references.contains(r),
        usage_writes(all_symbols::<S>(after_imports::<S>(h, parsed)), x.file.path, r).contains(w),
    ensures
        after_index::<S>(h, candidates, existing, parsed, changed_only).contains(w),
{
    let all = all_symbols::<S>(after_imports::<S>(h, parsed));
    let f = |w: FileWorkView|
        match w {
            FileWorkView::Indexed(x) => if x.references.len() > 0 {
                Some(FileReferencesView { file: x.file.path, refs: x.references })
            } else {
                None
            },
            _ => None,
        };
    let v = FileReferencesView { file: x.file.path, refs: x.references };
    assert(x.references[x.references.index_of(r)] == r);
    assert(parsed.contains(parsed[i]) && f(parsed[i]) == Some(v));
    assert(made(parsed, f, v));
    made_is_picked(parsed, f, v);
    let inner = |r: ReferenceView| usage_writes(all, v.file, r);
    assert(v.refs.contains(r) && inner(r).contains(w));
    assert(makes(v.refs, inner, w));
    flat_members(v.refs, inner, w);
    let outer = |f: FileReferencesView| flat(f.refs, |r: ReferenceView| usage_writes(all, f.file, r));
    assert(refs_of(parsed).contains(v) && outer(v).contains(w));
    assert(makes(refs_of(parsed), outer, w));
    flat_members(refs_of(parsed), outer, w);
    part_is_written::<S>(h, candidates, existing, parsed, changed_only, w);
}

/// Every supertype in an indexed file is linked.
pub proof fn every_supertype_is_linked<S: GraphStore>(
    h: Seq<StoreWrite>,
    candidates: Seq<Seq<char>>,
    existing: Seq<FileView>,
    parsed: Seq<FileWorkView>,
    changed_only: bool,
    i: int,
    x: WorkView,
    st: SupertypeView,
    w: StoreWrite,
)
    requires
        0 <= i < parsed.len(),
        parsed[i] == FileWorkView::Indexed(x),
        x.supers.contains(st),
        super_writes(all_symbols::<S>(after_imports::<S>(h, parsed)), x.file.path, st).contains(w),
    ensures
        after_index::<S>(h, candidates, existing, parsed, changed_only).contains(w),
{
    let all = all_symbols::<S>(after_imports::<S>(h, parsed));
    let f = |w: FileWorkView|
        match w {
            FileWorkView::Indexed(x) => if x.supers.len() > 0 {
                Some(FileSupertypesView { file: x.file.path, supers: x.supers })
            } else {
                None
            },
            _ => None,
        };
    let v = FileSupertypesView { file: x.file.path, supers: x.supers };
    assert(x.supers[x.supers.index_of(st)] == st);
    assert(parsed.contains(parsed[i]) && f(parsed[i]) == Some(v));
    assert(made(parsed, f, v));
    made_is_picked(parsed, f, v);
    let inner = |st: SupertypeView| super_writes(all, v.file, st);
    assert(v.supers.contains(st) && inner(st).contains(w));
    assert(makes(v.supers, inner, w));
    flat_members(v.supers, inner, w);
    let outer = |f: FileSupertypesView| flat(f.supers, |st: SupertypeView| super_writes(all, f.file, st));
    assert(supers_of(parsed).contains(v) && outer(v).contains(w));
    assert(makes(supers_of(parsed), outer, w));
    flat_members(supers_of(parsed), outer, w);
    part_is_written::<S>(h, candidates, existing, parsed, changed_only, w);
}

/// Every import of an indexed file is linked, with all packages known.
pub proof fn every_import_is_linked<S: GraphStore>(
    h: Seq<StoreWrite>,
    candidates: Seq<Seq<char>>,
    existing: Seq<FileView>,
    parsed: Seq<FileWorkView>,
    changed_only: bool,
    i: int,
    x: WorkView,
    w: StoreWrite,
)
    requires
        0 <= i < parsed.len(),
        parsed[i] == FileWorkView::Indexed(x),
        x.imports.len() > 0,
        ({
            let packages = S::all_packages_in(after_nodes(h, parsed));
            file_import_writes(
                names_in(packages, "npm"@),
                names_in(packages, "nuget"@),
                FileImportsView { file_id: x.file.id, imports: x.imports, language: x.file.language },
            ).contains(w)
        }),
    ensures
        after_index::<S>(h, candidates, existing, parsed, changed_only).contains(w),
{
    let packages = S::all_packages_in(after_nodes(h, parsed));
    let npm = names_in(packages, "npm"@);
    let nuget = names_in(packages, "nuget"@);
    let f = |w: FileWorkView|
        match w {
            FileWorkView::Indexed(x) => if x.imports.len() > 0 {
                Some(FileImportsView { file_id: x.file.id, imports: x.imports, language: x.file.language })
            } else {
                None
            },
            _ => None,
        };
    let v = FileImportsView { file_id: x.file.id, imports: x.imports, language: x.file.language };
    assert(parsed.contains(parsed[i]) && f(parsed[i]) == Some(v));
    assert(made(parsed, f, v));
    made_is_picked(parsed, f, v);
    let outer = |f: FileImportsView| file_import_writes(npm, nuget, f);
    assert(imports_of(parsed).contains(v) && outer(v).contains(w));
    assert(makes(imports_of(parsed), outer, w));
    flat_members(imports_of(parsed), outer, w);
    part_is_written::<S>(h, candidates, existing, parsed, changed_only, w);
}

/// Every manifest of an indexed file is written.
pub proof fn every_manifest_is_written<S: GraphStore>(
    h: Seq<StoreWrite>,
    candidates: Seq<Seq<char>>,
    existing: Seq<FileView>,
    parsed: Seq<FileWorkView>,
    changed_only: bool,
    i: int,
    x: WorkView,
    m: ManifestView,
    w: StoreWrite,
)
    requires
        0 <= i < parsed.len(),
        parsed[i] == FileWorkView::Indexed(x),
        x.manifest == Some(m),
        manifest_writes(m).contains(w),
    ensures
        after_index::<S>(h, candidates, existing, parsed, changed_only).contains(w),
{
    let f = |w: FileWorkView|
        match w {
            FileWorkView::Indexed(x) => x.manifest,
            _ => None,
        };
    assert(parsed.contains(parsed[i]) && f(parsed[i]) == Some(m));
    assert(made(parsed, f, m));
    made_is_picked(parsed, f, m);
    let outer = |m: ManifestView| manifest_writes(m);
    assert(manifests_in(parsed).contains(m) && outer(m).contains(w));
    assert(makes(manifests_in(parsed), outer, w));
    flat_members(manifests_in(parsed), outer, w);
    part_is_written::<S>(h, candidates, existing, parsed, changed_only, w);
}

/// Every candidate is put into the project of the manifest that owns it.
pub proof fn every_file_joins_its_project<S: GraphStore>(
    h: Seq<StoreWrite>,
    candidates: Seq<Seq<char>>,
    existing: Seq<FileView>,
    parsed: Seq<FileWorkView>,
    changed_only: bool,
    rel: Seq<char>,
    m: Seq<char>,
)
    requires
        candidates.contains(rel),
        owner(rel, manifests_of(candidates)) == Some(m),
    ensures
        after_index::<S>(h, candidates, existing, parsed, changed_only).contains(
            StoreWrite::ContainsFile("proj:"@ + m, "file:"@ + rel),
        ),
{
    let f = |rel: Seq<char>|
        match owner(rel, manifests_of(candidates)) {
            Some(m) => Some(
                StoreWrite::ContainsFile(
                    crate::indexer::ids::project_id_of(m),
                    crate::indexer::ids::file_id_of(rel),
                ),
            ),
            None => None,
        };
    let w = StoreWrite::ContainsFile("proj:"@ + m, "file:"@ + rel);
    assert(f(rel) == Some(w));
    assert(made(candidates, f, w));
    made_is_picked(candidates, f, w);
    part_is_written::<S>(h, candidates, existing, parsed, changed_only, w);
}

/// Every known file that is no candidate any more is removed, unless the run is
/// restricted to changed files; no candidate ever is.
pub proof fn gone_files_are_removed(
    candidates: Seq<Seq<char>>,
    existing: Seq<FileView>,
    p: Seq<char>,
)
    ensures
        removed(candidates, existing, false).contains(p) <==> !candidates.contains(p) && exists|f: FileView| #[trigger]
            existing.contains(f) && f.path == p,
        removed(candidates, existing, true).len() == 0,
{
    let g = |f: FileView|
        if candidates.contains(f.path) {
            None
        } else {
            Some(f.path)
        };
    let list = gone(existing, candidates);
    assert(list == pick(existing, g));
    if list.contains(p) {
        picked_from(existing, g);
        assert(made(existing, g, list[list.index_of(p)]));
        let f = choose|f: FileView| #[trigger] existing.contains(f) && g(f) == Some(p);
        assert(existing.contains(f) && f.path == p);
    }
    if !candidates.contains(p) && exists|f: FileView| #[trigger] existing.contains(f) && f.path == p {
        let f = choose|f: FileView| #[trigger] existing.contains(f) && f.path == p;
        assert(g(f) == Some(p));
        assert(made(existing, g, p));
        made_is_picked(existing, g, p);
    }
}

proof fn writes_are_counted(parsed: Seq<FileWorkView>)
    ensures
        writes_of(parsed).len() == keep(parsed, |w: FileWorkView| w is Indexed).len(),
    decreases parsed.len(),
{
    if parsed.len() > 0 {
        writes_are_counted(parsed.drop_last());
    }
}

/// The outcome counts the files that were indexed and those that were skipped, and
/// the files that were removed.
pub proof fn outcome_counts_what_was_done<S: GraphStore>(
    h: Seq<StoreWrite>,
    candidates: Seq<Seq<char>>,
    existing: Seq<FileView>,
    parsed: Seq<FileWorkView>,
    changed_only: bool,
)
    requires
        parsed.len() <= usize::MAX,
        existing.len() <= usize::MAX,
        symbol_count(writes_of(parsed)) <= usize::MAX,
    ensures
        ({
            let o = outcome_of::<S>(h, candidates, existing, parsed, changed_only);
            &&& o.files_indexed == keep(parsed, |w: FileWorkView| w is Indexed).len()
            &&& o.files_skipped_unchanged == keep(parsed, |w: FileWorkView| w is SkipCounted).len()
            &&& o.files_removed == removed(candidates, existing, changed_only).len()
            &&& o.symbols == symbol_count(writes_of(parsed))
        }),
{
    writes_are_counted(parsed);
    crate::lists::keep_members(parsed, |w: FileWorkView| w is Indexed);
    crate::lists::keep_members(parsed, |w: FileWorkView| w is SkipCounted);
    removed_fit(existing, candidates);
}

proof fn removed_fit(existing: Seq<FileView>, candidates: Seq<Seq<char>>)
    ensures
        gone(existing, candidates).len() <= existing.len(),
    decreases existing.len(),
{
    if existing.len() > 0 {
        removed_fit(existing.drop_last(), candidates);
    }
}

/// Symbols are counted over all files.
pub proof fn symbols_are_counted_over_all_files(writes: Seq<FileWriteView>, fw: FileWriteView)
    ensures
        symbol_count(writes.push(fw)) == symbol_count(writes) + fw.symbols.len(),
        symbol_count(Seq::empty()) == 0,
{
    assert(writes.push(fw).drop_last() =~= writes);
}

/// The central files that a run looks at are those among the candidates, as far as they
/// hold text; each keeps its path and its text.
pub proof fn central_files_are_collected(
    candidates: Seq<Seq<char>>,
    contents: Seq<Option<Vec<u8>>>,
    n: nat,
    x: SourceTextView,
)
    ensures
        props_among(candidates, contents, n).contains(x) <==> exists|i: int|
            0 <= i < n && #[trigger] candidates[i] == x.rel && is_central_props_path(x.rel) && (contents[i] matches Some(b)
                && vstd::utf8::valid_utf8(b@) && x.text == vstd::utf8::decode_utf8(b@)),
    decreases n,
{
    if n > 0 {
        let k = n - 1;
        central_files_are_collected(candidates, contents, k as nat, x);
        let rest = props_among(candidates, contents, k as nat);
        let all = props_among(candidates, contents, n);
        if rest.contains(x) {
            assert(all[rest.index_of(x)] == x);
        }
        if all.len() > rest.len() {
            assert(all[rest.len() as int].rel == candidates[k]);
        }
        if all.contains(x) && !rest.contains(x) {
            let j = all.index_of(x);
            if j < rest.len() {
                assert(rest[j] == x);
            }
            assert(candidates[k] == x.rel);
        }
    }
}

} // verus!
