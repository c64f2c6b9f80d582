//! Indexing a repository: what is written to the graph for the parsed files.
//!
//! The flow is: hash -> skip unchanged -> parse symbols -> write files + symbols ->
//! write manifests (projects/packages/edges) -> resolve imports, supertypes and
//! references -> associate files with projects -> remove deleted files.

use crate::config::LanguageToggles;
use crate::errors::SynapseError;
use crate::graph::model::{FileView, FileWrite, FileWriteView, GraphEdge, IndexedFile};
use crate::graph::store::{batch_writes, GraphStore, StoreWrite};
use crate::indexer::facts::{
    FileImports, FileImportsView, FileReferences, FileReferencesView, FileSupertypes, FileSupertypesView,
};
use crate::indexer::ids::{file_id, file_id_of, project_id, project_id_of};
use crate::indexer::manifests::{
    central_entries, is_central_props, is_central_props_path, manifest_writes, manifests_of, owner, owning_manifest,
    sorted_manifests, write_manifest, CentralVersions, ManifestView, ManifestWrite, SourceText, SourceTextView,
};
use crate::indexer::resolve::{
    all_symbols, import_writes, reference_writes, resolve_imports, resolve_references, resolve_supertypes,
    supertype_writes, SymbolIndex,
};
use crate::indexer::work::{file_work, parse_file, FileWork, FileWorkView, ParseContext, ParseView};
use crate::lists::{
    first, first_of_prefix, flat, keep, pick, pick_views, take_next, take_none, take_whole, views_push,
};
use crate::text::{among, decode_utf8, opt_view, views};
use vstd::prelude::*;

verus! {

/// Outcome counts from an indexing run.
#[derive(Debug, Clone, Copy, PartialEq, Eq, Structural)]
pub struct IndexOutcome {
    pub files_indexed: usize,
    pub files_skipped_unchanged: usize,
    pub files_removed: usize,
    pub symbols: usize,
    pub edges: usize,
}

impl Default for IndexOutcome {
    fn default() -> (r: Self)
        ensures
            r == (IndexOutcome {
                files_indexed: 0,
                files_skipped_unchanged: 0,
                files_removed: 0,
                symbols: 0,
                edges: 0,
            }),
    {
        IndexOutcome { files_indexed: 0, files_skipped_unchanged: 0, files_removed: 0, symbols: 0, edges: 0 }
    }
}

/// A live snapshot of indexing progress.
#[derive(Debug, Clone, Copy, PartialEq, Eq)]
pub struct IndexProgress {
    /// Files visited so far.
    pub processed: usize,
    /// Total candidate files.
    pub total: usize,
    /// Files (re)indexed so far this run.
    pub files_indexed: usize,
    /// Symbols extracted so far.
    pub symbols: usize,
    /// Projects discovered so far (from manifests parsed up to this point).
    pub projects: usize,
    /// Packages discovered so far.
    pub packages: usize,
    /// The current phase, when indexing has moved past the per-file scan; `None`
    /// during the scan.
    pub phase: Option<&'static str>,
    /// Progress *within* the current `phase`, as `(done, total)`.
    pub phase_progress: Option<(usize, usize)>,
}

impl Default for IndexProgress {
    fn default() -> (r: Self)
        ensures
            r == (IndexProgress {
                processed: 0,
                total: 0,
                files_indexed: 0,
                symbols: 0,
                projects: 0,
                packages: 0,
                phase: None,
                phase_progress: None,
            }),
    {
        IndexProgress {
            processed: 0,
            total: 0,
            files_indexed: 0,
            symbols: 0,
            projects: 0,
            packages: 0,
            phase: None,
            phase_progress: None,
        }
    }
}

// --- counts -----------------------------------------------------------------------------
/// A count, as far as a machine word holds it.
pub open spec fn capped(n: nat) -> usize {
    if n <= usize::MAX {
        n as usize
    } else {
        usize::MAX
    }
}

fn plus(a: usize, b: usize) -> (r: usize)
    ensures
        r == capped((a + b) as nat),
{
    if a <= usize::MAX - b {
        a + b
    } else {
        usize::MAX
    }
}

// --- what the parsed files ask for --------------------------------------------------------
/// The files to write.
pub open spec fn writes_of(parsed: Seq<FileWorkView>) -> Seq<FileWriteView> {
    pick(
        parsed,
        |w: FileWorkView|
            match w {
                FileWorkView::Indexed(x) => Some(FileWriteView { file: x.file, symbols: x.symbols }),
                _ => None,
            },
    )
}

/// The imports to resolve.
pub open spec fn imports_of(parsed: Seq<FileWorkView>) -> Seq<FileImportsView> {
    pick(
        parsed,
        |w: FileWorkView|
            match w {
                FileWorkView::Indexed(x) => if x.imports.len() > 0 {
                    Some(FileImportsView { file_id: x.file.id, imports: x.imports, language: x.file.language })
                } else {
                    None
                },
                _ => None,
            },
    )
}

/// The supertypes to resolve.
pub open spec fn supers_of(parsed: Seq<FileWorkView>) -> Seq<FileSupertypesView> {
    pick(
        parsed,
        |w: FileWorkView|
            match w {
                FileWorkView::Indexed(x) => if x.supers.len() > 0 {
                    Some(FileSupertypesView { file: x.file.path, supers: x.supers })
                } else {
                    None
                },
                _ => None,
            },
    )
}

/// The references to resolve.
pub open spec fn refs_of(parsed: Seq<FileWorkView>) -> Seq<FileReferencesView> {
    pick(
        parsed,
        |w: FileWorkView|
            match w {
                FileWorkView::Indexed(x) => if x.references.len() > 0 {
                    Some(FileReferencesView { file: x.file.path, refs: x.references })
                } else {
                    None
                },
                _ => None,
            },
    )
}

/// The manifests to write.
pub open spec fn manifests_in(parsed: Seq<FileWorkView>) -> Seq<ManifestView> {
    pick(
        parsed,
        |w: FileWorkView|
            match w {
                FileWorkView::Indexed(x) => x.manifest,
                _ => None,
            },
    )
}

/// How many files were skipped as unchanged.
pub open spec fn skipped(parsed: Seq<FileWorkView>) -> nat {
    keep(parsed, |w: FileWorkView| w is SkipCounted).len()
}

/// How many symbols the files to write declare.
pub open spec fn symbol_count(writes: Seq<FileWriteView>) -> nat
    decreases writes.len(),
{
    if writes.len() == 0 {
        0
    } else {
        symbol_count(writes.drop_last()) + writes.last().symbols.len()
    }
}

/// How many edges the manifests contribute.
pub open spec fn op_count(manifests: Seq<ManifestView>) -> nat
    decreases manifests.len(),
{
    if manifests.len() == 0 {
        0
    } else {
        op_count(manifests.drop_last()) + manifests.last().ops.len()
    }
}

/// Everything the parsed files ask for, in candidate order.
pub struct Drained {
    pub writes: Vec<FileWrite>,
    pub imports: Vec<FileImports>,
    pub supers: Vec<FileSupertypes>,
    pub refs: Vec<FileReferences>,
    pub manifests: Vec<ManifestWrite>,
    pub skipped: usize,
    pub symbols: usize,
}

/// Walks the parsed results in candidate order.
pub fn drain(parsed: Vec<FileWork>) -> (r: Drained)
    ensures
        views(r.writes@) == writes_of(views(parsed@)),
        views(r.imports@) == imports_of(views(parsed@)),
        views(r.supers@) == supers_of(views(parsed@)),
        views(r.refs@) == refs_of(views(parsed@)),
        views(r.manifests@) == manifests_in(views(parsed@)),
        r.skipped == capped(skipped(views(parsed@))),
        r.symbols == capped(symbol_count(writes_of(views(parsed@)))),
{
    let ghost all = views(parsed@);
    let mut out = Drained {
        writes: Vec::new(),
        imports: Vec::new(),
        supers: Vec::new(),
        refs: Vec::new(),
        manifests: Vec::new(),
        skipped: 0,
        symbols: 0,
    };
    let ghost items = parsed@;
    proof {
        take_none(all);
        assert(views(out.writes@) =~= Seq::<FileWriteView>::empty());
        assert(views(out.imports@) =~= Seq::<FileImportsView>::empty());
        assert(views(out.supers@) =~= Seq::<FileSupertypesView>::empty());
        assert(views(out.refs@) =~= Seq::<FileReferencesView>::empty());
        assert(views(out.manifests@) =~= Seq::<ManifestView>::empty());
    }
    for w in it: parsed
        invariant
            it.seq() == items,
            all == views(items),
            views(out.writes@) == writes_of(all.take(it.index() as int)),
            views(out.imports@) == imports_of(all.take(it.index() as int)),
            views(out.supers@) == supers_of(all.take(it.index() as int)),
            views(out.refs@) == refs_of(all.take(it.index() as int)),
            views(out.manifests@) == manifests_in(all.take(it.index() as int)),
            out.skipped == capped(skipped(all.take(it.index() as int))),
            out.symbols == capped(symbol_count(writes_of(all.take(it.index() as int)))),
    {
        let ghost i = it.index() as int;
        proof {
            take_next(all, i);
            assert(all[i] == w@);
        }
        match w {
            FileWork::SkipCounted => {
                out.skipped = plus(out.skipped, 1);
            },
            FileWork::SkipUnreadable => {},
            FileWork::Indexed(x) => {
                let ghost before = writes_of(all.take(i));
                let n: usize = x.symbols.len();
                out.symbols = plus(out.symbols, n);
                if x.imports.len() > 0 {
                    let p = FileImports { file_id: x.file.id.clone(), imports: x.imports, language: x.file.language };
                    proof {
                        views_push(out.imports@, p);
                    }
                    out.imports.push(p);
                }
                if x.supers.len() > 0 {
                    let p = FileSupertypes { file: x.file.path.clone(), supers: x.supers };
                    proof {
                        views_push(out.supers@, p);
                    }
                    out.supers.push(p);
                }
                if x.references.len() > 0 {
                    let p = FileReferences { file: x.file.path.clone(), refs: x.references };
                    proof {
                        views_push(out.refs@, p);
                    }
                    out.refs.push(p);
                }
                match x.manifest {
                    Some(m) => {
                        proof {
                            views_push(out.manifests@, m);
                        }
                        out.manifests.push(m);
                    },
                    None => {},
                }
                let fw = FileWrite { file: x.file, symbols: x.symbols };
                proof {
                    views_push(out.writes@, fw);
                    assert(before.push(fw@).drop_last() =~= before);
                }
                out.writes.push(fw);
            },
        }
    }
    proof {
        take_whole(all);
    }
    out
}

/// The edges from projects to the files they hold: each candidate with its
/// nearest owning manifest.
pub open spec fn contains_writes(candidates: Seq<Seq<char>>) -> Seq<StoreWrite> {
    pick(
        candidates,
        |rel: Seq<char>|
            match owner(rel, manifests_of(candidates)) {
                Some(m) => Some(StoreWrite::ContainsFile(project_id_of(m), file_id_of(rel))),
                None => None,
            },
    )
}

/// The edges from projects to the files they hold. Ownership goes by the full
/// candidate set (not just files touched this run) so it is complete after any
/// index.
pub fn contains_edges(candidates: &Vec<String>) -> (r: Vec<GraphEdge>)
    ensures
        views(r@) == contains_writes(views(candidates@)),
{
    let manifests = sorted_manifests(candidates);
    let ghost all = views(candidates@);
    let ghost want = |rel: Seq<char>|
        match owner(rel, manifests_of(all)) {
            Some(m) => Some(StoreWrite::ContainsFile(project_id_of(m), file_id_of(rel))),
            None => None,
        };
    let f = |rel: &String| -> (r: Option<GraphEdge>)
        ensures
            opt_view(r) == want(rel@),
        {
            match owning_manifest(rel.as_str(), &manifests) {
                Some(m) => Some(
                    GraphEdge::ProjectContainsFile { project: project_id(m.as_str()), file: file_id(rel.as_str()) },
                ),
                None => None,
            }
        };
    pick_views(candidates, f, Ghost(want))
}

/// The files the graph knows that are no candidates any more.
pub open spec fn gone(existing: Seq<FileView>, candidates: Seq<Seq<char>>) -> Seq<Seq<char>> {
    pick(
        existing,
        |f: FileView|
            if candidates.contains(f.path) {
                None
            } else {
                Some(f.path)
            },
    )
}

pub open spec fn removals(paths: Seq<Seq<char>>) -> Seq<StoreWrite> {
    paths.map_values(|p: Seq<char>| StoreWrite::RemoveFile(p))
}

// --- the whole run ------------------------------------------------------------------------
/// The history once the files and manifests are written.
pub open spec fn after_nodes(h: Seq<StoreWrite>, parsed: Seq<FileWorkView>) -> Seq<StoreWrite> {
    h + batch_writes(writes_of(parsed)) + flat(manifests_in(parsed), |m: ManifestView| manifest_writes(m))
}

pub open spec fn import_edges_of<S: GraphStore>(h: Seq<StoreWrite>, parsed: Seq<FileWorkView>) -> Seq<StoreWrite> {
    import_writes(S::all_packages_in(after_nodes(h, parsed)), imports_of(parsed))
}

/// The history once the imports are resolved, against the packages then known.
pub open spec fn after_imports<S: GraphStore>(h: Seq<StoreWrite>, parsed: Seq<FileWorkView>) -> Seq<StoreWrite> {
    after_nodes(h, parsed) + import_edges_of::<S>(h, parsed)
}

pub open spec fn super_edges_of<S: GraphStore>(h: Seq<StoreWrite>, parsed: Seq<FileWorkView>) -> Seq<StoreWrite> {
    supertype_writes(all_symbols::<S>(after_imports::<S>(h, parsed)), supers_of(parsed))
}

pub open spec fn ref_edges_of<S: GraphStore>(h: Seq<StoreWrite>, parsed: Seq<FileWorkView>) -> Seq<StoreWrite> {
    reference_writes(all_symbols::<S>(after_imports::<S>(h, parsed)), refs_of(parsed))
}

/// The history after an indexing run: supertypes and references are resolved
/// against the symbols then known, every file goes to its project, and files that
/// are no candidates any more are removed (unless only changed files were asked
/// for).
pub open spec fn after_index<S: GraphStore>(
    h: Seq<StoreWrite>,
    candidates: Seq<Seq<char>>,
    existing: Seq<FileView>,
    parsed: Seq<FileWorkView>,
    changed_only: bool,
) -> Seq<StoreWrite> {
    after_imports::<S>(h, parsed) + super_edges_of::<S>(h, parsed) + ref_edges_of::<S>(h, parsed) + contains_writes(
        candidates,
    ) + removals(removed(candidates, existing, changed_only))
}

/// The files that a run removes.
pub open spec fn removed(
    candidates: Seq<Seq<char>>,
    existing: Seq<FileView>,
    changed_only: bool,
) -> Seq<Seq<char>> {
    if changed_only {
        Seq::empty()
    } else {
        gone(existing, candidates)
    }
}

/// The counts of an indexing run.
pub open spec fn outcome_of<S: GraphStore>(
    h: Seq<StoreWrite>,
    candidates: Seq<Seq<char>>,
    existing: Seq<FileView>,
    parsed: Seq<FileWorkView>,
    changed_only: bool,
) -> IndexOutcome {
    IndexOutcome {
        files_indexed: capped(writes_of(parsed).len()),
        files_skipped_unchanged: capped(skipped(parsed)),
        files_removed: capped(removed(candidates, existing, changed_only).len()),
        symbols: capped(symbol_count(writes_of(parsed))),
        edges: capped(
            op_count(manifests_in(parsed)) + import_edges_of::<S>(h, parsed).len() + super_edges_of::<S>(
                h,
                parsed,
            ).len() + ref_edges_of::<S>(h, parsed).len(),
        ),
    }
}

/// What a progress snapshot says in the phases after the file scan.
fn snapshot(
    phase: &'static str,
    total: usize,
    files: usize,
    symbols: usize,
    projects: usize,
    sub: Option<(usize, usize)>,
) -> (r: IndexProgress)
    ensures
        r == (IndexProgress {
            processed: total,
            total,
            files_indexed: files,
            symbols,
            projects,
            packages: 0,
            phase: Some(phase),
            phase_progress: sub,
        }),
{
    IndexProgress {
        processed: total,
        total,
        files_indexed: files,
        symbols,
        projects,
        packages: 0,
        phase: Some(phase),
        phase_progress: sub,
    }
}

fn write_manifests<S: GraphStore>(store: &mut S, manifests: &Vec<ManifestWrite>) -> (r: Result<usize, SynapseError>)
    requires
        old(store).valid(),
    ensures
        final(store).valid(),
        S::infallible() ==> r is Ok,
        r matches Ok(n) ==> n == capped(op_count(views(manifests@))) && final(store).history() == old(store).history()
            + flat(views(manifests@), |m: ManifestView| manifest_writes(m)),
{
    let ghost h = store.history();
    let ghost all = views(manifests@);
    let ghost each = |m: ManifestView| manifest_writes(m);
    let mut edges: usize = 0;
    let mut i: usize = 0;
    proof {
        take_none(all);
        assert(store.history() =~= h + flat(all.take(0), each));
    }
    while i < manifests.len()
        invariant
            i <= manifests@.len(),
            all == views(manifests@),
            each == (|m: ManifestView| manifest_writes(m)),
            store.valid(),
            store.history() == h + flat(all.take(i as int), each),
            edges == capped(op_count(all.take(i as int))),
        decreases manifests@.len() - i,
    {
        proof {
            take_next(all, i as int);
            assert(all[i as int] == manifests@[i as int]@);
        }
        let ghost before = store.history();
        match write_manifest(store, &manifests[i]) {
            Ok(n) => {
                edges = plus(edges, n);
            },
            Err(e) => {
                return Err(e);
            },
        }
        proof {
            assert(store.history() =~= h + flat(all.take(i as int + 1), each));
        }
        i += 1;
    }
    proof {
        take_whole(all);
    }
    Ok(edges)
}

fn remove_gone<S: GraphStore>(store: &mut S, existing: &Vec<IndexedFile>, candidates: &Vec<String>) -> (r: Result<
    usize,
    SynapseError,
>)
    requires
        old(store).valid(),
    ensures
        final(store).valid(),
        S::infallible() ==> r is Ok,
        r matches Ok(n) ==> n == capped(gone(views(existing@), views(candidates@)).len()) && final(store).history()
            == old(store).history() + removals(gone(views(existing@), views(candidates@))),
{
    let ghost h = store.history();
    let ghost all = views(existing@);
    let ghost cands = views(candidates@);
    let mut count: usize = 0;
    let mut i: usize = 0;
    proof {
        take_none(all);
        assert(store.history() =~= h + removals(gone(all.take(0), cands)));
    }
    while i < existing.len()
        invariant
            i <= existing@.len(),
            all == views(existing@),
            cands == views(candidates@),
            store.valid(),
            store.history() == h + removals(gone(all.take(i as int), cands)),
            count == capped(gone(all.take(i as int), cands).len()),
        decreases existing@.len() - i,
    {
        let ghost done = gone(all.take(i as int), cands);
        proof {
            take_next(all, i as int);
            assert(all[i as int] == existing@[i as int]@);
        }
        if !among(candidates, existing[i].path.as_str()) {
            match store.remove_file(existing[i].path.as_str()) {
                Ok(_) => {
                    count = plus(count, 1);
                },
                Err(e) => {
                    return Err(e);
                },
            }
            proof {
                let p = existing@[i as int]@.path;
                assert(gone(all.take(i as int + 1), cands) == done.push(p));
                assert(removals(done.push(p)) =~= removals(done).push(StoreWrite::RemoveFile(p)));
                assert(store.history() =~= h + removals(gone(all.take(i as int + 1), cands)));
            }
        }
        i += 1;
    }
    proof {
        take_whole(all);
    }
    Ok(count)
}

/// Write the parsed files to the store and resolve what they refer to.
///
/// `existing` are the files the graph knew when the candidates were parsed.
/// `progress` is told of each phase, since each can be the bulk of the time on
/// large repositories.
pub fn finish_index<S: GraphStore, F: Fn(&str, &IndexProgress)>(
    store: &mut S,
    candidates: &Vec<String>,
    existing: &Vec<IndexedFile>,
    parsed: Vec<FileWork>,
    changed_only: bool,
    progress: &F,
) -> (r: Result<IndexOutcome, SynapseError>)
    requires
        old(store).valid(),
        forall|s: &str, p: IndexProgress| #[trigger] call_requires(*progress, (s, &p)),
    ensures
        final(store).valid(),
        S::infallible() ==> r is Ok,
        r matches Ok(o) ==> {
            &&& final(store).history() == after_index::<S>(
                old(store).history(),
                views(candidates@),
                views(existing@),
                views(parsed@),
                changed_only,
            )
            &&& o == outcome_of::<S>(
                old(store).history(),
                views(candidates@),
                views(existing@),
                views(parsed@),
                changed_only,
            )
        },
{
    let ghost h = store.history();
    let ghost work = views(parsed@);
    let total: usize = candidates.len();
    let d = drain(parsed);
    let files: usize = d.writes.len();
    let symbols: usize = d.symbols;
    let projects: usize = d.manifests.len();
    progress("", &snapshot("writing graph", total, files, symbols, projects, None));
    match store.write_files_batch(&d.writes) {
        Ok(_) => {},
        Err(e) => {
            return Err(e);
        },
    }
    let mut edges: usize = match write_manifests(store, &d.manifests) {
        Ok(n) => n,
        Err(e) => {
            return Err(e);
        },
    };
    proof {
        assert(store.history() =~= after_nodes(h, work));
    }
    if d.imports.len() > 0 {
        progress("", &snapshot("resolving imports", total, files, symbols, projects, None));
        match resolve_imports(store, &d.imports) {
            Ok(n) => {
                edges = plus(edges, n);
            },
            Err(e) => {
                return Err(e);
            },
        }
    } else {
        proof {
            assert(imports_of(work) =~= Seq::<FileImportsView>::empty());
            assert(import_edges_of::<S>(h, work) =~= Seq::<StoreWrite>::empty());
        }
    }
    let ghost h3 = after_imports::<S>(h, work);
    assert(store.history() =~= h3);
    let ghost supers = super_edges_of::<S>(h, work);
    let ghost refs = ref_edges_of::<S>(h, work);
    if d.supers.len() > 0 || d.refs.len() > 0 {
        let index = match SymbolIndex::build(store) {
            Ok(i) => i,
            Err(e) => {
                return Err(e);
            },
        };
        if d.supers.len() > 0 {
            let n: usize = d.supers.len();
            progress("", &snapshot("resolving type relationships", total, files, symbols, projects, Some((0, n))));
            let report = |done: usize|
                {
                    progress(
                        "",
                        &snapshot("resolving type relationships", total, files, symbols, projects, Some((done, n))),
                    );
                };
            match resolve_supertypes(store, &index, &d.supers, &report) {
                Ok(n) => {
                    edges = plus(edges, n);
                },
                Err(e) => {
                    return Err(e);
                },
            }
        } else {
            proof {
                assert(supers_of(work) =~= Seq::<FileSupertypesView>::empty());
                assert(supers =~= Seq::<StoreWrite>::empty());
            }
        }
        assert(store.history() =~= h3 + supers);
        if d.refs.len() > 0 {
            let n: usize = d.refs.len();
            progress("", &snapshot("resolving references", total, files, symbols, projects, Some((0, n))));
            let report = |done: usize|
                {
                    progress("", &snapshot("resolving references", total, files, symbols, projects, Some((done, n))));
                };
            match resolve_references(store, &index, &d.refs, &report) {
                Ok(n) => {
                    edges = plus(edges, n);
                },
                Err(e) => {
                    return Err(e);
                },
            }
        } else {
            proof {
                assert(refs_of(work) =~= Seq::<FileReferencesView>::empty());
                assert(refs =~= Seq::<StoreWrite>::empty());
            }
        }
    } else {
        proof {
            assert(supers_of(work) =~= Seq::<FileSupertypesView>::empty());
            assert(supers =~= Seq::<StoreWrite>::empty());
            assert(refs_of(work) =~= Seq::<FileReferencesView>::empty());
            assert(refs =~= Seq::<StoreWrite>::empty());
        }
    }
    assert(store.history() =~= h3 + supers + refs);
    progress("", &snapshot("linking project membership", total, files, symbols, projects, None));
    let members = contains_edges(candidates);
    match store.link_edges(&members) {
        Ok(_) => {},
        Err(e) => {
            return Err(e);
        },
    }
    let ghost linked = store.history();
    let mut files_removed: usize = 0;
    if !changed_only {
        match remove_gone(store, existing, candidates) {
            Ok(n) => {
                files_removed = n;
            },
            Err(e) => {
                return Err(e);
            },
        }
    } else {
        proof {
            assert(removals(Seq::<Seq<char>>::empty()) =~= Seq::<StoreWrite>::empty());
            assert(linked =~= linked + removals(Seq::<Seq<char>>::empty()));
        }
    }
    Ok(IndexOutcome { files_indexed: files, files_skipped_unchanged: d.skipped, files_removed, symbols, edges })
}

/// Prepare a store for indexing: its schema is set up, and the files it knows are
/// read.
pub fn begin_index<S: GraphStore>(store: &mut S) -> (r: Result<Vec<IndexedFile>, SynapseError>)
    requires
        old(store).valid(),
    ensures
        final(store).valid(),
        S::infallible() ==> r is Ok,
        final(store).history() == old(store).history(),
        r matches Ok(v) ==> views(v@) == S::all_files_in(old(store).history()),
{
    match store.initialize_schema() {
        Ok(_) => store.all_files(),
        Err(e) => Err(e),
    }
}

/// The results of parsing the candidates.
pub open spec fn all_work(
    ctx: ParseView,
    candidates: Seq<Seq<char>>,
    contents: Seq<Option<Vec<u8>>>,
) -> Seq<Result<FileWorkView, Seq<char>>> {
    Seq::new(
        candidates.len(),
        |i: int|
            file_work(
                ctx,
                candidates[i],
                match contents[i] {
                    Some(b) => Some(b@),
                    None => None,
                },
            ),
    )
}

/// What the candidates contribute, where each of them can be parsed.
pub open spec fn good_work(work: Seq<Result<FileWorkView, Seq<char>>>) -> Seq<FileWorkView> {
    work.map_values(|w: Result<FileWorkView, Seq<char>>| w->Ok_0)
}

pub open spec fn some_fails(work: Seq<Result<FileWorkView, Seq<char>>>) -> bool {
    exists|i: int| 0 <= i < work.len() && (#[trigger] work[i]) is Err
}

/// The first candidate that cannot be parsed.
pub open spec fn first_failure(work: Seq<Result<FileWorkView, Seq<char>>>) -> Option<
    Result<FileWorkView, Seq<char>>,
> {
    first(work, |w: Result<FileWorkView, Seq<char>>| w is Err)
}

/// Parse every candidate, in order (`contents`: what could be read of each). The
/// first that cannot be parsed ends it.
pub fn parse_all<F: Fn(&str, &IndexProgress)>(
    ctx: &ParseContext,
    candidates: &Vec<String>,
    contents: &Vec<Option<Vec<u8>>>,
    progress: &F,
) -> (r: Result<Vec<FileWork>, SynapseError>)
    requires
        contents@.len() == candidates@.len(),
        forall|s: &str, p: IndexProgress| #[trigger] call_requires(*progress, (s, &p)),
    ensures
        ({
            let work = all_work(ctx@, views(candidates@), contents@);
            &&& r is Err == some_fails(work)
            &&& r matches Ok(v) ==> views(v@) == good_work(work)
            &&& r matches Err(e) ==> e is Invalid && first_failure(work) == Some(
                Err::<FileWorkView, Seq<char>>(e.text()),
            )
        }),
{
    let ghost work = all_work(ctx@, views(candidates@), contents@);
    let ghost failing = |w: Result<FileWorkView, Seq<char>>| w is Err;
    let total: usize = candidates.len();
    let mut parsed: Vec<FileWork> = Vec::new();
    let mut files: usize = 0;
    let mut symbols: usize = 0;
    let mut projects: usize = 0;
    let mut i: usize = 0;
    proof {
        take_none(work);
        assert(views(parsed@) =~= good_work(work).take(0));
    }
    while i < candidates.len()
        invariant
            i <= candidates@.len(),
            total == candidates@.len(),
            contents@.len() == candidates@.len(),
            work == all_work(ctx@, views(candidates@), contents@),
            failing == (|w: Result<FileWorkView, Seq<char>>| w is Err),
            views(parsed@) == good_work(work).take(i as int),
            first(work.take(i as int), failing) is None,
            forall|j: int| 0 <= j < i ==> (#[trigger] work[j]) is Ok,
            forall|s: &str, p: IndexProgress| #[trigger] call_requires(*progress, (s, &p)),
        decreases candidates@.len() - i,
    {
        proof {
            take_next(work, i as int);
        }
        match parse_file(ctx, candidates[i].as_str(), &contents[i]) {
            Ok(w) => {
                proof {
                    take_next(good_work(work), i as int);
                    views_push(parsed@, w);
                    assert(work[i as int] == Ok::<FileWorkView, Seq<char>>(w@));
                }
                match &w {
                    FileWork::Indexed(x) => {
                        files = plus(files, 1);
                        symbols = plus(symbols, x.symbols.len());
                        if x.manifest.is_some() {
                            projects = plus(projects, 1);
                        }
                    },
                    _ => {},
                }
                parsed.push(w);
            },
            Err(e) => {
                proof {
                    assert(work[i as int] == Err::<FileWorkView, Seq<char>>(e.text()));
                    first_of_prefix(work, failing, i as int + 1);
                }
                return Err(e);
            },
        }
        progress(
            candidates[i].as_str(),
            &IndexProgress {
                processed: i + 1,
                total,
                files_indexed: files,
                symbols,
                projects,
                packages: 0,
                phase: None,
                phase_progress: None,
            },
        );
        i += 1;
    }
    proof {
        take_whole(good_work(work));
    }
    Ok(parsed)
}

// --- indexing a repository ------------------------------------------------------------------
/// What an indexing run is asked for.
pub struct IndexSetup {
    /// The root of the repository.
    pub root: String,
    /// The languages whose symbols are extracted.
    pub languages: LanguageToggles,
    /// Re-index every file, whatever its hash.
    pub force: bool,
    /// Restrict to the files in `changed`.
    pub changed_only: bool,
    pub changed: Vec<String>,
    /// The files that git tracks.
    pub in_git: Vec<String>,
    /// The time to stamp files with.
    pub now: String,
}

/// The central props files among the first `n` candidates, as far as they hold
/// text.
pub open spec fn props_among(candidates: Seq<Seq<char>>, contents: Seq<Option<Vec<u8>>>, n: nat) -> Seq<SourceTextView>
    decreases n,
{
    if n == 0 {
        Seq::empty()
    } else {
        let i = n - 1;
        let rest = props_among(candidates, contents, i as nat);
        if is_central_props_path(candidates[i]) && contents[i] is Some && vstd::utf8::valid_utf8(contents[i]->0@) {
            rest.push(SourceTextView { rel: candidates[i], text: vstd::utf8::decode_utf8(contents[i]->0@) })
        } else {
            rest
        }
    }
}

/// The central props files among the candidates, as far as they hold text.
pub fn collect_props(candidates: &Vec<String>, contents: &Vec<Option<Vec<u8>>>) -> (r: Vec<SourceText>)
    requires
        contents@.len() == candidates@.len(),
    ensures
        views(r@) == props_among(views(candidates@), contents@, candidates@.len()),
{
    let mut out: Vec<SourceText> = Vec::new();
    let mut i: usize = 0;
    assert(views(out@) =~= Seq::<SourceTextView>::empty());
    while i < candidates.len()
        invariant
            i <= candidates@.len(),
            contents@.len() == candidates@.len(),
            views(out@) == props_among(views(candidates@), contents@, i as nat),
        decreases candidates@.len() - i,
    {
        assert(views(candidates@)[i as int] == candidates@[i as int]@);
        if is_central_props(candidates[i].as_str()) {
            match &contents[i] {
                Some(b) => match decode_utf8(b) {
                    Some(text) => {
                        let props = SourceText { rel: candidates[i].clone(), text };
                        proof {
                            views_push(out@, props);
                        }
                        out.push(props);
                    },
                    None => {},
                },
                None => {},
            }
        }
        i += 1;
    }
    out
}

/// What the files are parsed with: what the run was asked for, the files that the
/// graph knows after the writes `h`, and the central versions of the candidates.
pub open spec fn run_context<S: GraphStore>(
    h: Seq<StoreWrite>,
    setup: IndexSetup,
    candidates: Seq<Seq<char>>,
    contents: Seq<Option<Vec<u8>>>,
) -> ParseView {
    ParseView {
        root: setup.root@,
        languages: setup.languages,
        force: setup.force,
        changed_only: setup.changed_only,
        changed: views(setup.changed@),
        existing: S::all_files_in(h),
        in_git: views(setup.in_git@),
        central: central_entries(props_among(candidates, contents, candidates.len())),
        now: setup.now@,
    }
}

/// Index the repository into `store`: parse every candidate (`contents`: what
/// could be read of each) and write what was found. Nothing is written unless
/// every candidate could be parsed; the first that could not is reported.
/// `progress` is told the current file and a snapshot, per file and per phase.
pub fn index_repo<S: GraphStore, F: Fn(&str, &IndexProgress)>(
    store: &mut S,
    setup: IndexSetup,
    candidates: &Vec<String>,
    contents: &Vec<Option<Vec<u8>>>,
    progress: &F,
) -> (r: Result<IndexOutcome, SynapseError>)
    requires
        old(store).valid(),
        contents@.len() == candidates@.len(),
        forall|s: &str, p: IndexProgress| #[trigger] call_requires(*progress, (s, &p)),
    ensures
        final(store).valid(),
        ({
            let h = old(store).history();
            let all = views(candidates@);
            let ctx = run_context::<S>(h, setup, all, contents@);
            let work = all_work(ctx, all, contents@);
            &&& some_fails(work) ==> r is Err && final(store).history() == h
            &&& S::infallible() && some_fails(work) ==> (r matches Err(e) && e is Invalid && first_failure(work) == Some(
                Err::<FileWorkView, Seq<char>>(e.text()),
            ))
            &&& S::infallible() && !some_fails(work) ==> r is Ok
            &&& r matches Ok(o) ==> final(store).history() == after_index::<S>(
                h,
                all,
                ctx.existing,
                good_work(work),
                setup.changed_only,
            ) && o == outcome_of::<S>(h, all, ctx.existing, good_work(work), setup.changed_only)
        }),
{
    let existing = match begin_index(store) {
        Ok(v) => v,
        Err(e) => {
            return Err(e);
        },
    };
    let props = collect_props(candidates, contents);
    let changed_only = setup.changed_only;
    let ctx = ParseContext {
        root: setup.root,
        languages: setup.languages,
        force: setup.force,
        changed_only,
        changed: setup.changed,
        existing,
        in_git: setup.in_git,
        central: CentralVersions::collect(&props),
        now: setup.now,
    };
    assert(ctx@ == run_context::<S>(old(store).history(), setup, views(candidates@), contents@));
    let parsed = match parse_all(&ctx, candidates, contents, progress) {
        Ok(v) => v,
        Err(e) => {
            return Err(e);
        },
    };
    finish_index(store, candidates, &ctx.existing, parsed, changed_only, progress)
}

} // verus!
