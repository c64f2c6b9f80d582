//! Selection: turn a [`PackRequest`] into a ranked, de-duplicated list of files
//! to put into a context pack.
//!
//! Selection is the only place the graph is consulted. Graph facts (declared
//! symbols, related-to edges) are combined with cheap, deterministic path
//! heuristics (same-directory neighbours, test/config detection, name substring
//! matches) to gather candidates, each tagged with a human-readable reason and a
//! ranking tier (lower = higher priority), which are then sorted.
//!
//! Tiers:
//! * 0 — exact matches: changed files, symbol-declaration files, exact paths.
//! * 1 — direct relationships: graph edges, `--path` prefix, query matches.
//! * 2 — neighbours: tests, config/registration files, same-directory files.

use crate::errors::SynapseError;
use crate::graph::model::{
    FileQueryView, FileSearchQuery, FileView, IndexedFile, IndexedSymbol, RelatedItem, RelatedView, SymbolQueryView,
    SymbolSearchQuery, SymbolView,
};
use crate::graph::store::{GraphStore, StoreWrite};
use crate::indexer::languages::{
    config_path_name, generated_path, is_config_file, is_generated, is_lockfile, is_test_file, lockfile_path, test_path,
};
use crate::lists::{
    best_of, best_views, flat, flat_views, keep, pick, pick_views, retain, sort_dedup_texts, sort_views, sorted_set,
    take_next, take_whole, views_add, views_push,
};
use crate::pack::request::{PackMode, PackRequest, SelectedFile, SelectedView};
use crate::sorting::stable_sort;
use crate::text::{
    ascii_lowercase, before, before_last, cat3, contains, has, lower, same, same_ignore_ascii_case, starts_with_char,
    strip_prefix, stripped, text_before_last, text_le, trim_end_char, views, without_end_char,
};
use vstd::prelude::*;

verus! {

/// A candidate before de-duplication and flag filtering.
pub struct Candidate {
    pub path: String,
    pub reason: String,
    pub tier: u8,
    /// True when the file was matched directly by an explicit path/query (used
    /// to override the config/lockfile drop rules).
    pub explicit: bool,
}

/// What `Candidate` says, as mathematical values.
pub struct CandidateView {
    pub path: Seq<char>,
    pub reason: Seq<char>,
    pub tier: u8,
    pub explicit: bool,
}

impl View for Candidate {
    type V = CandidateView;

    open spec fn view(&self) -> CandidateView {
        CandidateView { path: self.path@, reason: self.reason@, tier: self.tier, explicit: self.explicit }
    }
}

// --- gathering -------------------------------------------------------------------
pub open spec fn changed_candidates(changed: Seq<Seq<char>>) -> Seq<CandidateView> {
    changed.map_values(
        |p: Seq<char>| CandidateView { path: p, reason: "changed file"@, tier: 0, explicit: false },
    )
}

/// `path` lives under directory `prefix`.
pub open spec fn under(path: Seq<char>, prefix: Seq<char>) -> bool {
    prefix.len() == 0 || (stripped(path, prefix) matches Some(rest) && rest.len() > 0 && rest[0] == '/')
}

/// True if `path` lives under directory `prefix` (or `prefix` is a path segment
/// boundary of it).
pub fn path_under_prefix(path: &str, prefix: &str) -> (r: bool)
    ensures
        r == under(path@, prefix@),
{
    if prefix.is_empty() {
        return true;
    }
    match strip_prefix(path, prefix) {
        Some(rest) => starts_with_char(rest.as_str(), '/'),
        None => false,
    }
}

/// `--path` mode: an exact path match is tier 0; everything under the prefix is
/// tier 1.
pub open spec fn path_candidates(prefix: Seq<char>, indexed: Seq<FileView>) -> Seq<CandidateView> {
    let p = trim_end_char(prefix, '/');
    pick(
        indexed,
        |f: FileView|
            if f.path == p {
                Some(CandidateView { path: f.path, reason: "exact path match"@, tier: 0, explicit: true })
            } else if under(f.path, p) {
                Some(CandidateView { path: f.path, reason: "under path `"@ + p + "`"@, tier: 1, explicit: true })
            } else {
                None
            },
    )
}

fn collect_path(prefix: &str, indexed: &Vec<IndexedFile>) -> (r: Vec<Candidate>)
    ensures
        views(r@) == path_candidates(prefix@, views(indexed@)),
{
    let trimmed_prefix = without_end_char(prefix, '/');
    let p = trimmed_prefix.as_str();
    let ghost want = |f: FileView|
        if f.path == p@ {
            Some(CandidateView { path: f.path, reason: "exact path match"@, tier: 0, explicit: true })
        } else if under(f.path, p@) {
            Some(CandidateView { path: f.path, reason: "under path `"@ + p@ + "`"@, tier: 1, explicit: true })
        } else {
            None
        };
    let f = |f: &IndexedFile| -> (r: Option<Candidate>)
        ensures
            crate::text::opt_view(r) == want(f@),
        {
            if same(f.path.as_str(), p) {
                Some(
                    Candidate {
                        path: f.path.clone(),
                        reason: "exact path match".to_owned(),
                        tier: 0,
                        explicit: true,
                    },
                )
            } else if path_under_prefix(f.path.as_str(), p) {
                Some(
                    Candidate { path: f.path.clone(), reason: cat3("under path `", p, "`"), tier: 1, explicit: true },
                )
            } else {
                None
            }
        };
    pick_views(indexed, f, Ghost(want))
}

/// The search for symbols whose name holds `name`.
pub open spec fn name_query(name: Seq<char>) -> SymbolQueryView {
    SymbolQueryView { name: Some(name), kind: None, language: None, file: None }
}

/// The search for files whose path holds `text`.
pub open spec fn path_query(text: Seq<char>) -> FileQueryView {
    FileQueryView { path_contains: Some(text), language: None }
}

/// `--symbol` mode: the files declaring the symbol (found by name, in any case of
/// ASCII letters) are tier 0; graph-related files are tier 1, unless the graph
/// puts them at distance 0.
pub open spec fn symbol_candidates(
    symbol: Seq<char>,
    found: Seq<SymbolView>,
    related: Seq<RelatedView>,
) -> Seq<CandidateView> {
    pick(
        found,
        |s: SymbolView|
            if lower(s.name) == lower(symbol) {
                Some(
                    CandidateView {
                        path: s.file_path,
                        reason: "declares `"@ + symbol + "`"@,
                        tier: 0,
                        explicit: true,
                    },
                )
            } else {
                None
            },
    ) + related.map_values(|i: RelatedView| related_candidate(i))
}

pub open spec fn related_candidate(i: RelatedView) -> CandidateView {
    CandidateView {
        path: i.path,
        reason: i.reason,
        tier: if i.depth == 0 {
            0
        } else {
            1
        },
        explicit: i.depth == 0,
    }
}

/// The `--symbol` candidates, from what the store found.
pub fn collect_symbol(symbol: &str, found: &Vec<IndexedSymbol>, related: &Vec<RelatedItem>) -> (r: Vec<Candidate>)
    ensures
        views(r@) == symbol_candidates(symbol@, views(found@), views(related@)),
{
    let ghost want = |s: SymbolView|
        if lower(s.name) == lower(symbol@) {
            Some(
                CandidateView {
                    path: s.file_path,
                    reason: "declares `"@ + symbol@ + "`"@,
                    tier: 0,
                    explicit: true,
                },
            )
        } else {
            None
        };
    let f = |s: &IndexedSymbol| -> (r: Option<Candidate>)
        ensures
            crate::text::opt_view(r) == want(s@),
        {
            if same_ignore_ascii_case(s.name.as_str(), symbol) {
                Some(
                    Candidate {
                        path: s.file_path.clone(),
                        reason: cat3("declares `", symbol, "`"),
                        tier: 0,
                        explicit: true,
                    },
                )
            } else {
                None
            }
        };
    let mut out = pick_views(found, f, Ghost(want));
    let ghost declared = out@;
    let ghost tail = views(related@).map_values(|i: RelatedView| related_candidate(i));
    let mut i: usize = 0;
    assert(views(out@) =~= views(declared) + tail.take(0));
    while i < related.len()
        invariant
            i <= related@.len(),
            tail == views(related@).map_values(|i: RelatedView| related_candidate(i)),
            views(out@) == views(declared) + tail.take(i as int),
        decreases related@.len() - i,
    {
        let item = &related[i];
        let c = Candidate {
            path: item.path.clone(),
            reason: item.reason.clone(),
            tier: if item.depth == 0 {
                0
            } else {
                1
            },
            explicit: item.depth == 0,
        };
        proof {
            take_next(tail, i as int);
            views_push(out@, c);
            assert(tail[i as int] == c@);
            assert(views(declared) + tail.take(i as int + 1) =~= (views(declared) + tail.take(i as int)).push(c@));
        }
        out.push(c);
        i += 1;
    }
    proof {
        take_whole(tail);
    }
    out
}

pub open spec fn path_match_reason(query: Seq<char>) -> Seq<char> {
    "path matches `"@ + query + "`"@
}

/// `--query` mode: case-insensitive substring matches over file paths and symbol
/// names. All matches are tier 1.
pub open spec fn query_candidates(
    query: Seq<char>,
    indexed: Seq<FileView>,
    symbols: Seq<SymbolView>,
    files: Seq<FileView>,
) -> Seq<CandidateView> {
    let by_path = pick(
        indexed,
        |f: FileView|
            if has(lower(f.path), lower(query)) {
                Some(
                    CandidateView { path: f.path, reason: path_match_reason(query), tier: 1, explicit: true },
                )
            } else {
                None
            },
    );
    let by_symbol = symbols.map_values(
        |s: SymbolView|
            CandidateView {
                path: s.file_path,
                reason: "declares symbol matching `"@ + query + "`"@,
                tier: 1,
                explicit: true,
            },
    );
    let by_file = files.map_values(
        |f: FileView| CandidateView { path: f.path, reason: path_match_reason(query), tier: 1, explicit: true },
    );
    by_path + by_symbol + by_file
}

/// The `--query` candidates, from what the store found.
pub fn collect_query(
    query: &str,
    indexed: &Vec<IndexedFile>,
    symbols: &Vec<IndexedSymbol>,
    files: &Vec<IndexedFile>,
) -> (r: Vec<Candidate>)
    ensures
        views(r@) == query_candidates(query@, views(indexed@), views(symbols@), views(files@)),
{
    let needle = ascii_lowercase(query);
    let needle = needle.as_str();
    let ghost want = |f: FileView|
        if has(lower(f.path), lower(query@)) {
            Some(CandidateView { path: f.path, reason: path_match_reason(query@), tier: 1, explicit: true })
        } else {
            None
        };
    let f = |f: &IndexedFile| -> (r: Option<Candidate>)
        ensures
            crate::text::opt_view(r) == want(f@),
        {
            let path = ascii_lowercase(f.path.as_str());
            if contains(path.as_str(), needle) {
                Some(
                    Candidate {
                        path: f.path.clone(),
                        reason: cat3("path matches `", query, "`"),
                        tier: 1,
                        explicit: true,
                    },
                )
            } else {
                None
            }
        };
    let mut out = pick_views(indexed, f, Ghost(want));
    let ghost by_path = views(out@);
    let ghost by_symbol = views(symbols@).map_values(
        |s: SymbolView|
            CandidateView {
                path: s.file_path,
                reason: "declares symbol matching `"@ + query@ + "`"@,
                tier: 1,
                explicit: true,
            },
    );
    let ghost by_file = views(files@).map_values(
        |f: FileView| CandidateView { path: f.path, reason: path_match_reason(query@), tier: 1, explicit: true },
    );
    let mut i: usize = 0;
    assert(views(out@) =~= by_path + by_symbol.take(0));
    while i < symbols.len()
        invariant
            i <= symbols@.len(),
            by_symbol == views(symbols@).map_values(
                |s: SymbolView|
                    CandidateView {
                        path: s.file_path,
                        reason: "declares symbol matching `"@ + query@ + "`"@,
                        tier: 1,
                        explicit: true,
                    },
            ),
            views(out@) == by_path + by_symbol.take(i as int),
        decreases symbols@.len() - i,
    {
        let c = Candidate {
            path: symbols[i].file_path.clone(),
            reason: cat3("declares symbol matching `", query, "`"),
            tier: 1,
            explicit: true,
        };
        proof {
            take_next(by_symbol, i as int);
            views_push(out@, c);
            assert(by_symbol[i as int] == c@);
            assert(by_path + by_symbol.take(i as int + 1) =~= (by_path + by_symbol.take(i as int)).push(c@));
        }
        out.push(c);
        i += 1;
    }
    let ghost named = by_path + by_symbol;
    proof {
        take_whole(by_symbol);
        assert(views(out@) =~= named + by_file.take(0));
    }
    let mut j: usize = 0;
    while j < files.len()
        invariant
            j <= files@.len(),
            by_file == views(files@).map_values(
                |f: FileView|
                    CandidateView { path: f.path, reason: path_match_reason(query@), tier: 1, explicit: true },
            ),
            views(out@) == named + by_file.take(j as int),
        decreases files@.len() - j,
    {
        let c = Candidate {
            path: files[j].path.clone(),
            reason: cat3("path matches `", query, "`"),
            tier: 1,
            explicit: true,
        };
        proof {
            take_next(by_file, j as int);
            views_push(out@, c);
            assert(by_file[j as int] == c@);
            assert(named + by_file.take(j as int + 1) =~= (named + by_file.take(j as int)).push(c@));
        }
        out.push(c);
        j += 1;
    }
    proof {
        take_whole(by_file);
    }
    out
}

/// The parent directory of a repo-relative path (`""` for top-level files).
pub fn parent_dir(path: &str) -> (r: String)
    ensures
        r@ == before_last(path@, '/'),
{
    text_before_last(path, '/')
}

/// The directories of the candidates: sorted, each once.
pub open spec fn seed_dirs(seeds: Seq<CandidateView>) -> Seq<Seq<char>> {
    sorted_set(seeds.map_values(|c: CandidateView| before_last(c.path, '/')))
}

/// The indexed files of one directory, as tier-2 neighbours.
pub open spec fn neighbours_in(dir: Seq<char>, indexed: Seq<FileView>) -> Seq<CandidateView> {
    pick(
        indexed,
        |f: FileView|
            if before_last(f.path, '/') == dir {
                Some(
                    CandidateView {
                        path: f.path,
                        reason: "same directory as a seed file"@,
                        tier: 2,
                        explicit: false,
                    },
                )
            } else {
                None
            },
    )
}

/// The seeds, and the indexed files that live in a seed's directory.
pub open spec fn with_neighbours(seeds: Seq<CandidateView>, indexed: Seq<FileView>) -> Seq<CandidateView> {
    seeds + flat(seed_dirs(seeds), |dir: Seq<char>| neighbours_in(dir, indexed))
}

fn directory_files(dir: &str, indexed: &Vec<IndexedFile>) -> (r: Vec<Candidate>)
    ensures
        views(r@) == neighbours_in(dir@, views(indexed@)),
{
    let ghost want = |f: FileView|
        if before_last(f.path, '/') == dir@ {
            Some(
                CandidateView {
                    path: f.path,
                    reason: "same directory as a seed file"@,
                    tier: 2,
                    explicit: false,
                },
            )
        } else {
            None
        };
    let f = |f: &IndexedFile| -> (r: Option<Candidate>)
        ensures
            crate::text::opt_view(r) == want(f@),
        {
            let file_dir = parent_dir(f.path.as_str());
            if same(file_dir.as_str(), dir) {
                Some(
                    Candidate {
                        path: f.path.clone(),
                        reason: "same directory as a seed file".to_owned(),
                        tier: 2,
                        explicit: false,
                    },
                )
            } else {
                None
            }
        };
    pick_views(indexed, f, Ghost(want))
}

/// For each seed candidate gathered so far, add the files that live in the same
/// directory as tier-2 neighbours.
fn add_directory_neighbours(indexed: &Vec<IndexedFile>, seeds: Vec<Candidate>) -> (r: Vec<Candidate>)
    ensures
        views(r@) == with_neighbours(views(seeds@), views(indexed@)),
{
    let mut dirs: Vec<String> = Vec::new();
    let ghost all = views(seeds@).map_values(|c: CandidateView| before_last(c.path, '/'));
    let mut i: usize = 0;
    assert(views(dirs@) =~= all.take(0));
    while i < seeds.len()
        invariant
            i <= seeds@.len(),
            all == views(seeds@).map_values(|c: CandidateView| before_last(c.path, '/')),
            views(dirs@) == all.take(i as int),
        decreases seeds@.len() - i,
    {
        let d = parent_dir(seeds[i].path.as_str());
        proof {
            take_next(all, i as int);
            views_push(dirs@, d);
            assert(all[i as int] == d@);
        }
        dirs.push(d);
        i += 1;
    }
    proof {
        take_whole(all);
    }
    let dirs = sort_dedup_texts(dirs);
    let ghost indexed_files = views(indexed@);
    let ghost want = |dir: Seq<char>| neighbours_in(dir, indexed_files);
    let f = |dir: &String| -> (r: Vec<Candidate>)
        ensures
            views(r@) == want(dir@),
        {
            directory_files(dir.as_str(), indexed)
        };
    let mut near = flat_views(&dirs, f, Ghost(want));
    let mut out = seeds;
    proof {
        views_add(out@, near@);
    }
    out.append(&mut near);
    out
}

// --- filtering and ranking -----------------------------------------------------
/// What survives the flag rules: never a generated file; a lockfile, a test or a
/// config file only where it was matched directly or (tests, config) asked for.
pub open spec fn kept(c: CandidateView, include_tests: bool, include_config: bool) -> bool {
    &&& !generated_path(c.path)
    &&& lockfile_path(c.path) ==> c.explicit
    &&& test_path(c.path) ==> c.explicit || include_tests
    &&& config_path_name(c.path) ==> c.explicit || include_config
}

/// Decide whether a candidate survives the flag rules and exclusion heuristics.
pub fn keep_candidate(cand: &Candidate, req: &PackRequest) -> (r: bool)
    ensures
        r == kept(cand@, req.include_tests, req.include_config),
{
    let path = cand.path.as_str();
    if is_generated(path) {
        return false;
    }
    if is_lockfile(path) && !cand.explicit {
        return false;
    }
    if is_test_file(path) && !cand.explicit && !req.include_tests {
        return false;
    }
    if is_config_file(path) && !cand.explicit && !req.include_config {
        return false;
    }
    true
}

/// Some file of the list is at `path`.
pub open spec fn is_indexed(indexed: Seq<FileView>, path: Seq<char>) -> bool {
    exists|i: int| 0 <= i < indexed.len() && (#[trigger] indexed[i]).path == path
}

pub fn has_file(indexed: &Vec<IndexedFile>, path: &str) -> (r: bool)
    ensures
        r == is_indexed(views(indexed@), path@),
{
    let mut i: usize = 0;
    while i < indexed.len()
        invariant
            i <= indexed@.len(),
            forall|j: int| 0 <= j < i ==> (#[trigger] views(indexed@)[j]).path != path@,
        decreases indexed@.len() - i,
    {
        assert(views(indexed@)[i as int] == indexed@[i as int]@);
        if same(indexed[i].path.as_str(), path) {
            return true;
        }
        i += 1;
    }
    false
}

/// Candidates for the same file.
pub open spec fn same_file() -> spec_fn(CandidateView, CandidateView) -> bool {
    |a: CandidateView, b: CandidateView| a.path == b.path
}

/// A candidate stays unless the other has a lower tier.
pub open spec fn lower_tier_first() -> spec_fn(CandidateView, CandidateView) -> bool {
    |a: CandidateView, b: CandidateView| a.tier <= b.tier
}

pub open spec fn as_selected(c: CandidateView) -> SelectedView {
    SelectedView { path: c.path, reason: c.reason, tier: c.tier, estimated_tokens: 0, included: true }
}

pub open spec fn tier_path_order() -> spec_fn(SelectedView, SelectedView) -> bool {
    |a: SelectedView, b: SelectedView| a.tier < b.tier || (a.tier == b.tier && text_le(a.path, b.path))
}

/// The ranked selection from the candidates: indexed files that survive the flag
/// rules, each path once at its best, by tier and then by path.
pub open spec fn ranked(
    cands: Seq<CandidateView>,
    indexed: Seq<FileView>,
    include_tests: bool,
    include_config: bool,
) -> Seq<SelectedView> {
    let passing = keep(
        cands,
        |c: CandidateView| is_indexed(indexed, c.path) && kept(c, include_tests, include_config),
    );
    stable_sort(best_of(passing, same_file(), lower_tier_first()).map_values(|c: CandidateView| as_selected(c)), tier_path_order())
}

/// Ranks the candidates: filter to indexed files, apply the flag rules, keep the
/// best of each path, sort by tier and path.
pub fn rank(cands: Vec<Candidate>, indexed: &Vec<IndexedFile>, req: &PackRequest) -> (r: Vec<SelectedFile>)
    ensures
        views(r@) == ranked(views(cands@), views(indexed@), req.include_tests, req.include_config),
{
    let ghost indexed_files = views(indexed@);
    let ghost want = |c: CandidateView|
        is_indexed(indexed_files, c.path) && kept(c, req.include_tests, req.include_config);
    let f = |c: &Candidate| -> (r: bool)
        ensures
            r == want(c@),
        {
            has_file(indexed, c.path.as_str()) && keep_candidate(c, req)
        };
    let passing = retain(cands, f, Ghost(want));
    let same_path = |a: &Candidate, b: &Candidate| -> (r: bool)
        ensures
            r == (a@.path == b@.path),
        {
            same(a.path.as_str(), b.path.as_str())
        };
    let stays = |a: &Candidate, b: &Candidate| -> (r: bool)
        ensures
            r == (a@.tier <= b@.tier),
        {
            a.tier <= b.tier
        };
    let best = best_views(passing, same_path, stays, Ghost(same_file()), Ghost(lower_tier_first()));
    let ghost winners = best@;
    let ghost target = views(winners).map_values(|c: CandidateView| as_selected(c));
    let mut out: Vec<SelectedFile> = Vec::new();
    assert(views(out@) =~= target.take(0));
    for c in it: best
        invariant
            it.seq() == winners,
            target == views(winners).map_values(|c: CandidateView| as_selected(c)),
            views(out@) == target.take(it.index() as int),
    {
        let s = SelectedFile { path: c.path, reason: c.reason, tier: c.tier, estimated_tokens: 0, included: true };
        proof {
            take_next(target, it.index() as int);
            views_push(out@, s);
            assert(target[it.index() as int] == s@);
        }
        out.push(s);
    }
    proof {
        take_whole(target);
    }
    let le = |a: &SelectedFile, b: &SelectedFile| -> (r: bool)
        ensures
            r == (a@.tier < b@.tier || (a@.tier == b@.tier && text_le(a@.path, b@.path))),
        {
            a.tier < b.tier || (a.tier == b.tier && !before(b.path.as_str(), a.path.as_str()))
        };
    sort_views(out, le, Ghost(tier_path_order()))
}

/// The seeds of a request, as a store with the writes `h` answers.
pub open spec fn seeds_of<S: GraphStore>(
    h: Seq<StoreWrite>,
    mode: PackMode,
    depth: usize,
    changed: Seq<Seq<char>>,
) -> Seq<CandidateView> {
    match mode {
        PackMode::Changed => changed_candidates(changed),
        PackMode::Path(p) => path_candidates(p@, S::all_files_in(h)),
        PackMode::Symbol(s) => symbol_candidates(
            s@,
            S::symbols_matching_in(h, name_query(s@)),
            S::related_to_symbol_in(h, s@, depth),
        ),
        PackMode::Query(q) => query_candidates(
            q@,
            S::all_files_in(h),
            S::symbols_matching_in(h, name_query(q@)),
            S::files_matching_in(h, path_query(q@)),
        ),
    }
}

/// What a request selects from a store with the writes `h`.
pub open spec fn selection<S: GraphStore>(
    h: Seq<StoreWrite>,
    req: PackRequest,
    changed: Seq<Seq<char>>,
) -> Seq<SelectedView> {
    let indexed = S::all_files_in(h);
    ranked(
        with_neighbours(seeds_of::<S>(h, req.mode, req.depth, changed), indexed),
        indexed,
        req.include_tests,
        req.include_config,
    )
}

/// Gather candidate files for the request, rank them, and return a stable,
/// de-duplicated selection. `estimated_tokens` is left at 0 (filled by the budget
/// fit) and every returned file is marked `included = true`.
///
/// `changed` holds the files that differ from `HEAD`, for [`PackMode::Changed`].
pub fn select<S: GraphStore>(store: &S, req: &PackRequest, changed: &Vec<String>) -> (r: Result<
    Vec<SelectedFile>,
    SynapseError,
>)
    requires
        store.valid(),
    ensures
        S::infallible() ==> r is Ok,
        r matches Ok(v) ==> views(v@) == selection::<S>(store.history(), *req, views(changed@)),
{
    let indexed = match store.all_files() {
        Ok(v) => v,
        Err(e) => {
            return Err(e);
        },
    };
    let seeds: Vec<Candidate> = match &req.mode {
        PackMode::Changed => changed_seeds(changed),
        PackMode::Path(prefix) => collect_path(prefix.as_str(), &indexed),
        PackMode::Symbol(symbol) => {
            let query = name_search(symbol.as_str());
            let found = match store.symbols_matching(&query) {
                Ok(v) => v,
                Err(e) => {
                    return Err(e);
                },
            };
            let related = match store.related_to_symbol(symbol.as_str(), req.depth) {
                Ok(v) => v,
                Err(e) => {
                    return Err(e);
                },
            };
            collect_symbol(symbol.as_str(), &found, &related)
        },
        PackMode::Query(query) => {
            let sq = name_search(query.as_str());
            let symbols = match store.symbols_matching(&sq) {
                Ok(v) => v,
                Err(e) => {
                    return Err(e);
                },
            };
            let fq = path_search(query.as_str());
            let files = match store.files_matching(&fq) {
                Ok(v) => v,
                Err(e) => {
                    return Err(e);
                },
            };
            collect_query(query.as_str(), &indexed, &symbols, &files)
        },
    };
    let cands = add_directory_neighbours(&indexed, seeds);
    Ok(rank(cands, &indexed, req))
}

fn changed_seeds(changed: &Vec<String>) -> (r: Vec<Candidate>)
    ensures
        views(r@) == changed_candidates(views(changed@)),
{
    let ghost target = changed_candidates(views(changed@));
    let mut out: Vec<Candidate> = Vec::new();
    let mut i: usize = 0;
    assert(views(out@) =~= target.take(0));
    while i < changed.len()
        invariant
            i <= changed@.len(),
            target == changed_candidates(views(changed@)),
            views(out@) == target.take(i as int),
        decreases changed@.len() - i,
    {
        let c = Candidate { path: changed[i].clone(), reason: "changed file".to_owned(), tier: 0, explicit: false };
        proof {
            take_next(target, i as int);
            views_push(out@, c);
            assert(target[i as int] == c@);
        }
        out.push(c);
        i += 1;
    }
    proof {
        take_whole(target);
    }
    out
}

pub fn name_search(name: &str) -> (r: SymbolSearchQuery)
    ensures
        r@ == name_query(name@),
{
    SymbolSearchQuery { name: Some(name.to_owned()), kind: None, language: None, file: None }
}

pub fn path_search(text: &str) -> (r: FileSearchQuery)
    ensures
        r@ == path_query(text@),
{
    FileSearchQuery { path_contains: Some(text.to_owned()), language: None }
}

} // verus!
