//! Which files a pack selects, in each of its modes.

use crate::graph::model::{FileView, RelatedView, SymbolView};
use crate::graph::store::{GraphStore, StoreWrite};
use crate::indexer::languages::{config_path_name, generated_path, lockfile_path, test_path};
use crate::lists::{
    flat, flat_members, made, made_is_picked, makes, pick, picked_from, sorted_set_laws,
};
use crate::pack::laws::{selection_is_complete, selection_is_ordered, selection_is_sound};
use crate::pack::related_laws::{at_indexed_path, declares_it};
use crate::pack::request::{PackMode, PackRequest, SelectedView};
use crate::pack::selector::{
    as_selected, is_indexed, kept, name_query, neighbours_in, path_candidates, path_query, query_candidates,
    related_candidate, seed_dirs, seeds_of, selection, symbol_candidates, under, with_neighbours, CandidateView,
};
use crate::text::{before_last, has, lower, stripped, trim_end_char};
use vstd::prelude::*;

verus! {

/// The selection has the file, in that tier or a better one.
pub open spec fn selects(sel: Seq<SelectedView>, path: Seq<char>, tier: u8) -> bool {
    exists|x: SelectedView| #[trigger] sel.contains(x) && x.path == path && x.tier <= tier
}

/// What may be selected at all: no generated file; a lockfile only where it was
/// asked for itself; a test or configuration file only where it was asked for
/// itself or the switch is set.
pub open spec fn allowed(path: Seq<char>, explicit: bool, include_tests: bool, include_config: bool) -> bool {
    &&& !generated_path(path)
    &&& lockfile_path(path) ==> explicit
    &&& test_path(path) ==> explicit || include_tests
    &&& config_path_name(path) ==> explicit || include_config
}

proof fn indexed_is_indexed(indexed: Seq<FileView>, path: Seq<char>)
    ensures
        is_indexed(indexed, path) <==> at_indexed_path(indexed, path),
{
    if is_indexed(indexed, path) {
        let i = choose|i: int| 0 <= i < indexed.len() && (#[trigger] indexed[i]).path == path;
        assert(indexed.contains(indexed[i]));
    }
    if at_indexed_path(indexed, path) {
        let f = choose|f: FileView| #[trigger] indexed.contains(f) && f.path == path;
        assert(indexed[indexed.index_of(f)].path == path);
    }
}

proof fn sum_contains<T>(a: Seq<T>, b: Seq<T>, x: T)
    ensures
        (a + b).contains(x) <==> a.contains(x) || b.contains(x),
{
    if a.contains(x) {
        assert((a + b)[a.index_of(x)] == x);
    }
    if b.contains(x) {
        assert((a + b)[a.len() + b.index_of(x)] == x);
    }
    if (a + b).contains(x) {
        let i = (a + b).index_of(x);
        if i < a.len() {
            assert(a[i] == x);
        } else {
            assert(b[i - a.len()] == x);
        }
    }
}

/// A candidate that is indexed and may be selected is selected, in its tier or a
/// better one.
proof fn candidate_is_selected<S: GraphStore>(
    h: Seq<StoreWrite>,
    req: PackRequest,
    changed: Seq<Seq<char>>,
    c: CandidateView,
)
    requires
        with_neighbours(seeds_of::<S>(h, req.mode, req.depth, changed), S::all_files_in(h)).contains(c),
        at_indexed_path(S::all_files_in(h), c.path),
        allowed(c.path, c.explicit, req.include_tests, req.include_config),
    ensures
        selects(selection::<S>(h, req, changed), c.path, c.tier),
{
    let indexed = S::all_files_in(h);
    let cands = with_neighbours(seeds_of::<S>(h, req.mode, req.depth, changed), indexed);
    indexed_is_indexed(indexed, c.path);
    assert(kept(c, req.include_tests, req.include_config));
    selection_is_complete(cands, indexed, req.include_tests, req.include_config, c);
    let sel = selection::<S>(h, req, changed);
    let x = choose|x: SelectedView| #[trigger] sel.contains(x) && x.path == c.path;
    selection_is_sound(cands, indexed, req.include_tests, req.include_config, x);
    assert(sel.contains(x) && x.path == c.path && x.tier <= c.tier);
}

proof fn seed_is_selected<S: GraphStore>(
    h: Seq<StoreWrite>,
    req: PackRequest,
    changed: Seq<Seq<char>>,
    c: CandidateView,
)
    requires
        seeds_of::<S>(h, req.mode, req.depth, changed).contains(c),
        at_indexed_path(S::all_files_in(h), c.path),
        allowed(c.path, c.explicit, req.include_tests, req.include_config),
    ensures
        selects(selection::<S>(h, req, changed), c.path, c.tier),
{
    let indexed = S::all_files_in(h);
    let seeds = seeds_of::<S>(h, req.mode, req.depth, changed);
    let near = flat(seed_dirs(seeds), |dir: Seq<char>| neighbours_in(dir, indexed));
    sum_contains(seeds, near, c);
    candidate_is_selected::<S>(h, req, changed, c);
}

/// Whatever the mode: every selected file is indexed and may be selected, no path is
/// selected twice, and the files come by tier and then by path.
pub proof fn only_allowed_files_are_selected<S: GraphStore>(
    h: Seq<StoreWrite>,
    req: PackRequest,
    changed: Seq<Seq<char>>,
    i: int,
    j: int,
)
    requires
        0 <= i < selection::<S>(h, req, changed).len(),
        0 <= j < selection::<S>(h, req, changed).len(),
    ensures
        ({
            let sel = selection::<S>(h, req, changed);
            &&& at_indexed_path(S::all_files_in(h), sel[i].path)
            &&& allowed(sel[i].path, true, req.include_tests, req.include_config)
            &&& i < j ==> sel[i].path != sel[j].path && sel[i].tier <= sel[j].tier
            &&& sel[i].tier <= 2
        }),
{
    let indexed = S::all_files_in(h);
    let seeds = seeds_of::<S>(h, req.mode, req.depth, changed);
    let cands = with_neighbours(seeds, indexed);
    let sel = selection::<S>(h, req, changed);
    assert(sel.contains(sel[i]));
    selection_is_sound(cands, indexed, req.include_tests, req.include_config, sel[i]);
    selection_is_ordered(cands, indexed, req.include_tests, req.include_config);
    indexed_is_indexed(indexed, sel[i].path);
    if i < j {
        assert(crate::pack::selector::tier_path_order()(sel[i], sel[j]));
    }
    let c = choose|c: CandidateView|
        #[trigger] cands.contains(c) && kept(c, req.include_tests, req.include_config) && sel[i] == as_selected(c);
    candidate_tiers::<S>(h, req, changed, c);
}

proof fn candidate_tiers<S: GraphStore>(
    h: Seq<StoreWrite>,
    req: PackRequest,
    changed: Seq<Seq<char>>,
    c: CandidateView,
)
    requires
        with_neighbours(seeds_of::<S>(h, req.mode, req.depth, changed), S::all_files_in(h)).contains(c),
    ensures
        c.tier <= 2,
        c.tier <= 1 ==> seeds_of::<S>(h, req.mode, req.depth, changed).contains(c),
        !c.explicit && c.tier == 2 ==> exists|s: CandidateView| #[trigger]
            seeds_of::<S>(h, req.mode, req.depth, changed).contains(s) && before_last(s.path, '/') == before_last(
                c.path,
                '/',
            ),
{
    let indexed = S::all_files_in(h);
    let seeds = seeds_of::<S>(h, req.mode, req.depth, changed);
    let f = |dir: Seq<char>| neighbours_in(dir, indexed);
    let near = flat(seed_dirs(seeds), f);
    sum_contains(seeds, near, c);
    if near.contains(c) {
        flat_members(seed_dirs(seeds), f, c);
        let dir = choose|dir: Seq<char>| #[trigger] seed_dirs(seeds).contains(dir) && f(dir).contains(c);
        neighbour_is(dir, indexed, c);
        let dirs = seeds.map_values(|c: CandidateView| before_last(c.path, '/'));
        sorted_set_laws(dirs);
        let k = dirs.index_of(dir);
        assert(seeds.contains(seeds[k]) && before_last(seeds[k].path, '/') == dir);
    }
    if seeds.contains(c) {
        seed_tier::<S>(h, req, changed, c);
    }
}

proof fn neighbour_is(dir: Seq<char>, indexed: Seq<FileView>, c: CandidateView)
    ensures
        neighbours_in(dir, indexed).contains(c) <==> at_indexed_path(indexed, c.path) && before_last(c.path, '/') == dir
            && c.tier == 2 && !c.explicit && c.reason == "same directory as a seed file"@,
{
    let f = |f: FileView|
        if before_last(f.path, '/') == dir {
            Some(
                CandidateView {
                    path: f.path,
                    reason: "same directory as a seed file"@,
                    tier: 2,
                    explicit: false,
                },
            )
        } else {
            None
        };
    let list = neighbours_in(dir, indexed);
    assert(list == pick(indexed, f));
    if list.contains(c) {
        picked_from(indexed, f);
        assert(made(indexed, f, list[list.index_of(c)]));
        let g = choose|g: FileView| #[trigger] indexed.contains(g) && f(g) == Some(c);
        assert(indexed.contains(g) && g.path == c.path);
    }
    if at_indexed_path(indexed, c.path) && before_last(c.path, '/') == dir {
        let g = choose|g: FileView| #[trigger] indexed.contains(g) && g.path == c.path;
        if f(g) == Some(c) {
            assert(made(indexed, f, c));
            made_is_picked(indexed, f, c);
        }
    }
}

proof fn seed_tier<S: GraphStore>(h: Seq<StoreWrite>, req: PackRequest, changed: Seq<Seq<char>>, c: CandidateView)
    requires
        seeds_of::<S>(h, req.mode, req.depth, changed).contains(c),
    ensures
        c.tier <= 1,
{
    let indexed = S::all_files_in(h);
    let seeds = seeds_of::<S>(h, req.mode, req.depth, changed);
    let k = seeds.index_of(c);
    match req.mode {
        PackMode::Changed => {},
        PackMode::Path(p) => {
            let q = trim_end_char(p@, '/');
            path_candidate_is(p@, indexed, c);
        },
        PackMode::Symbol(s) => {
            let found = S::symbols_matching_in(h, name_query(s@));
            let related = S::related_to_symbol_in(h, s@, req.depth);
            symbol_candidate_is(s@, found, related, c);
        },
        PackMode::Query(q) => {
            let symbols = S::symbols_matching_in(h, name_query(q@));
            let files = S::files_matching_in(h, path_query(q@));
            query_candidate_is(q@, indexed, symbols, files, c);
        },
    }
}

// --- changed files --------------------------------------------------------------------------------
/// Every changed file that is indexed and may be selected is selected, in the first
/// tier.
pub proof fn every_changed_file_is_selected<S: GraphStore>(
    h: Seq<StoreWrite>,
    req: PackRequest,
    changed: Seq<Seq<char>>,
    i: int,
)
    requires
        req.mode is Changed,
        0 <= i < changed.len(),
        at_indexed_path(S::all_files_in(h), changed[i]),
        allowed(changed[i], false, req.include_tests, req.include_config),
    ensures
        selects(selection::<S>(h, req, changed), changed[i], 0),
{
    let c = CandidateView { path: changed[i], reason: "changed file"@, tier: 0, explicit: false };
    let seeds = seeds_of::<S>(h, req.mode, req.depth, changed);
    assert(seeds[i] == c);
    seed_is_selected::<S>(h, req, changed, c);
}

// --- paths ----------------------------------------------------------------------------------------
/// The path lies below the directory `dir`: it goes on behind it with a slash.
pub open spec fn lies_below(path: Seq<char>, dir: Seq<char>) -> bool {
    dir.len() == 0 || exists|rest: Seq<char>| path == #[trigger] (dir + seq!['/'] + rest)
}

proof fn under_is_below(path: Seq<char>, dir: Seq<char>)
    ensures
        under(path, dir) <==> lies_below(path, dir),
{
    if under(path, dir) && dir.len() > 0 {
        let rest = stripped(path, dir)->0;
        let tail = rest.skip(1);
        assert(path =~= dir + seq!['/'] + tail);
    }
    if lies_below(path, dir) && dir.len() > 0 {
        let rest = choose|rest: Seq<char>| path == #[trigger] (dir + seq!['/'] + rest);
        assert(dir =~= path.take(dir.len() as int));
        assert(path.skip(dir.len() as int)[0] == '/');
    }
}

proof fn path_candidate_is(prefix: Seq<char>, indexed: Seq<FileView>, c: CandidateView)
    ensures
        path_candidates(prefix, indexed).contains(c) ==> c.explicit && at_indexed_path(indexed, c.path) && (c.tier == 0
            && c.path == trim_end_char(prefix, '/') || c.tier == 1 && lies_below(c.path, trim_end_char(prefix, '/'))),
        at_indexed_path(indexed, c.path) && c.explicit && (c.path == trim_end_char(prefix, '/') && c.tier == 0
            && c.reason == "exact path match"@ || c.path != trim_end_char(prefix, '/') && lies_below(
            c.path,
            trim_end_char(prefix, '/'),
        ) && c.tier == 1 && c.reason == "under path `"@ + trim_end_char(prefix, '/') + "`"@) ==> path_candidates(
            prefix,
            indexed,
        ).contains(c),
{
    let p = trim_end_char(prefix, '/');
    let f = |f: FileView|
        if f.path == p {
            Some(CandidateView { path: f.path, reason: "exact path match"@, tier: 0, explicit: true })
        } else if under(f.path, p) {
            Some(CandidateView { path: f.path, reason: "under path `"@ + p + "`"@, tier: 1, explicit: true })
        } else {
            None
        };
    let list = path_candidates(prefix, indexed);
    assert(list == pick(indexed, f));
    under_is_below(c.path, p);
    if list.contains(c) {
        picked_from(indexed, f);
        assert(made(indexed, f, list[list.index_of(c)]));
        let g = choose|g: FileView| #[trigger] indexed.contains(g) && f(g) == Some(c);
        assert(indexed.contains(g) && g.path == c.path);
    }
    if at_indexed_path(indexed, c.path) {
        let g = choose|g: FileView| #[trigger] indexed.contains(g) && g.path == c.path;
        if f(g) == Some(c) {
            assert(made(indexed, f, c));
            made_is_picked(indexed, f, c);
        }
    }
}

/// Every indexed file at the given path or below it is selected, unless it is
/// generated; the file at the path itself comes first.
pub proof fn every_file_below_the_path_is_selected<S: GraphStore>(
    h: Seq<StoreWrite>,
    req: PackRequest,
    changed: Seq<Seq<char>>,
    prefix: Seq<char>,
    path: Seq<char>,
)
    requires
        req.mode matches PackMode::Path(p) && p@ == prefix,
        at_indexed_path(S::all_files_in(h), path),
        path == trim_end_char(prefix, '/') || lies_below(path, trim_end_char(prefix, '/')),
        !generated_path(path),
    ensures
        selects(
            selection::<S>(h, req, changed),
            path,
            if path == trim_end_char(prefix, '/') {
                0
            } else {
                1
            },
        ),
{
    let p = trim_end_char(prefix, '/');
    let c = if path == p {
        CandidateView { path, reason: "exact path match"@, tier: 0, explicit: true }
    } else {
        CandidateView { path, reason: "under path `"@ + p + "`"@, tier: 1, explicit: true }
    };
    path_candidate_is(prefix, S::all_files_in(h), c);
    seed_is_selected::<S>(h, req, changed, c);
}

// --- symbols --------------------------------------------------------------------------------------
proof fn symbol_candidate_is(
    symbol: Seq<char>,
    found: Seq<SymbolView>,
    related: Seq<RelatedView>,
    c: CandidateView,
)
    ensures
        symbol_candidates(symbol, found, related).contains(c) ==> (c.tier == 0 && c.explicit && declares_it(
            symbol,
            found,
            c.path,
        )) || (exists|i: RelatedView| #[trigger]
            related.contains(i) && i.path == c.path && i.reason == c.reason && c.explicit == (i.depth == 0) && c.tier == (
            if i.depth == 0 {
                0int
            } else {
                1
            })),
        c.tier == 0 && c.explicit && declares_it(symbol, found, c.path) && c.reason == "declares `"@ + symbol + "`"@
            ==> symbol_candidates(symbol, found, related).contains(c),
{
    let f = |s: SymbolView|
        if lower(s.name) == lower(symbol) {
            Some(
                CandidateView { path: s.file_path, reason: "declares `"@ + symbol + "`"@, tier: 0, explicit: true },
            )
        } else {
            None
        };
    let a = pick(found, f);
    let b = related.map_values(|i: RelatedView| related_candidate(i));
    assert(symbol_candidates(symbol, found, related) =~= a + b);
    sum_contains(a, b, c);
    if a.contains(c) {
        picked_from(found, f);
        assert(made(found, f, a[a.index_of(c)]));
        let s = choose|s: SymbolView| #[trigger] found.contains(s) && f(s) == Some(c);
        assert(lower(s.name) == lower(symbol) && s.file_path == c.path);
    }
    if b.contains(c) {
        let k = b.index_of(c);
        assert(related.contains(related[k]));
    }
    if c.tier == 0 && c.explicit && declares_it(symbol, found, c.path) && c.reason == "declares `"@ + symbol + "`"@ {
        let s = choose|s: SymbolView| #[trigger]
            found.contains(s) && lower(s.name) == lower(symbol) && s.file_path == c.path;
        assert(f(s) == Some(c));
        assert(made(found, f, c));
        made_is_picked(found, f, c);
    }
}

/// Every indexed file that declares the symbol is selected in the first tier, unless
/// it is generated; every file that the graph relates to it is selected, in the first
/// tier at distance zero and in the second otherwise, as far as it may be.
pub proof fn every_file_of_the_symbol_is_selected<S: GraphStore>(
    h: Seq<StoreWrite>,
    req: PackRequest,
    changed: Seq<Seq<char>>,
    symbol: Seq<char>,
    path: Seq<char>,
    x: RelatedView,
)
    requires
        req.mode matches PackMode::Symbol(s) && s@ == symbol,
        at_indexed_path(S::all_files_in(h), path),
        at_indexed_path(S::all_files_in(h), x.path),
    ensures
        declares_it(symbol, S::symbols_matching_in(h, name_query(symbol)), path) && !generated_path(path) ==> selects(
            selection::<S>(h, req, changed),
            path,
            0,
        ),
        S::related_to_symbol_in(h, symbol, req.depth).contains(x) && allowed(
            x.path,
            x.depth == 0,
            req.include_tests,
            req.include_config,
        ) ==> selects(
            selection::<S>(h, req, changed),
            x.path,
            if x.depth == 0 {
                0
            } else {
                1
            },
        ),
{
    let found = S::symbols_matching_in(h, name_query(symbol));
    let related = S::related_to_symbol_in(h, symbol, req.depth);
    let c = CandidateView { path, reason: "declares `"@ + symbol + "`"@, tier: 0, explicit: true };
    symbol_candidate_is(symbol, found, related, c);
    if declares_it(symbol, found, path) && !generated_path(path) {
        seed_is_selected::<S>(h, req, changed, c);
    }
    if related.contains(x) && allowed(x.path, x.depth == 0, req.include_tests, req.include_config) {
        let d = related_candidate(x);
        let seeds = symbol_candidates(symbol, found, related);
        let k = related.index_of(x);
        assert(seeds[seeds.len() - related.len() + k] == d);
        seed_is_selected::<S>(h, req, changed, d);
    }
}

// --- queries --------------------------------------------------------------------------------------
proof fn query_candidate_is(
    query: Seq<char>,
    indexed: Seq<FileView>,
    symbols: Seq<SymbolView>,
    files: Seq<FileView>,
    c: CandidateView,
)
    ensures
        query_candidates(query, indexed, symbols, files).contains(c) ==> c.tier == 1 && c.explicit && ((at_indexed_path(
            indexed,
            c.path,
        ) && has(lower(c.path), lower(query))) || (exists|s: SymbolView| #[trigger]
            symbols.contains(s) && s.file_path == c.path) || at_indexed_path(files, c.path)),
{
    let f = |f: FileView|
        if has(lower(f.path), lower(query)) {
            Some(
                CandidateView {
                    path: f.path,
                    reason: crate::pack::selector::path_match_reason(query),
                    tier: 1,
                    explicit: true,
                },
            )
        } else {
            None
        };
    let a = pick(indexed, f);
    let b = symbols.map_values(
        |s: SymbolView|
            CandidateView {
                path: s.file_path,
                reason: "declares symbol matching `"@ + query + "`"@,
                tier: 1,
                explicit: true,
            },
    );
    let d = files.map_values(
        |f: FileView|
            CandidateView {
                path: f.path,
                reason: crate::pack::selector::path_match_reason(query),
                tier: 1,
                explicit: true,
            },
    );
    assert(query_candidates(query, indexed, symbols, files) =~= a + b + d);
    sum_contains(a + b, d, c);
    sum_contains(a, b, c);
    if a.contains(c) {
        picked_from(indexed, f);
        assert(made(indexed, f, a[a.index_of(c)]));
        let g = choose|g: FileView| #[trigger] indexed.contains(g) && f(g) == Some(c);
        assert(indexed.contains(g) && g.path == c.path);
    }
    if b.contains(c) {
        let k = b.index_of(c);
        assert(symbols.contains(symbols[k]));
    }
    if d.contains(c) {
        let k = d.index_of(c);
        assert(files.contains(files[k]));
    }
}

/// Every indexed file whose path holds the query, in any case of letters, is
/// selected, and so is every indexed file with a symbol that the query finds, unless
/// it is generated.
pub proof fn every_file_that_the_query_finds_is_selected<S: GraphStore>(
    h: Seq<StoreWrite>,
    req: PackRequest,
    changed: Seq<Seq<char>>,
    query: Seq<char>,
    path: Seq<char>,
    s: SymbolView,
)
    requires
        req.mode matches PackMode::Query(q) && q@ == query,
        at_indexed_path(S::all_files_in(h), path),
        !generated_path(path),
    ensures
        has(lower(path), lower(query)) ==> selects(selection::<S>(h, req, changed), path, 1),
        S::symbols_matching_in(h, name_query(query)).contains(s) && s.file_path == path ==> selects(
            selection::<S>(h, req, changed),
            path,
            1,
        ),
{
    let indexed = S::all_files_in(h);
    let symbols = S::symbols_matching_in(h, name_query(query));
    let files = S::files_matching_in(h, path_query(query));
    let seeds = query_candidates(query, indexed, symbols, files);
    let f = |f: FileView|
        if has(lower(f.path), lower(query)) {
            Some(
                CandidateView {
                    path: f.path,
                    reason: crate::pack::selector::path_match_reason(query),
                    tier: 1,
                    explicit: true,
                },
            )
        } else {
            None
        };
    let a = pick(indexed, f);
    if has(lower(path), lower(query)) {
        let g = choose|g: FileView| #[trigger] indexed.contains(g) && g.path == path;
        let c = f(g)->0;
        assert(made(indexed, f, c));
        made_is_picked(indexed, f, c);
        assert(seeds[a.index_of(c)] == c);
        seed_is_selected::<S>(h, req, changed, c);
    }
    if symbols.contains(s) && s.file_path == path {
        let k = symbols.index_of(s);
        let c = CandidateView {
            path,
            reason: "declares symbol matching `"@ + query + "`"@,
            tier: 1,
            explicit: true,
        };
        assert(seeds[a.len() + k] == c);
        seed_is_selected::<S>(h, req, changed, c);
    }
}

// --- neighbours -----------------------------------------------------------------------------------
/// Every indexed file in the directory of a file that was found is selected, as far
/// as it may be, in the last tier if no better.
pub proof fn every_neighbour_is_selected<S: GraphStore>(
    h: Seq<StoreWrite>,
    req: PackRequest,
    changed: Seq<Seq<char>>,
    seed: CandidateView,
    path: Seq<char>,
)
    requires
        seeds_of::<S>(h, req.mode, req.depth, changed).contains(seed),
        before_last(seed.path, '/') == before_last(path, '/'),
        at_indexed_path(S::all_files_in(h), path),
        allowed(path, false, req.include_tests, req.include_config),
    ensures
        selects(selection::<S>(h, req, changed), path, 2),
{
    let indexed = S::all_files_in(h);
    let seeds = seeds_of::<S>(h, req.mode, req.depth, changed);
    let c = CandidateView { path, reason: "same directory as a seed file"@, tier: 2, explicit: false };
    let dir = before_last(path, '/');
    let dirs = seeds.map_values(|c: CandidateView| before_last(c.path, '/'));
    sorted_set_laws(dirs);
    assert(dirs[seeds.index_of(seed)] == dir);
    assert(dirs.contains(dir));
    neighbour_is(dir, indexed, c);
    let f = |dir: Seq<char>| neighbours_in(dir, indexed);
    flat_members(seed_dirs(seeds), f, c);
    assert(seed_dirs(seeds).contains(dir) && f(dir).contains(c));
    assert(makes(seed_dirs(seeds), f, c));
    sum_contains(seeds, flat(seed_dirs(seeds), f), c);
    candidate_is_selected::<S>(h, req, changed, c);
}

/// Everything that is selected was found in the mode, or is a neighbour of something
/// that was: in the first two tiers stands only what was found.
pub proof fn everything_selected_was_found<S: GraphStore>(
    h: Seq<StoreWrite>,
    req: PackRequest,
    changed: Seq<Seq<char>>,
    x: SelectedView,
)
    requires
        selection::<S>(h, req, changed).contains(x),
    ensures
        x.tier <= 1 ==> (match req.mode {
            PackMode::Changed => changed.contains(x.path),
            PackMode::Path(p) => x.path == trim_end_char(p@, '/') || lies_below(x.path, trim_end_char(p@, '/')),
            PackMode::Symbol(s) => declares_it(s@, S::symbols_matching_in(h, name_query(s@)), x.path) || exists|
                i: RelatedView,
            | #[trigger] S::related_to_symbol_in(h, s@, req.depth).contains(i) && i.path == x.path,
            PackMode::Query(q) => has(lower(x.path), lower(q@)) || (exists|s: SymbolView| #[trigger]
                S::symbols_matching_in(h, name_query(q@)).contains(s) && s.file_path == x.path) || at_indexed_path(
                S::files_matching_in(h, path_query(q@)),
                x.path,
            ),
        }),
{
    let indexed = S::all_files_in(h);
    let seeds = seeds_of::<S>(h, req.mode, req.depth, changed);
    let cands = with_neighbours(seeds, indexed);
    selection_is_sound(cands, indexed, req.include_tests, req.include_config, x);
    let c = choose|c: CandidateView|
        #[trigger] cands.contains(c) && kept(c, req.include_tests, req.include_config) && x == as_selected(c);
    candidate_tiers::<S>(h, req, changed, c);
    if x.tier <= 1 {
        match req.mode {
            PackMode::Changed => {
                let k = seeds.index_of(c);
                assert(changed[k] == x.path);
            },
            PackMode::Path(p) => {
                path_candidate_is(p@, indexed, c);
            },
            PackMode::Symbol(s) => {
                symbol_candidate_is(
                    s@,
                    S::symbols_matching_in(h, name_query(s@)),
                    S::related_to_symbol_in(h, s@, req.depth),
                    c,
                );
            },
            PackMode::Query(q) => {
                query_candidate_is(
                    q@,
                    indexed,
                    S::symbols_matching_in(h, name_query(q@)),
                    S::files_matching_in(h, path_query(q@)),
                    c,
                );
            },
        }
    }
}

} // verus!
