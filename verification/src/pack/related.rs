//! Files related to a symbol or a file: graph edges combined with path
//! heuristics, ranked by distance.

use crate::errors::SynapseError;
use crate::graph::memory_store::depth_path_order;
use crate::graph::model::{
    FileView, IndexedFile, IndexedSymbol, RelatedItem, RelatedView, SymbolView,
};
use crate::graph::store::{GraphStore, StoreWrite};
use crate::indexer::languages::{config_path_name, is_config_file, is_test_file, test_path};
use crate::lists::{
    best_of, best_views, flat, flat_views, keep, pick, pick_views, retain, sort_dedup_texts, sort_views, sorted_set,
    take_next, take_none, take_whole, views_add, views_push,
};
use crate::pack::selector::{has_file, is_indexed, name_query, name_search, parent_dir};
use crate::sorting::stable_sort;
use crate::text::{
    after_last, ascii_lowercase, before, before_first, before_last, cat3, contains, has, lower, opt_view, same,
    same_ignore_ascii_case, starts_with, text_after_last, text_before_first, text_le, views,
};
use vstd::prelude::*;

verus! {

// --- de-duplication and ranking ------------------------------------------------
/// How specific a reason is — higher wins when two items for the same path share
/// a depth. An explicit edge ("references", "inherits", an importer) is more
/// informative than membership heuristics ("same project", "same directory"), so
/// it must survive de-duplication.
pub open spec fn specificity(reason: Seq<char>) -> u8 {
    if "declares"@.is_prefix_of(reason) {
        4
    } else if "references"@.is_prefix_of(reason) || has(reason, "inherits"@) || has(reason, "implement"@) || has(
        reason,
        "base type"@,
    ) || has(reason, "subtype"@) {
        3
    } else if has(reason, "test"@) || "path contains"@.is_prefix_of(reason) {
        2
    } else {
        1
    }
}

/// Specificity of a relation reason.
pub fn reason_specificity(reason: &str) -> (r: u8)
    ensures
        r == specificity(reason@),
        1 <= r <= 4,
{
    if starts_with(reason, "declares") {
        4
    } else if starts_with(reason, "references") || contains(reason, "inherits") || contains(reason, "implement")
        || contains(reason, "base type") || contains(reason, "subtype") {
        3
    } else if contains(reason, "test") || starts_with(reason, "path contains") {
        2
    } else {
        1
    }
}

/// Items for the same file.
pub open spec fn same_related_file() -> spec_fn(RelatedView, RelatedView) -> bool {
    |a: RelatedView, b: RelatedView| a.path == b.path
}

/// An item stays where it is nearer, or as near with a reason as specific.
pub open spec fn nearer_stays() -> spec_fn(RelatedView, RelatedView) -> bool {
    |a: RelatedView, b: RelatedView|
        a.depth < b.depth || (a.depth == b.depth && specificity(a.reason) >= specificity(b.reason))
}

/// An indexed file within the depth ceiling; depth 0 is always within.
pub open spec fn within(indexed: Seq<FileView>, depth: usize, i: RelatedView) -> bool {
    is_indexed(indexed, i.path) && (i.depth == 0 || i.depth <= depth)
}

/// The final list of related items: indexed files within the depth ceiling, each
/// path once (smallest depth, then most specific reason, then first found), by
/// depth and then by path.
pub open spec fn finalized(items: Seq<RelatedView>, depth: usize, indexed: Seq<FileView>) -> Seq<RelatedView> {
    stable_sort(
        best_of(
            keep(items, |i: RelatedView| within(indexed, depth, i)),
            same_related_file(),
            nearer_stays(),
        ),
        depth_path_order(),
    )
}

/// De-duplicate related items by path (keeping the smallest depth, then the most
/// specific reason), drop items deeper than the ceiling (except depth 0),
/// restrict to indexed files, and sort by `(depth, path)`.
pub fn finalize_related(items: Vec<RelatedItem>, depth: usize, indexed: &Vec<IndexedFile>) -> (r: Vec<RelatedItem>)
    ensures
        views(r@) == finalized(views(items@), depth, views(indexed@)),
{
    let ghost indexed_files = views(indexed@);
    let ghost want = |i: RelatedView| within(indexed_files, depth, i);
    let f = |i: &RelatedItem| -> (r: bool)
        ensures
            r == want(i@),
        {
            has_file(indexed, i.path.as_str()) && (i.depth == 0 || i.depth <= depth)
        };
    let passing = retain(items, f, Ghost(want));
    let same_path = |a: &RelatedItem, b: &RelatedItem| -> (r: bool)
        ensures
            r == (a@.path == b@.path),
        {
            same(a.path.as_str(), b.path.as_str())
        };
    let stays = |a: &RelatedItem, b: &RelatedItem| -> (r: bool)
        ensures
            r == (a@.depth < b@.depth || (a@.depth == b@.depth && specificity(a@.reason) >= specificity(b@.reason))),
        {
            a.depth < b.depth || (a.depth == b.depth && reason_specificity(a.reason.as_str()) >= reason_specificity(
                b.reason.as_str(),
            ))
        };
    let best = best_views(passing, same_path, stays, Ghost(same_related_file()), Ghost(nearer_stays()));
    let le = |a: &RelatedItem, b: &RelatedItem| -> (r: bool)
        ensures
            r == (a@.depth < b@.depth || (a@.depth == b@.depth && text_le(a@.path, b@.path))),
        {
            a.depth < b.depth || (a.depth == b.depth && !before(b.path.as_str(), a.path.as_str()))
        };
    sort_views(best, le, Ghost(depth_path_order()))
}

// --- a symbol ----------------------------------------------------------------------
/// The files that declare the symbol (by name, in any case of ASCII letters).
pub open spec fn declaring_items(symbol: Seq<char>, found: Seq<SymbolView>) -> Seq<RelatedView> {
    pick(
        found,
        |s: SymbolView|
            if lower(s.name) == lower(symbol) {
                Some(RelatedView { path: s.file_path, reason: "declares `"@ + symbol + "`"@, depth: 0 })
            } else {
                None
            },
    )
}

/// The declaring files, sorted, each once.
pub open spec fn declaring_files(symbol: Seq<char>, found: Seq<SymbolView>) -> Seq<Seq<char>> {
    sorted_set(declaring_items(symbol, found).map_values(|i: RelatedView| i.path))
}

/// The directories of the declaring files and of what the graph puts at distance
/// 0, sorted, each once.
pub open spec fn declaring_dirs(
    symbol: Seq<char>,
    found: Seq<SymbolView>,
    related: Seq<RelatedView>,
) -> Seq<Seq<char>> {
    sorted_set(
        declaring_items(symbol, found).map_values(|i: RelatedView| before_last(i.path, '/')) + pick(
            related,
            |i: RelatedView|
                if i.depth == 0 {
                    Some(before_last(i.path, '/'))
                } else {
                    None
                },
        ),
    )
}

/// The indexed files of a directory, each with the most telling reason.
pub open spec fn area_items(dir: Seq<char>, indexed: Seq<FileView>) -> Seq<RelatedView> {
    pick(
        indexed,
        |f: FileView|
            if before_last(f.path, '/') == dir {
                Some(
                    RelatedView {
                        path: f.path,
                        reason: if test_path(f.path) {
                            "test file in the same directory"@
                        } else if config_path_name(f.path) {
                            "config/registration file in the area"@
                        } else {
                            "same directory as a declaring file"@
                        },
                        depth: 1,
                    },
                )
            } else {
                None
            },
    )
}

/// The indexed files whose path holds the symbol's name.
pub open spec fn named_items(symbol: Seq<char>, indexed: Seq<FileView>) -> Seq<RelatedView> {
    if symbol.len() == 0 {
        Seq::empty()
    } else {
        pick(
            indexed,
            |f: FileView|
                if has(lower(f.path), lower(symbol)) {
                    Some(
                        RelatedView {
                            path: f.path,
                            reason: if test_path(f.path) {
                                "likely test for `"@ + symbol + "`"@
                            } else {
                                "path contains `"@ + symbol + "`"@
                            },
                            depth: 1,
                        },
                    )
                } else {
                    None
                },
        )
    }
}

/// Everything related to a symbol, before de-duplication. `siblings` are the
/// project siblings of the declaring files, `types` the type relations and
/// `related` the graph relationships.
pub open spec fn symbol_items(
    symbol: Seq<char>,
    indexed: Seq<FileView>,
    found: Seq<SymbolView>,
    siblings: Seq<RelatedView>,
    types: Seq<RelatedView>,
    related: Seq<RelatedView>,
) -> Seq<RelatedView> {
    declaring_items(symbol, found) + siblings + types + related + flat(
        declaring_dirs(symbol, found, related),
        |dir: Seq<char>| area_items(dir, indexed),
    ) + named_items(symbol, indexed)
}

fn declared(symbol: &str, found: &Vec<IndexedSymbol>) -> (r: Vec<RelatedItem>)
    ensures
        views(r@) == declaring_items(symbol@, views(found@)),
{
    let ghost want = |s: SymbolView|
        if lower(s.name) == lower(symbol@) {
            Some(RelatedView { path: s.file_path, reason: "declares `"@ + symbol@ + "`"@, depth: 0 })
        } else {
            None
        };
    let f = |s: &IndexedSymbol| -> (r: Option<RelatedItem>)
        ensures
            opt_view(r) == want(s@),
        {
            if same_ignore_ascii_case(s.name.as_str(), symbol) {
                Some(
                    RelatedItem { path: s.file_path.clone(), reason: cat3("declares `", symbol, "`"), depth: 0 },
                )
            } else {
                None
            }
        };
    pick_views(found, f, Ghost(want))
}

/// The files that declare the symbol, sorted, each once.
pub fn files_declaring(symbol: &str, found: &Vec<IndexedSymbol>) -> (r: Vec<String>)
    ensures
        views(r@) == declaring_files(symbol@, views(found@)),
{
    let items = declared(symbol, found);
    let ghost target = views(items@).map_values(|i: RelatedView| i.path);
    let mut out: Vec<String> = Vec::new();
    let mut i: usize = 0;
    assert(views(out@) =~= target.take(0));
    while i < items.len()
        invariant
            i <= items@.len(),
            target == views(items@).map_values(|i: RelatedView| i.path),
            views(out@) == target.take(i as int),
        decreases items@.len() - i,
    {
        let p = items[i].path.clone();
        proof {
            take_next(target, i as int);
            views_push(out@, p);
            assert(target[i as int] == p@);
        }
        out.push(p);
        i += 1;
    }
    proof {
        take_whole(target);
    }
    sort_dedup_texts(out)
}

fn area_of(symbol: &str, found: &Vec<IndexedSymbol>, related: &Vec<RelatedItem>) -> (r: Vec<String>)
    ensures
        views(r@) == declaring_dirs(symbol@, views(found@), views(related@)),
{
    let items = declared(symbol, found);
    let ghost target = views(items@).map_values(|i: RelatedView| before_last(i.path, '/'));
    let mut out: Vec<String> = Vec::new();
    let mut i: usize = 0;
    assert(views(out@) =~= target.take(0));
    while i < items.len()
        invariant
            i <= items@.len(),
            target == views(items@).map_values(|i: RelatedView| before_last(i.path, '/')),
            views(out@) == target.take(i as int),
        decreases items@.len() - i,
    {
        let p = parent_dir(items[i].path.as_str());
        proof {
            take_next(target, i as int);
            views_push(out@, p);
            assert(target[i as int] == p@);
        }
        out.push(p);
        i += 1;
    }
    proof {
        take_whole(target);
    }
    let ghost want = |i: RelatedView|
        if i.depth == 0 {
            Some(before_last(i.path, '/'))
        } else {
            None
        };
    let f = |i: &RelatedItem| -> (r: Option<String>)
        ensures
            opt_view(r) == want(i@),
        {
            if i.depth == 0 {
                Some(parent_dir(i.path.as_str()))
            } else {
                None
            }
        };
    let mut more = pick_views(related, f, Ghost(want));
    proof {
        views_add(out@, more@);
    }
    out.append(&mut more);
    sort_dedup_texts(out)
}

fn area_files(dir: &str, indexed: &Vec<IndexedFile>) -> (r: Vec<RelatedItem>)
    ensures
        views(r@) == area_items(dir@, views(indexed@)),
{
    let ghost want = |f: FileView|
        if before_last(f.path, '/') == dir@ {
            Some(
                RelatedView {
                    path: f.path,
                    reason: if test_path(f.path) {
                        "test file in the same directory"@
                    } else if config_path_name(f.path) {
                        "config/registration file in the area"@
                    } else {
                        "same directory as a declaring file"@
                    },
                    depth: 1,
                },
            )
        } else {
            None
        };
    let f = |f: &IndexedFile| -> (r: Option<RelatedItem>)
        ensures
            opt_view(r) == want(f@),
        {
            let file_dir = parent_dir(f.path.as_str());
            if same(file_dir.as_str(), dir) {
                let reason = if is_test_file(f.path.as_str()) {
                    "test file in the same directory"
                } else if is_config_file(f.path.as_str()) {
                    "config/registration file in the area"
                } else {
                    "same directory as a declaring file"
                };
                Some(RelatedItem { path: f.path.clone(), reason: reason.to_owned(), depth: 1 })
            } else {
                None
            }
        };
    pick_views(indexed, f, Ghost(want))
}

fn named_files(symbol: &str, indexed: &Vec<IndexedFile>) -> (r: Vec<RelatedItem>)
    ensures
        views(r@) == named_items(symbol@, views(indexed@)),
{
    if symbol.is_empty() {
        let none: Vec<RelatedItem> = Vec::new();
        assert(views(none@) =~= Seq::<RelatedView>::empty());
        return none;
    }
    let needle = ascii_lowercase(symbol);
    let needle = needle.as_str();
    let ghost want = |f: FileView|
        if has(lower(f.path), lower(symbol@)) {
            Some(
                RelatedView {
                    path: f.path,
                    reason: if test_path(f.path) {
                        "likely test for `"@ + symbol@ + "`"@
                    } else {
                        "path contains `"@ + symbol@ + "`"@
                    },
                    depth: 1,
                },
            )
        } else {
            None
        };
    let f = |f: &IndexedFile| -> (r: Option<RelatedItem>)
        ensures
            opt_view(r) == want(f@),
        {
            let path = ascii_lowercase(f.path.as_str());
            if contains(path.as_str(), needle) {
                let reason = if is_test_file(f.path.as_str()) {
                    cat3("likely test for `", symbol, "`")
                } else {
                    cat3("path contains `", symbol, "`")
                };
                Some(RelatedItem { path: f.path.clone(), reason, depth: 1 })
            } else {
                None
            }
        };
    pick_views(indexed, f, Ghost(want))
}

/// The files related to a symbol, from what the store found.
pub fn relate_symbol(
    symbol: &str,
    depth: usize,
    indexed: &Vec<IndexedFile>,
    found: &Vec<IndexedSymbol>,
    siblings: Vec<RelatedItem>,
    types: Vec<RelatedItem>,
    related: Vec<RelatedItem>,
) -> (r: Vec<RelatedItem>)
    ensures
        views(r@) == finalized(
            symbol_items(
                symbol@,
                views(indexed@),
                views(found@),
                views(siblings@),
                views(types@),
                views(related@),
            ),
            depth,
            views(indexed@),
        ),
{
    let dirs = area_of(symbol, found, &related);
    let ghost indexed_files = views(indexed@);
    let ghost want = |dir: Seq<char>| area_items(dir, indexed_files);
    let f = |dir: &String| -> (r: Vec<RelatedItem>)
        ensures
            views(r@) == want(dir@),
        {
            area_files(dir.as_str(), indexed)
        };
    let mut area = flat_views(&dirs, f, Ghost(want));
    let mut named = named_files(symbol, indexed);
    let mut items = declared(symbol, found);
    let mut siblings = siblings;
    let mut types = types;
    let mut related = related;
    proof {
        views_add(items@, siblings@);
        views_add(items@ + siblings@, types@);
        views_add(items@ + siblings@ + types@, related@);
        views_add(items@ + siblings@ + types@ + related@, area@);
        views_add(items@ + siblings@ + types@ + related@ + area@, named@);
    }
    items.append(&mut siblings);
    items.append(&mut types);
    items.append(&mut related);
    items.append(&mut area);
    items.append(&mut named);
    finalize_related(items, depth, indexed)
}

/// The files related to a symbol, as a store with the writes `h` answers.
pub open spec fn related_files_of_symbol<S: GraphStore>(
    h: Seq<StoreWrite>,
    symbol: Seq<char>,
    depth: usize,
) -> Seq<RelatedView> {
    let indexed = S::all_files_in(h);
    let found = S::symbols_matching_in(h, name_query(symbol));
    finalized(
        symbol_items(
            symbol,
            indexed,
            found,
            flat(declaring_files(symbol, found), |p: Seq<char>| S::project_siblings_in(h, p)),
            S::symbol_type_relations_in(h, symbol),
            S::related_to_symbol_in(h, symbol, depth),
        ),
        depth,
        indexed,
    )
}

/// Related files for a symbol seed, combining graph edges with path heuristics.
///
/// Depth conventions: the declaring file is depth 0; same-directory files,
/// likely tests, area config, and name-substring matches are depth 1. `depth`
/// acts as a ceiling — items deeper than it are dropped, but depth-0 items are
/// always kept.
pub fn related_for_symbol<S: GraphStore>(store: &S, symbol: &str, depth: usize) -> (r: Result<
    Vec<RelatedItem>,
    SynapseError,
>)
    requires
        store.valid(),
    ensures
        S::infallible() ==> r is Ok,
        r matches Ok(v) ==> views(v@) == related_files_of_symbol::<S>(store.history(), symbol@, depth),
{
    let indexed = match store.all_files() {
        Ok(v) => v,
        Err(e) => {
            return Err(e);
        },
    };
    let query = name_search(symbol);
    let found = match store.symbols_matching(&query) {
        Ok(v) => v,
        Err(e) => {
            return Err(e);
        },
    };
    let seed_files = files_declaring(symbol, &found);
    let ghost h = store.history();
    let ghost want = |p: Seq<char>| S::project_siblings_in(h, p);
    let mut siblings: Vec<RelatedItem> = Vec::new();
    let mut i: usize = 0;
    proof {
        take_none(views(seed_files@));
        assert(views(siblings@) =~= Seq::<RelatedView>::empty());
    }
    while i < seed_files.len()
        invariant
            i <= seed_files@.len(),
            store.valid(),
            h == store.history(),
            want == (|p: Seq<char>| S::project_siblings_in(h, p)),
            views(siblings@) == flat(views(seed_files@).take(i as int), want),
        decreases seed_files@.len() - i,
    {
        proof {
            take_next(views(seed_files@), i as int);
        }
        match store.project_siblings(seed_files[i].as_str()) {
            Ok(v) => {
                let mut v = v;
                proof {
                    views_add(siblings@, v@);
                }
                siblings.append(&mut v);
            },
            Err(e) => {
                return Err(e);
            },
        }
        i += 1;
    }
    proof {
        take_whole(views(seed_files@));
    }
    let types = match store.symbol_type_relations(symbol) {
        Ok(v) => v,
        Err(e) => {
            return Err(e);
        },
    };
    let related = match store.related_to_symbol(symbol, depth) {
        Ok(v) => v,
        Err(e) => {
            return Err(e);
        },
    };
    Ok(relate_symbol(symbol, depth, &indexed, &found, siblings, types, related))
}

// --- a file ------------------------------------------------------------------------
/// The lowercase file stem (filename up to its first dot) of a path.
pub open spec fn short_stem(path: Seq<char>) -> Seq<char> {
    lower(before_first(after_last(path, '/'), '.'))
}

/// The lowercase file stem (filename without extension) of a path.
pub fn file_stem(path: &str) -> (r: String)
    ensures
        r@ == short_stem(path@),
{
    let name = text_after_last(path, '/');
    let stem = text_before_first(name.as_str(), '.');
    ascii_lowercase(stem.as_str())
}

/// The other files of the directory, and tests elsewhere that name the file.
pub open spec fn near_file_items(file: Seq<char>, indexed: Seq<FileView>) -> Seq<RelatedView> {
    pick(
        indexed,
        |f: FileView|
            if f.path == file {
                None
            } else if before_last(f.path, '/') == before_last(file, '/') {
                Some(
                    RelatedView {
                        path: f.path,
                        reason: if test_path(f.path) {
                            "test file in the same directory"@
                        } else {
                            "same directory as the seed file"@
                        },
                        depth: 1,
                    },
                )
            } else if short_stem(file).len() > 0 && test_path(f.path) && has(lower(f.path), short_stem(file)) {
                Some(RelatedView { path: f.path, reason: "likely test for the seed file"@, depth: 1 })
            } else {
                None
            },
    )
}

/// Everything related to a file, before de-duplication.
pub open spec fn file_items(
    file: Seq<char>,
    indexed: Seq<FileView>,
    related: Seq<RelatedView>,
    siblings: Seq<RelatedView>,
) -> Seq<RelatedView> {
    let seed = if is_indexed(indexed, file) {
        seq![RelatedView { path: file, reason: "seed file"@, depth: 0 }]
    } else {
        Seq::empty()
    };
    seed + related + siblings + near_file_items(file, indexed)
}

/// The files related to a file, from what the store found.
pub fn relate_file(
    file: &str,
    depth: usize,
    indexed: &Vec<IndexedFile>,
    related: Vec<RelatedItem>,
    siblings: Vec<RelatedItem>,
) -> (r: Vec<RelatedItem>)
    ensures
        views(r@) == finalized(
            file_items(file@, views(indexed@), views(related@), views(siblings@)),
            depth,
            views(indexed@),
        ),
{
    let mut items: Vec<RelatedItem> = Vec::new();
    if has_file(indexed, file) {
        items.push(RelatedItem { path: file.to_owned(), reason: "seed file".to_owned(), depth: 0 });
    }
    let ghost seed = if is_indexed(views(indexed@), file@) {
        seq![RelatedView { path: file@, reason: "seed file"@, depth: 0 }]
    } else {
        Seq::empty()
    };
    assert(views(items@) =~= seed);
    let dir = parent_dir(file);
    let dir = dir.as_str();
    let stem = file_stem(file);
    let stem = stem.as_str();
    let ghost want = |f: FileView|
        if f.path == file@ {
            None
        } else if before_last(f.path, '/') == before_last(file@, '/') {
            Some(
                RelatedView {
                    path: f.path,
                    reason: if test_path(f.path) {
                        "test file in the same directory"@
                    } else {
                        "same directory as the seed file"@
                    },
                    depth: 1,
                },
            )
        } else if short_stem(file@).len() > 0 && test_path(f.path) && has(lower(f.path), short_stem(file@)) {
            Some(RelatedView { path: f.path, reason: "likely test for the seed file"@, depth: 1 })
        } else {
            None
        };
    let f = |f: &IndexedFile| -> (r: Option<RelatedItem>)
        ensures
            opt_view(r) == want(f@),
        {
            if same(f.path.as_str(), file) {
                return None;
            }
            let file_dir = parent_dir(f.path.as_str());
            if same(file_dir.as_str(), dir) {
                let reason = if is_test_file(f.path.as_str()) {
                    "test file in the same directory"
                } else {
                    "same directory as the seed file"
                };
                return Some(RelatedItem { path: f.path.clone(), reason: reason.to_owned(), depth: 1 });
            }
            let path = ascii_lowercase(f.path.as_str());
            if !stem.is_empty() && is_test_file(f.path.as_str()) && contains(path.as_str(), stem) {
                Some(
                    RelatedItem {
                        path: f.path.clone(),
                        reason: "likely test for the seed file".to_owned(),
                        depth: 1,
                    },
                )
            } else {
                None
            }
        };
    let mut near = pick_views(indexed, f, Ghost(want));
    let mut related = related;
    let mut siblings = siblings;
    proof {
        views_add(items@, related@);
        views_add(items@ + related@, siblings@);
        views_add(items@ + related@ + siblings@, near@);
    }
    items.append(&mut related);
    items.append(&mut siblings);
    items.append(&mut near);
    finalize_related(items, depth, indexed)
}

/// The files related to a file, as a store with the writes `h` answers.
pub open spec fn related_files_of_file<S: GraphStore>(
    h: Seq<StoreWrite>,
    file: Seq<char>,
    depth: usize,
) -> Seq<RelatedView> {
    let indexed = S::all_files_in(h);
    finalized(
        file_items(file, indexed, S::related_to_file_in(h, file, depth), S::project_siblings_in(h, file)),
        depth,
        indexed,
    )
}

/// Related files for a file seed: the seed (depth 0), same-directory files and
/// matching tests (depth 1), combined with graph edges from the store.
pub fn related_for_file<S: GraphStore>(store: &S, file: &str, depth: usize) -> (r: Result<
    Vec<RelatedItem>,
    SynapseError,
>)
    requires
        store.valid(),
    ensures
        S::infallible() ==> r is Ok,
        r matches Ok(v) ==> views(v@) == related_files_of_file::<S>(store.history(), file@, depth),
{
    let indexed = match store.all_files() {
        Ok(v) => v,
        Err(e) => {
            return Err(e);
        },
    };
    let related = match store.related_to_file(file, depth) {
        Ok(v) => v,
        Err(e) => {
            return Err(e);
        },
    };
    let siblings = match store.project_siblings(file) {
        Ok(v) => v,
        Err(e) => {
            return Err(e);
        },
    };
    Ok(relate_file(file, depth, &indexed, related, siblings))
}

} // verus!
