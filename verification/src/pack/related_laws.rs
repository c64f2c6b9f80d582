//! What the lists of related files hold: everything that their sources tell.

use crate::graph::model::{FileView, RelatedView, SymbolView};
use crate::graph::store::{GraphStore, StoreWrite};
use crate::indexer::languages::{config_path_name, test_path};
use crate::lists::{flat, flat_members, made, made_is_picked, makes, pick, picked_from, sorted_set_laws};
use crate::pack::laws::related_list_is_ordered;
use crate::pack::related::{
    area_items, declaring_dirs, declaring_files, declaring_items, file_items, finalized, named_items,
    near_file_items, related_files_of_file, related_files_of_symbol, short_stem, specificity, symbol_items, within,
};
use crate::pack::selector::{is_indexed, name_query};
use crate::text::{after_last, before_first, before_last, has, lower};
use vstd::prelude::*;

verus! {

/// The path is that of an indexed file.
pub open spec fn at_indexed_path(indexed: Seq<FileView>, path: Seq<char>) -> bool {
    exists|f: FileView| #[trigger] indexed.contains(f) && f.path == path
}

proof fn indexed_means_indexed(indexed: Seq<FileView>, path: Seq<char>)
    ensures
        is_indexed(indexed, path) <==> at_indexed_path(indexed, path),
{
    if is_indexed(indexed, path) {
        let i = choose|i: int| 0 <= i < indexed.len() && (#[trigger] indexed[i]).path == path;
        assert(indexed.contains(indexed[i]));
    }
    if at_indexed_path(indexed, path) {
        let f = choose|f: FileView| #[trigger] indexed.contains(f) && f.path == path;
        assert(indexed[indexed.index_of(f)].path == path);
    }
}

/// The list has an item at the path, at that distance or nearer.
pub open spec fn shows(list: Seq<RelatedView>, path: Seq<char>, depth: usize) -> bool {
    exists|x: RelatedView| #[trigger] list.contains(x) && x.path == path && x.depth <= depth
}

proof fn item_is_shown(items: Seq<RelatedView>, depth: usize, indexed: Seq<FileView>, y: RelatedView)
    requires
        items.contains(y),
        at_indexed_path(indexed, y.path),
        y.depth == 0 || y.depth <= depth,
    ensures
        shows(finalized(items, depth, indexed), y.path, y.depth),
{
    indexed_means_indexed(indexed, y.path);
    related_list_is_ordered(items, depth, indexed);
    assert(within(indexed, depth, y));
    let list = finalized(items, depth, indexed);
    let x = choose|x: RelatedView| #[trigger] list.contains(x) && x.path == y.path;
    assert(list.contains(x) && x.path == y.path && x.depth <= y.depth);
}

proof fn in_sum<T>(parts: Seq<T>, a: Seq<T>, b: Seq<T>, x: T)
    requires
        parts == a + b,
    ensures
        parts.contains(x) <==> a.contains(x) || b.contains(x),
{
    if a.contains(x) {
        assert(parts[a.index_of(x)] == x);
    }
    if b.contains(x) {
        assert(parts[a.len() + b.index_of(x)] == x);
    }
    if parts.contains(x) {
        let i = parts.index_of(x);
        if i < a.len() {
            assert(a[i] == x);
        } else {
            assert(b[i - a.len()] == x);
        }
    }
}

/// A file that declares the symbol, in any case of its letters.
pub open spec fn declares_it(symbol: Seq<char>, found: Seq<SymbolView>, path: Seq<char>) -> bool {
    exists|s: SymbolView| #[trigger] found.contains(s) && lower(s.name) == lower(symbol) && s.file_path == path
}

proof fn declaring(symbol: Seq<char>, found: Seq<SymbolView>, x: RelatedView)
    ensures
        declaring_items(symbol, found).contains(x) <==> declares_it(symbol, found, x.path) && x.depth == 0 && x.reason
            == "declares `"@ + symbol + "`"@,
{
    let f = |s: SymbolView|
        if lower(s.name) == lower(symbol) {
            Some(RelatedView { path: s.file_path, reason: "declares `"@ + symbol + "`"@, depth: 0 })
        } else {
            None
        };
    let items = declaring_items(symbol, found);
    assert(items == pick(found, f));
    if items.contains(x) {
        picked_from(found, f);
        assert(made(found, f, items[items.index_of(x)]));
        let s = choose|s: SymbolView| #[trigger] found.contains(s) && f(s) == Some(x);
        assert(lower(s.name) == lower(symbol) && s.file_path == x.path);
    }
    if declares_it(symbol, found, x.path) && x.depth == 0 && x.reason == "declares `"@ + symbol + "`"@ {
        let s = choose|s: SymbolView| #[trigger]
            found.contains(s) && lower(s.name) == lower(symbol) && s.file_path == x.path;
        assert(f(s) == Some(x));
        assert(made(found, f, x));
        made_is_picked(found, f, x);
    }
}

proof fn declaring_files_are(symbol: Seq<char>, found: Seq<SymbolView>, path: Seq<char>)
    ensures
        declaring_files(symbol, found).contains(path) <==> declares_it(symbol, found, path),
{
    let items = declaring_items(symbol, found);
    let paths = items.map_values(|i: RelatedView| i.path);
    sorted_set_laws(paths);
    if paths.contains(path) {
        let k = paths.index_of(path);
        assert(items.contains(items[k]));
        declaring(symbol, found, items[k]);
    }
    if declares_it(symbol, found, path) {
        let x = RelatedView { path, reason: "declares `"@ + symbol + "`"@, depth: 0 };
        declaring(symbol, found, x);
        assert(paths[items.index_of(x)] == path);
    }
}

/// A directory that the area of a symbol is made of: that of a file that declares
/// it, or that the graph puts at distance zero.
pub open spec fn area_dir(symbol: Seq<char>, found: Seq<SymbolView>, related: Seq<RelatedView>, dir: Seq<char>) -> bool {
    (exists|path: Seq<char>| #[trigger] declares_it(symbol, found, path) && before_last(path, '/') == dir) || (exists|
        x: RelatedView,
    | #[trigger] related.contains(x) && x.depth == 0 && before_last(x.path, '/') == dir)
}

proof fn declaring_dirs_are(symbol: Seq<char>, found: Seq<SymbolView>, related: Seq<RelatedView>, dir: Seq<char>)
    ensures
        declaring_dirs(symbol, found, related).contains(dir) <==> area_dir(symbol, found, related, dir),
{
    let items = declaring_items(symbol, found);
    let a = items.map_values(|i: RelatedView| before_last(i.path, '/'));
    let f = |i: RelatedView|
        if i.depth == 0 {
            Some(before_last(i.path, '/'))
        } else {
            None
        };
    let b = pick(related, f);
    sorted_set_laws(a + b);
    in_sum(a + b, a, b, dir);
    if a.contains(dir) {
        let k = a.index_of(dir);
        assert(items.contains(items[k]));
        declaring(symbol, found, items[k]);
        assert(declares_it(symbol, found, items[k].path) && before_last(items[k].path, '/') == dir);
    }
    if b.contains(dir) {
        picked_from(related, f);
        assert(made(related, f, b[b.index_of(dir)]));
        let x = choose|x: RelatedView| #[trigger] related.contains(x) && f(x) == Some(dir);
        assert(related.contains(x) && x.depth == 0);
    }
    if exists|path: Seq<char>| #[trigger] declares_it(symbol, found, path) && before_last(path, '/') == dir {
        let path = choose|path: Seq<char>| #[trigger]
            declares_it(symbol, found, path) && before_last(path, '/') == dir;
        let x = RelatedView { path, reason: "declares `"@ + symbol + "`"@, depth: 0 };
        declaring(symbol, found, x);
        assert(a[items.index_of(x)] == dir);
    }
    if exists|x: RelatedView| #[trigger] related.contains(x) && x.depth == 0 && before_last(x.path, '/') == dir {
        let x = choose|x: RelatedView| #[trigger]
            related.contains(x) && x.depth == 0 && before_last(x.path, '/') == dir;
        assert(f(x) == Some(dir));
        assert(made(related, f, dir));
        made_is_picked(related, f, dir);
    }
}

/// A file of the area is told as a test, as configuration, or as a neighbour.
pub open spec fn area_reason(path: Seq<char>) -> Seq<char> {
    if test_path(path) {
        "test file in the same directory"@
    } else if config_path_name(path) {
        "config/registration file in the area"@
    } else {
        "same directory as a declaring file"@
    }
}

proof fn area_items_are(dir: Seq<char>, indexed: Seq<FileView>, x: RelatedView)
    ensures
        area_items(dir, indexed).contains(x) <==> at_indexed_path(indexed, x.path) && before_last(x.path, '/') == dir
            && x.depth == 1 && x.reason == area_reason(x.path),
{
    let f = |f: FileView|
        if before_last(f.path, '/') == dir {
            Some(
                RelatedView {
                    path: f.path,
                    reason: if test_path(f.path) {
                        "test file in the same directory"@
                    } else if config_path_name(f.path) {
                        "config/registration file in the area"@
                    } else {
                        "same directory as a declaring file"@
                    },
                    depth: 1,
                },
            )
        } else {
            None
        };
    let items = area_items(dir, indexed);
    assert(items == pick(indexed, f));
    if items.contains(x) {
        picked_from(indexed, f);
        assert(made(indexed, f, items[items.index_of(x)]));
        let g = choose|g: FileView| #[trigger] indexed.contains(g) && f(g) == Some(x);
        assert(indexed.contains(g) && g.path == x.path);
    }
    if at_indexed_path(indexed, x.path) && before_last(x.path, '/') == dir && x.depth == 1 && x.reason == area_reason(
        x.path,
    ) {
        let g = choose|g: FileView| #[trigger] indexed.contains(g) && g.path == x.path;
        assert(f(g) == Some(x));
        assert(made(indexed, f, x));
        made_is_picked(indexed, f, x);
    }
}

/// A file that the symbol's name occurs in the path of.
pub open spec fn name_reason(symbol: Seq<char>, path: Seq<char>) -> Seq<char> {
    if test_path(path) {
        "likely test for `"@ + symbol + "`"@
    } else {
        "path contains `"@ + symbol + "`"@
    }
}

proof fn named_items_are(symbol: Seq<char>, indexed: Seq<FileView>, x: RelatedView)
    ensures
        named_items(symbol, indexed).contains(x) <==> symbol.len() > 0 && at_indexed_path(indexed, x.path) && has(
            lower(x.path),
            lower(symbol),
        ) && x.depth == 1 && x.reason == name_reason(symbol, x.path),
{
    let items = named_items(symbol, indexed);
    if symbol.len() > 0 {
        let f = |f: FileView|
            if has(lower(f.path), lower(symbol)) {
                Some(
                    RelatedView {
                        path: f.path,
                        reason: if test_path(f.path) {
                            "likely test for `"@ + symbol + "`"@
                        } else {
                            "path contains `"@ + symbol + "`"@
                        },
                        depth: 1,
                    },
                )
            } else {
                None
            };
        assert(items == pick(indexed, f));
        if items.contains(x) {
            picked_from(indexed, f);
            assert(made(indexed, f, items[items.index_of(x)]));
            let g = choose|g: FileView| #[trigger] indexed.contains(g) && f(g) == Some(x);
            assert(indexed.contains(g) && g.path == x.path);
        }
        if at_indexed_path(indexed, x.path) && has(lower(x.path), lower(symbol)) && x.depth == 1 && x.reason
            == name_reason(symbol, x.path) {
            let g = choose|g: FileView| #[trigger] indexed.contains(g) && g.path == x.path;
            assert(f(g) == Some(x));
            assert(made(indexed, f, x));
            made_is_picked(indexed, f, x);
        }
    }
}

/// `x` is what one of the sources tells of a symbol: a file that declares it, a
/// project sibling, a type relation, a graph relationship, a file of its area, or a
/// file whose path holds its name.
pub open spec fn told_of_symbol(
    symbol: Seq<char>,
    indexed: Seq<FileView>,
    found: Seq<SymbolView>,
    siblings: Seq<RelatedView>,
    types: Seq<RelatedView>,
    related: Seq<RelatedView>,
    x: RelatedView,
) -> bool {
    ||| declares_it(symbol, found, x.path) && x.depth == 0 && x.reason == "declares `"@ + symbol + "`"@
    ||| siblings.contains(x)
    ||| types.contains(x)
    ||| related.contains(x)
    ||| at_indexed_path(indexed, x.path) && area_dir(symbol, found, related, before_last(x.path, '/')) && x.depth == 1
        && x.reason == area_reason(x.path)
    ||| symbol.len() > 0 && at_indexed_path(indexed, x.path) && has(lower(x.path), lower(symbol)) && x.depth == 1
        && x.reason == name_reason(symbol, x.path)
}

proof fn symbol_items_are(
    symbol: Seq<char>,
    indexed: Seq<FileView>,
    found: Seq<SymbolView>,
    siblings: Seq<RelatedView>,
    types: Seq<RelatedView>,
    related: Seq<RelatedView>,
    x: RelatedView,
)
    ensures
        symbol_items(symbol, indexed, found, siblings, types, related).contains(x) <==> told_of_symbol(
            symbol,
            indexed,
            found,
            siblings,
            types,
            related,
            x,
        ),
{
    let d = declaring_items(symbol, found);
    let dirs = declaring_dirs(symbol, found, related);
    let f = |dir: Seq<char>| area_items(dir, indexed);
    let area = flat(dirs, f);
    let named = named_items(symbol, indexed);
    in_sum(d + siblings, d, siblings, x);
    in_sum(d + siblings + types, d + siblings, types, x);
    in_sum(d + siblings + types + related, d + siblings + types, related, x);
    in_sum(d + siblings + types + related + area, d + siblings + types + related, area, x);
    in_sum(d + siblings + types + related + area + named, d + siblings + types + related + area, named, x);
    assert(symbol_items(symbol, indexed, found, siblings, types, related) =~= d + siblings + types + related + area
        + named);
    declaring(symbol, found, x);
    named_items_are(symbol, indexed, x);
    flat_members(dirs, f, x);
    let dir = before_last(x.path, '/');
    declaring_dirs_are(symbol, found, related, dir);
    area_items_are(dir, indexed, x);
    if makes(dirs, f, x) {
        let e = choose|e: Seq<char>| #[trigger] dirs.contains(e) && f(e).contains(x);
        area_items_are(e, indexed, x);
    }
    if dirs.contains(dir) && f(dir).contains(x) {
        assert(makes(dirs, f, x));
    }
}

/// Whatever the sources tell of a symbol, at an indexed path and within the depth
/// that was asked for, is shown at that distance or nearer; and everything shown was
/// told.
pub proof fn everything_told_of_a_symbol_is_shown(
    symbol: Seq<char>,
    depth: usize,
    indexed: Seq<FileView>,
    found: Seq<SymbolView>,
    siblings: Seq<RelatedView>,
    types: Seq<RelatedView>,
    related: Seq<RelatedView>,
    x: RelatedView,
)
    ensures
        ({
            let list = finalized(
                symbol_items(symbol, indexed, found, siblings, types, related),
                depth,
                indexed,
            );
            let told = told_of_symbol(symbol, indexed, found, siblings, types, related, x);
            &&& told && at_indexed_path(indexed, x.path) && (x.depth == 0 || x.depth <= depth) ==> shows(
                list,
                x.path,
                x.depth,
            )
            &&& list.contains(x) ==> told && at_indexed_path(indexed, x.path) && (x.depth == 0 || x.depth <= depth)
        }),
{
    let items = symbol_items(symbol, indexed, found, siblings, types, related);
    symbol_items_are(symbol, indexed, found, siblings, types, related, x);
    indexed_means_indexed(indexed, x.path);
    related_list_is_ordered(items, depth, indexed);
    if items.contains(x) && at_indexed_path(indexed, x.path) && (x.depth == 0 || x.depth <= depth) {
        item_is_shown(items, depth, indexed, x);
    }
}

/// The files related to a symbol, as a store answers: every indexed file that
/// declares it is there at distance zero, and so is, within the depth, every type
/// relation, every graph relationship, every project sibling of a declaring file,
/// every other file in the directory of one, and every file whose path holds the
/// name.
pub proof fn related_files_of_a_symbol_are_complete<S: GraphStore>(
    h: Seq<StoreWrite>,
    symbol: Seq<char>,
    depth: usize,
    x: RelatedView,
    path: Seq<char>,
    other: Seq<char>,
)
    requires
        at_indexed_path(S::all_files_in(h), x.path),
        at_indexed_path(S::all_files_in(h), path),
        x.depth <= depth,
        depth >= 1,
    ensures
        ({
            let list = related_files_of_symbol::<S>(h, symbol, depth);
            let found = S::symbols_matching_in(h, name_query(symbol));
            &&& declares_it(symbol, found, path) ==> shows(list, path, 0)
            &&& S::symbol_type_relations_in(h, symbol).contains(x) ==> shows(list, x.path, x.depth)
            &&& S::related_to_symbol_in(h, symbol, depth).contains(x) ==> shows(list, x.path, x.depth)
            &&& declares_it(symbol, found, other) && S::project_siblings_in(h, other).contains(x) ==> shows(
                list,
                x.path,
                x.depth,
            )
            &&& declares_it(symbol, found, other) && before_last(path, '/') == before_last(other, '/') ==> shows(
                list,
                path,
                1,
            )
            &&& symbol.len() > 0 && has(lower(path), lower(symbol)) ==> shows(list, path, 1)
        }),
{
    let indexed = S::all_files_in(h);
    let found = S::symbols_matching_in(h, name_query(symbol));
    let f = |p: Seq<char>| S::project_siblings_in(h, p);
    let files = declaring_files(symbol, found);
    let siblings = flat(files, f);
    let types = S::symbol_type_relations_in(h, symbol);
    let related = S::related_to_symbol_in(h, symbol, depth);
    everything_told_of_a_symbol_is_shown(symbol, depth, indexed, found, siblings, types, related, x);
    flat_members(files, f, x);
    declaring_files_are(symbol, found, other);
    if declares_it(symbol, found, other) && S::project_siblings_in(h, other).contains(x) {
        assert(files.contains(other) && f(other).contains(x));
        assert(makes(files, f, x));
    }
    let d = RelatedView { path, reason: "declares `"@ + symbol + "`"@, depth: 0 };
    everything_told_of_a_symbol_is_shown(symbol, depth, indexed, found, siblings, types, related, d);
    let a = RelatedView { path, reason: area_reason(path), depth: 1 };
    everything_told_of_a_symbol_is_shown(symbol, depth, indexed, found, siblings, types, related, a);
    let n = RelatedView { path, reason: name_reason(symbol, path), depth: 1 };
    everything_told_of_a_symbol_is_shown(symbol, depth, indexed, found, siblings, types, related, n);
}

// --- a file -------------------------------------------------------------------------------------
/// `x` is what one of the sources tells of a file: the file itself, a graph
/// relationship, a project sibling, another file of its directory, or a test
/// elsewhere whose path holds the start of its name.
pub open spec fn told_of_file(
    file: Seq<char>,
    indexed: Seq<FileView>,
    related: Seq<RelatedView>,
    siblings: Seq<RelatedView>,
    x: RelatedView,
) -> bool {
    let stem = lower(before_first(after_last(file, '/'), '.'));
    ||| at_indexed_path(indexed, file) && x == (RelatedView { path: file, reason: "seed file"@, depth: 0 })
    ||| related.contains(x)
    ||| siblings.contains(x)
    ||| at_indexed_path(indexed, x.path) && x.path != file && x.depth == 1 && (if before_last(x.path, '/')
        == before_last(file, '/') {
        x.reason == (if test_path(x.path) {
            "test file in the same directory"@
        } else {
            "same directory as the seed file"@
        })
    } else {
        stem.len() > 0 && test_path(x.path) && has(lower(x.path), stem) && x.reason == "likely test for the seed file"@
    })
}

proof fn near_file_items_are(file: Seq<char>, indexed: Seq<FileView>, x: RelatedView)
    ensures
        near_file_items(file, indexed).contains(x) <==> at_indexed_path(indexed, x.path) && x.path != file && x.depth
            == 1 && (if before_last(x.path, '/') == before_last(file, '/') {
            x.reason == (if test_path(x.path) {
                "test file in the same directory"@
            } else {
                "same directory as the seed file"@
            })
        } else {
            short_stem(file).len() > 0 && test_path(x.path) && has(lower(x.path), short_stem(file)) && x.reason
                == "likely test for the seed file"@
        }),
{
    let f = |f: FileView|
        if f.path == file {
            None
        } else if before_last(f.path, '/') == before_last(file, '/') {
            Some(
                RelatedView {
                    path: f.path,
                    reason: if test_path(f.path) {
                        "test file in the same directory"@
                    } else {
                        "same directory as the seed file"@
                    },
                    depth: 1,
                },
            )
        } else if short_stem(file).len() > 0 && test_path(f.path) && has(lower(f.path), short_stem(file)) {
            Some(RelatedView { path: f.path, reason: "likely test for the seed file"@, depth: 1 })
        } else {
            None
        };
    let items = near_file_items(file, indexed);
    assert(items == pick(indexed, f));
    if items.contains(x) {
        picked_from(indexed, f);
        assert(made(indexed, f, items[items.index_of(x)]));
        let g = choose|g: FileView| #[trigger] indexed.contains(g) && f(g) == Some(x);
        assert(indexed.contains(g) && g.path == x.path);
    }
    if at_indexed_path(indexed, x.path) {
        let g = choose|g: FileView| #[trigger] indexed.contains(g) && g.path == x.path;
        if f(g) == Some(x) {
            assert(made(indexed, f, x));
            made_is_picked(indexed, f, x);
        }
    }
}

/// Whatever the sources tell of a file, at an indexed path and within the depth that
/// was asked for, is shown at that distance or nearer; and everything shown was told.
pub proof fn everything_told_of_a_file_is_shown(
    file: Seq<char>,
    depth: usize,
    indexed: Seq<FileView>,
    related: Seq<RelatedView>,
    siblings: Seq<RelatedView>,
    x: RelatedView,
)
    ensures
        ({
            let list = finalized(file_items(file, indexed, related, siblings), depth, indexed);
            let told = told_of_file(file, indexed, related, siblings, x);
            &&& told && at_indexed_path(indexed, x.path) && (x.depth == 0 || x.depth <= depth) ==> shows(
                list,
                x.path,
                x.depth,
            )
            &&& list.contains(x) ==> told && at_indexed_path(indexed, x.path) && (x.depth == 0 || x.depth <= depth)
        }),
{
    let items = file_items(file, indexed, related, siblings);
    indexed_means_indexed(indexed, file);
    indexed_means_indexed(indexed, x.path);
    near_file_items_are(file, indexed, x);
    let seed = if is_indexed(indexed, file) {
        seq![RelatedView { path: file, reason: "seed file"@, depth: 0 }]
    } else {
        Seq::empty()
    };
    let near = near_file_items(file, indexed);
    in_sum(seed + related, seed, related, x);
    in_sum(seed + related + siblings, seed + related, siblings, x);
    in_sum(seed + related + siblings + near, seed + related + siblings, near, x);
    assert(items =~= seed + related + siblings + near);
    if seed.len() > 0 {
        assert(seed[0] == (RelatedView { path: file, reason: "seed file"@, depth: 0 }));
        assert(seed.contains(seed[0]));
    }
    if seed.contains(x) {
        assert(seed[seed.index_of(x)] == x);
    }
    related_list_is_ordered(items, depth, indexed);
    if items.contains(x) && at_indexed_path(indexed, x.path) && (x.depth == 0 || x.depth <= depth) {
        item_is_shown(items, depth, indexed, x);
    }
}

/// The files related to a file, as a store answers: the file itself, where it is
/// indexed, and within the depth every graph relationship, every project sibling and
/// every other indexed file of its directory.
pub proof fn related_files_of_a_file_are_complete<S: GraphStore>(
    h: Seq<StoreWrite>,
    file: Seq<char>,
    depth: usize,
    x: RelatedView,
    path: Seq<char>,
)
    requires
        at_indexed_path(S::all_files_in(h), x.path),
        at_indexed_path(S::all_files_in(h), path),
        x.depth <= depth,
        depth >= 1,
    ensures
        ({
            let list = related_files_of_file::<S>(h, file, depth);
            &&& at_indexed_path(S::all_files_in(h), file) ==> shows(list, file, 0)
            &&& S::related_to_file_in(h, file, depth).contains(x) ==> shows(list, x.path, x.depth)
            &&& S::project_siblings_in(h, file).contains(x) ==> shows(list, x.path, x.depth)
            &&& path != file && before_last(path, '/') == before_last(file, '/') ==> shows(list, path, 1)
        }),
{
    let indexed = S::all_files_in(h);
    let related = S::related_to_file_in(h, file, depth);
    let siblings = S::project_siblings_in(h, file);
    everything_told_of_a_file_is_shown(file, depth, indexed, related, siblings, x);
    let seed = RelatedView { path: file, reason: "seed file"@, depth: 0 };
    everything_told_of_a_file_is_shown(file, depth, indexed, related, siblings, seed);
    let near = RelatedView {
        path,
        reason: if test_path(path) {
            "test file in the same directory"@
        } else {
            "same directory as the seed file"@
        },
        depth: 1,
    };
    everything_told_of_a_file_is_shown(file, depth, indexed, related, siblings, near);
}

// --- which reason is told -------------------------------------------------------------------------
/// A reason that tells an edge of the graph.
pub open spec fn tells_an_edge(reason: Seq<char>) -> bool {
    ||| exists|rest: Seq<char>| reason == #[trigger] ("references"@ + rest)
    ||| has(reason, "inherits"@)
    ||| has(reason, "implement"@)
    ||| has(reason, "base type"@)
    ||| has(reason, "subtype"@)
}

/// A reason that tells a test, or a name found in a path.
pub open spec fn tells_a_likeness(reason: Seq<char>) -> bool {
    ||| has(reason, "test"@)
    ||| exists|rest: Seq<char>| reason == #[trigger] ("path contains"@ + rest)
}

/// Among reasons at one distance a declaration outranks an edge of the graph, an edge a
/// likeness, and a likeness everything else.
pub proof fn explicit_reasons_outrank_others(
    declares: Seq<char>,
    edge: Seq<char>,
    likeness: Seq<char>,
    other: Seq<char>,
)
    requires
        tells_an_edge(edge),
        !("declares"@.is_prefix_of(edge)),
        tells_a_likeness(likeness),
        !("declares"@.is_prefix_of(likeness)),
        !(tells_an_edge(likeness)),
        !("declares"@.is_prefix_of(other)),
        !(tells_an_edge(other)),
        !(tells_a_likeness(other)),
    ensures
        specificity("declares"@ + declares) > specificity(edge),
        specificity(edge) > specificity(likeness),
        specificity(likeness) > specificity(other),
{
    assert("declares"@ =~= ("declares"@ + declares).take("declares"@.len() as int));
    starts_with_it("references"@, edge);
    starts_with_it("references"@, likeness);
    starts_with_it("references"@, other);
    starts_with_it("path contains"@, likeness);
    starts_with_it("path contains"@, other);
}

proof fn starts_with_it(p: Seq<char>, s: Seq<char>)
    ensures
        p.is_prefix_of(s) <==> exists|rest: Seq<char>| s == #[trigger] (p + rest),
{
    if p.is_prefix_of(s) {
        assert(s =~= p + s.skip(p.len() as int));
    }
    if exists|rest: Seq<char>| s == #[trigger] (p + rest) {
        let rest = choose|rest: Seq<char>| s == #[trigger] (p + rest);
        assert(p =~= s.take(p.len() as int));
    }
}

/// The reasons that the graph gives are of those ranks.
pub proof fn reasons_of_the_graph_are_ranked(symbol: Seq<char>)
    ensures
        specificity("declares `"@ + symbol + "`"@) == 4,
        specificity("references "@ + symbol) == 3,
        specificity("base type (inherits)"@) == 3,
        specificity("subtype (inherits)"@) == 3,
        specificity("implemented interface/trait"@) == 3,
        specificity("implementor"@) == 3,
        specificity("likely test for the seed file"@) >= 2,
{
    let a = "declares `"@ + symbol + "`"@;
    let b = "references "@ + symbol;
    reveal_strlit("declares");
    reveal_strlit("declares `");
    reveal_strlit("references");
    reveal_strlit("references ");
    assert("declares"@ =~= a.take(8));
    assert("references"@ =~= b.take(10));
    assert(b[0] == 'r');
    reveal_strlit("inherits");
    reveal_strlit("implement");
    reveal_strlit("test");
    let c = "base type (inherits)"@;
    reveal_strlit("base type (inherits)");
    assert(c.subrange(11, 19) =~= "inherits"@);
    assert(crate::text::occurs_at(c, "inherits"@, 11));
    let d = "subtype (inherits)"@;
    reveal_strlit("subtype (inherits)");
    assert(d.subrange(9, 17) =~= "inherits"@);
    assert(crate::text::occurs_at(d, "inherits"@, 9));
    let e = "implemented interface/trait"@;
    reveal_strlit("implemented interface/trait");
    assert(e.subrange(0, 9) =~= "implement"@);
    assert(crate::text::occurs_at(e, "implement"@, 0));
    let f = "implementor"@;
    reveal_strlit("implementor");
    assert(f.subrange(0, 9) =~= "implement"@);
    assert(crate::text::occurs_at(f, "implement"@, 0));
    let g = "likely test for the seed file"@;
    reveal_strlit("likely test for the seed file");
    assert(g.subrange(7, 11) =~= "test"@);
    assert(crate::text::occurs_at(g, "test"@, 7));
    assert(c[0] == 'b' && d[0] == 's' && e[0] == 'i' && f[0] == 'i' && "declares"@[0] == 'd');
    assert(c.take(8)[0] == 'b' && d.take(8)[0] == 's' && e.take(8)[0] == 'i' && f.take(8)[0] == 'i' && b.take(8)[0] == 'r');
}

} // verus!
