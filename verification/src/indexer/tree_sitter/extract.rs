//! Symbol extraction for every language.

use crate::graph::model::{IndexedSymbol, Language, SymbolView};
use crate::indexer::languages::{is_jsx, jsx_path};
use crate::indexer::syntax::{parses, query_matches, CaptureView, Grammar};
use crate::indexer::tree::{tree_of, SyntaxTree};
use crate::indexer::tree_sitter::data::{
    json_symbols, json_symbols_of, markdown_symbols, markdown_symbols_of, yaml_symbols, yaml_symbols_of,
};
use crate::indexer::tree_sitter::script::{
    extract_js_ts_core, js_ts_grammar, script_extraction, script_grammar, svelte_symbols, svelte_symbols_of,
};
use crate::indexer::tree_sitter::symbols::{
    bash_symbol, bash_symbols, csharp_symbol, csharp_symbols, from_matches, go_symbol, go_symbols, python_symbol,
    python_symbols, rust_symbol, rust_symbols, BASH_QUERY, CSHARP_QUERY, GO_QUERY, PYTHON_QUERY, RUST_QUERY,
};
use crate::lists::{dedup_views, sort_views, text_le_transitive};
use crate::sorting::{dedup, sorted, stable_sort, stable_sort_keeps, stable_sort_sorted, total_preorder};
use crate::text::{before, same, text_le, text_lt, text_lt_asymmetric, text_lt_laws, text_lt_total, views};
use vstd::prelude::*;

verus! {

/// The matches of a query in a text, where it can be parsed and queried.
pub open spec fn queried(g: Grammar, text: Seq<char>, query: Seq<char>) -> Option<Seq<Seq<CaptureView>>> {
    if parses(g, text) {
        query_matches(g, text, query)
    } else {
        None
    }
}

/// The symbols found in a text, in the order they are found; none where it cannot
/// be parsed.
pub open spec fn symbols_in(path: Seq<char>, lang: Language, text: Seq<char>) -> Seq<SymbolView> {
    match lang {
        Language::Rust => match queried(Grammar::Rust, text, RUST_QUERY@) {
            Some(m) => {
                let t = tree_of(Grammar::Rust, text);
                from_matches(t, m, |d: CaptureView, name: Seq<char>| rust_symbol(t, path, d, name))
            },
            None => Seq::empty(),
        },
        Language::CSharp => match queried(Grammar::CSharp, text, CSHARP_QUERY@) {
            Some(m) => {
                let t = tree_of(Grammar::CSharp, text);
                from_matches(t, m, |d: CaptureView, name: Seq<char>| csharp_symbol(t, path, d, name))
            },
            None => Seq::empty(),
        },
        Language::Python => match queried(Grammar::Python, text, PYTHON_QUERY@) {
            Some(m) => {
                let t = tree_of(Grammar::Python, text);
                from_matches(t, m, |d: CaptureView, name: Seq<char>| python_symbol(path, d, name))
            },
            None => Seq::empty(),
        },
        Language::Go => match queried(Grammar::Go, text, GO_QUERY@) {
            Some(m) => {
                let t = tree_of(Grammar::Go, text);
                from_matches(t, m, |d: CaptureView, name: Seq<char>| go_symbol(t, path, d, name))
            },
            None => Seq::empty(),
        },
        Language::JavaScript | Language::TypeScript => match script_extraction(
            path,
            script_grammar(path, lang),
            lang,
            lang,
            text,
            0,
            jsx_path(path),
        ) {
            Some(v) => v,
            None => Seq::empty(),
        },
        Language::Svelte => if parses(Grammar::Svelte, text) {
            svelte_symbols_of(tree_of(Grammar::Svelte, text), path)
        } else {
            Seq::empty()
        },
        Language::Bash => match queried(Grammar::Bash, text, BASH_QUERY@) {
            Some(m) => {
                let t = tree_of(Grammar::Bash, text);
                from_matches(t, m, |d: CaptureView, name: Seq<char>| bash_symbol(path, d, name))
            },
            None => Seq::empty(),
        },
        Language::Yaml => if parses(Grammar::Yaml, text) {
            yaml_symbols_of(tree_of(Grammar::Yaml, text), path)
        } else {
            Seq::empty()
        },
        Language::Json => if parses(Grammar::Json, text) {
            json_symbols_of(tree_of(Grammar::Json, text), path)
        } else {
            Seq::empty()
        },
        Language::Markdown => if parses(Grammar::Markdown, text) {
            markdown_symbols_of(tree_of(Grammar::Markdown, text), path)
        } else {
            Seq::empty()
        },
        Language::Other => Seq::empty(),
    }
}

/// By start line, then name, then the name of the kind.
pub open spec fn line_name_kind_order() -> spec_fn(SymbolView, SymbolView) -> bool {
    |a: SymbolView, b: SymbolView|
        a.start_line < b.start_line || (a.start_line == b.start_line && (text_lt(a.name, b.name) || (a.name == b.name
            && text_le(a.kind.name(), b.kind.name()))))
}

pub open spec fn same_place() -> spec_fn(SymbolView, SymbolView) -> bool {
    |a: SymbolView, b: SymbolView| a.name == b.name && a.start_line == b.start_line && a.kind == b.kind
}

/// Symbols in order, those alike in name, start line and kind once.
pub open spec fn ordered_symbols(s: Seq<SymbolView>) -> Seq<SymbolView> {
    dedup(stable_sort(s, line_name_kind_order()), same_place())
}

/// Sorts symbols by `(start_line, name, kind)` and drops repeats.
pub fn order_symbols(v: Vec<IndexedSymbol>) -> (r: Vec<IndexedSymbol>)
    ensures
        views(r@) == ordered_symbols(views(v@)),
{
    let le = |a: &IndexedSymbol, b: &IndexedSymbol| -> (r: bool)
        ensures
            r == line_name_kind_order()(a@, b@),
        {
            a.start_line < b.start_line || (a.start_line == b.start_line && (before(a.name.as_str(), b.name.as_str())
                || (same(a.name.as_str(), b.name.as_str()) && !before(b.kind.as_str(), a.kind.as_str()))))
        };
    let eq = |a: &IndexedSymbol, b: &IndexedSymbol| -> (r: bool)
        ensures
            r == (a@.name == b@.name && a@.start_line == b@.start_line && a@.kind == b@.kind),
        {
            same(a.name.as_str(), b.name.as_str()) && a.start_line == b.start_line && a.kind == b.kind
        };
    let s = sort_views(v, le, Ghost(line_name_kind_order()));
    dedup_views(s, eq, Ghost(same_place()))
}

/// The symbols found in a text, in the order they are found.
fn find_symbols(path: &str, lang: Language, text: &str) -> (r: Vec<IndexedSymbol>)
    ensures
        views(r@) == symbols_in(path@, lang, text@),
{
    let none: Vec<IndexedSymbol> = Vec::new();
    assert(views(none@) =~= Seq::<SymbolView>::empty());
    match lang {
        Language::Rust => match SyntaxTree::parse_and_query(Grammar::Rust, text, RUST_QUERY) {
            Some((t, m)) => rust_symbols(path, &t, &m),
            None => none,
        },
        Language::CSharp => match SyntaxTree::parse_and_query(Grammar::CSharp, text, CSHARP_QUERY) {
            Some((t, m)) => csharp_symbols(path, &t, &m),
            None => none,
        },
        Language::Python => match SyntaxTree::parse_and_query(Grammar::Python, text, PYTHON_QUERY) {
            Some((t, m)) => python_symbols(path, &t, &m),
            None => none,
        },
        Language::Go => match SyntaxTree::parse_and_query(Grammar::Go, text, GO_QUERY) {
            Some((t, m)) => go_symbols(path, &t, &m),
            None => none,
        },
        Language::JavaScript | Language::TypeScript => match extract_js_ts_core(
            path,
            js_ts_grammar(path, lang),
            lang,
            lang,
            text,
            0,
            is_jsx(path),
        ) {
            Some(v) => v,
            None => none,
        },
        Language::Svelte => match SyntaxTree::parse(Grammar::Svelte, text) {
            Some(t) => svelte_symbols(path, &t),
            None => none,
        },
        Language::Bash => match SyntaxTree::parse_and_query(Grammar::Bash, text, BASH_QUERY) {
            Some((t, m)) => bash_symbols(path, &t, &m),
            None => none,
        },
        Language::Yaml => match SyntaxTree::parse(Grammar::Yaml, text) {
            Some(t) => yaml_symbols(path, &t),
            None => none,
        },
        Language::Json => match SyntaxTree::parse(Grammar::Json, text) {
            Some(t) => json_symbols(path, &t),
            None => none,
        },
        Language::Markdown => match SyntaxTree::parse(Grammar::Markdown, text) {
            Some(t) => markdown_symbols(path, &t),
            None => none,
        },
        Language::Other => none,
    }
}

/// Extract symbols from `text` (the contents of `path`) for the given `lang`.
///
/// Returns an empty list (never an error) when the text cannot be parsed or
/// queried, so a single malformed file does not break a whole index run.
pub fn extract(path: &str, lang: Language, text: &str) -> (r: Vec<IndexedSymbol>)
    ensures
        views(r@) == ordered_symbols(symbols_in(path@, lang, text@)),
{
    order_symbols(find_symbols(path, lang, text))
}

pub proof fn line_name_kind_order_total()
    ensures
        total_preorder(line_name_kind_order()),
{
    let le = line_name_kind_order();
    assert forall|a: SymbolView, b: SymbolView| #![trigger le(a, b)] le(a, b) || le(b, a) by {
        text_lt_total(a.name, b.name);
        if text_lt(b.kind.name(), a.kind.name()) {
            text_lt_asymmetric(b.kind.name(), a.kind.name());
        }
    }
    assert forall|a: SymbolView, b: SymbolView, c: SymbolView|
        #![trigger le(a, b), le(b, c)]
        le(a, b) && le(b, c) implies le(a, c) by {
        text_lt_laws(a.name, b.name, c.name);
        if text_le(a.kind.name(), b.kind.name()) && text_le(b.kind.name(), c.kind.name()) {
            text_le_transitive(a.kind.name(), b.kind.name(), c.kind.name());
        }
    }
}

proof fn dedup_part<T>(s: Seq<T>, eq: spec_fn(T, T) -> bool, le: spec_fn(T, T) -> bool)
    requires
        sorted(s, le),
    ensures
        sorted(dedup(s, eq), le),
        dedup(s, eq).len() <= s.len(),
        forall|i: int| 0 <= i < dedup(s, eq).len() ==> s.contains(#[trigger] dedup(s, eq)[i]),
        forall|i: int|
            0 < i < dedup(s, eq).len() ==> !eq(#[trigger] dedup(s, eq)[i], dedup(s, eq)[i - 1]),
    decreases s.len(),
{
    if s.len() > 0 {
        let rest = s.drop_last();
        assert forall|i: int, j: int| 0 <= i < j < rest.len() implies le(#[trigger] rest[i], #[trigger] rest[j]) by {
            assert(le(s[i], s[j]));
        }
        dedup_part(rest, eq, le);
        let k = dedup(rest, eq);
        let d = dedup(s, eq);
        assert forall|i: int| 0 <= i < d.len() implies s.contains(#[trigger] d[i]) by {
            if i < k.len() {
                assert(rest.contains(k[i]));
                let m = rest.index_of(k[i]);
                assert(s[m] == d[i]);
            } else {
                assert(s[s.len() - 1] == d[i]);
            }
        }
        assert forall|i: int, j: int| 0 <= i < j < d.len() implies le(#[trigger] d[i], #[trigger] d[j]) by {
            if j < k.len() {
                assert(le(k[i], k[j]));
            } else {
                assert(rest.contains(k[i]));
                let m = rest.index_of(k[i]);
                assert(le(s[m], s[s.len() - 1]));
            }
        }
        assert forall|i: int| 0 < i < d.len() implies !eq(#[trigger] d[i], d[i - 1]) by {
            if i < k.len() {
                assert(!eq(k[i], k[i - 1]));
            }
        }
    }
}

/// Extracted symbols are in order of `(start_line, name, kind)`, neighbours differ
/// in one of the three, and each is one of those found.
pub proof fn extraction_is_ordered(found: Seq<SymbolView>)
    ensures
        sorted(ordered_symbols(found), line_name_kind_order()),
        forall|i: int|
            0 < i < ordered_symbols(found).len() ==> !same_place()(
                #[trigger] ordered_symbols(found)[i],
                ordered_symbols(found)[i - 1],
            ),
        forall|i: int|
            0 <= i < ordered_symbols(found).len() ==> found.contains(#[trigger] ordered_symbols(found)[i]),
{
    let s = stable_sort(found, line_name_kind_order());
    line_name_kind_order_total();
    stable_sort_sorted(found, line_name_kind_order());
    stable_sort_keeps(found, line_name_kind_order());
    dedup_part(s, same_place(), line_name_kind_order());
    assert forall|i: int| 0 <= i < ordered_symbols(found).len() implies found.contains(
        #[trigger] ordered_symbols(found)[i],
    ) by {
        assert(s.contains(ordered_symbols(found)[i]));
    }
}

} // verus!
