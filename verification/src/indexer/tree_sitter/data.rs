//! Symbols of data and document files: YAML, JSON and Markdown.

use crate::graph::model::{IndexedSymbol, Language, SymbolKind, SymbolView};
use crate::indexer::tree::{
    field_text, first_of_kind, in_tree, ints, is_kind, kids, text_of, visit_all, SyntaxTree, TreeView,
};
use crate::indexer::tree_sitter::common::{line, line_of, make_symbol, symbol};
use crate::lists::{flat, pick, take_next, take_none, take_whole};
use crate::text::{
    cat, decimal, join, join_with, opt_view, same, to_decimal, trim, trim_any, trim_end_char, trimmed, trimmed_of, views,
    without_end_char, words, words_of,
};
use vstd::prelude::*;

verus! {

// --- YAML ---------------------------------------------------------------------------------
/// The key symbol of the node `i` with this text, unless it is blank.
pub open spec fn key_symbol(
    t: TreeView,
    path: Seq<char>,
    lang: Language,
    i: int,
    name: Seq<char>,
    visibility: Seq<char>,
) -> Option<SymbolView> {
    if name.len() > 0 {
        Some(
            symbol(
                path,
                lang,
                name,
                SymbolKind::Key,
                line(t.nodes[i].start_row, 0),
                line(t.nodes[i].end_row, 0),
                visibility,
                false,
            ),
        )
    } else {
        None
    }
}

fn make_key(t: &SyntaxTree, path: &str, lang: Language, i: usize, name: &str, visibility: &str) -> (r: Option<
    IndexedSymbol,
>)
    requires
        i < t.nodes@.len(),
    ensures
        opt_view(r) == key_symbol(t@, path@, lang, i as int, name@, visibility@),
{
    assert(t@.nodes[i as int] == t.nodes@[i as int]@);
    if name.is_empty() {
        None
    } else {
        Some(
            make_symbol(
                path,
                lang,
                name,
                SymbolKind::Key,
                line_of(t.nodes[i].start_row, 0),
                line_of(t.nodes[i].end_row, 0),
                visibility,
                false,
            ),
        )
    }
}

/// The key that a pair of a mapping declares.
pub open spec fn yaml_pair(t: TreeView, path: Seq<char>, i: int) -> Option<SymbolView> {
    if is_kind(t, i, "block_mapping_pair"@) {
        match field_text(t, i, "key"@) {
            Some(s) => key_symbol(t, path, Language::Yaml, i, trim(s), ""@),
            None => None,
        }
    } else {
        None
    }
}

/// The anchor that node `i` names.
pub open spec fn yaml_anchor(t: TreeView, path: Seq<char>, i: int) -> Seq<SymbolView> {
    if is_kind(t, i, "anchor_name"@) {
        match text_of(t, i) {
            Some(s) => match key_symbol(t, path, Language::Yaml, i, trim(s), "anchor"@) {
                Some(k) => seq![k],
                None => Seq::empty(),
            },
            None => Seq::empty(),
        }
    } else {
        Seq::empty()
    }
}

/// The symbols of a YAML document: the keys of its first block mapping, which is
/// the top-level one, and the named anchors anywhere.
pub open spec fn yaml_symbols_of(t: TreeView, path: Seq<char>) -> Seq<SymbolView> {
    let keys = match first_of_kind(t, "block_mapping"@) {
        Some(m) => pick(kids(t, m), |i: int| yaml_pair(t, path, i)),
        None => Seq::empty(),
    };
    keys + flat(visit_all(t), |i: int| yaml_anchor(t, path, i))
}

fn yaml_pair_symbol(t: &SyntaxTree, path: &str, i: usize) -> (r: Option<IndexedSymbol>)
    requires
        i < t.nodes@.len(),
    ensures
        opt_view(r) == yaml_pair(t@, path@, i as int),
{
    if !t.is(i, "block_mapping_pair") {
        return None;
    }
    match t.field_text(i, "key") {
        Some(s) => {
            let name = trimmed(s.as_str());
            make_key(t, path, Language::Yaml, i, name.as_str(), "")
        },
        None => None,
    }
}

/// The symbols of a YAML document (top-level mapping keys and named anchors),
/// from its tree.
pub fn yaml_symbols(path: &str, t: &SyntaxTree) -> (r: Vec<IndexedSymbol>)
    ensures
        views(r@) == yaml_symbols_of(t@, path@),
{
    let mut out: Vec<IndexedSymbol> = Vec::new();
    assert(views(out@) =~= Seq::<SymbolView>::empty());
    match t.find_first_kind("block_mapping") {
        Some(m) => {
            let ghost want = |i: int| yaml_pair(t@, path@, i);
            let f = |i: usize| -> (r: Option<IndexedSymbol>)
                requires
                    i < t.nodes@.len(),
                ensures
                    opt_view(r) == want(i as int),
                {
                    yaml_pair_symbol(t, path, i)
                };
            out = t.pick_children(m, f, Ghost(want));
        },
        None => {},
    }
    let ghost want = |i: int| yaml_anchor(t@, path@, i);
    let f = |i: usize| -> (r: Vec<IndexedSymbol>)
        requires
            i < t.nodes@.len(),
        ensures
            views(r@) == want(i as int),
        {
            let mut one: Vec<IndexedSymbol> = Vec::new();
            if t.is(i, "anchor_name") {
                match t.text(i) {
                    Some(s) => {
                        let name = trimmed(s.as_str());
                        match make_key(t, path, Language::Yaml, i, name.as_str(), "anchor") {
                            Some(k) => {
                                one.push(k);
                            },
                            None => {},
                        }
                    },
                    None => {},
                }
            }
            assert(views(one@) =~= yaml_anchor(t@, path@, i as int));
            one
        };
    let mut anchors = t.collect(f, Ghost(want));
    proof {
        crate::lists::views_add(out@, anchors@);
    }
    out.append(&mut anchors);
    out
}

// --- JSON ---------------------------------------------------------------------------------
/// The key that a pair of an object declares, without its quotes.
pub open spec fn json_pair(t: TreeView, path: Seq<char>, i: int) -> Option<SymbolView> {
    if is_kind(t, i, "pair"@) {
        match field_text(t, i, "key"@) {
            Some(s) => key_symbol(t, path, Language::Json, i, trim_any(trim(s), '"', '"', '"'), ""@),
            None => None,
        }
    } else {
        None
    }
}

/// The symbols of a JSON document: the keys of its first object, which is the
/// top-level one.
pub open spec fn json_symbols_of(t: TreeView, path: Seq<char>) -> Seq<SymbolView> {
    match first_of_kind(t, "object"@) {
        Some(o) => pick(kids(t, o), |i: int| json_pair(t, path, i)),
        None => Seq::empty(),
    }
}

fn json_pair_symbol(t: &SyntaxTree, path: &str, i: usize) -> (r: Option<IndexedSymbol>)
    requires
        i < t.nodes@.len(),
    ensures
        opt_view(r) == json_pair(t@, path@, i as int),
{
    if !t.is(i, "pair") {
        return None;
    }
    match t.field_text(i, "key") {
        Some(s) => {
            let s = trimmed(s.as_str());
            let name = trimmed_of(s.as_str(), '"', '"', '"');
            make_key(t, path, Language::Json, i, name.as_str(), "")
        },
        None => None,
    }
}

/// The symbols of a JSON document (the keys of the top-level object), from its
/// tree.
pub fn json_symbols(path: &str, t: &SyntaxTree) -> (r: Vec<IndexedSymbol>)
    ensures
        views(r@) == json_symbols_of(t@, path@),
{
    let mut out: Vec<IndexedSymbol> = Vec::new();
    assert(views(out@) =~= Seq::<SymbolView>::empty());
    match t.find_first_kind("object") {
        Some(o) => {
            let ghost want = |i: int| json_pair(t@, path@, i);
            let f = |i: usize| -> (r: Option<IndexedSymbol>)
                requires
                    i < t.nodes@.len(),
                ensures
                    opt_view(r) == want(i as int),
                {
                    json_pair_symbol(t, path, i)
                };
            out = t.pick_children(o, f, Ghost(want));
        },
        None => {},
    }
    out
}

// --- Markdown -----------------------------------------------------------------------------
/// The heading level that a marker stands for.
pub open spec fn marker_level(k: Seq<char>) -> Option<u8> {
    if k == "atx_h1_marker"@ || k == "setext_h1_underline"@ {
        Some(1)
    } else if k == "atx_h2_marker"@ || k == "setext_h2_underline"@ {
        Some(2)
    } else if k == "atx_h3_marker"@ {
        Some(3)
    } else if k == "atx_h4_marker"@ {
        Some(4)
    } else if k == "atx_h5_marker"@ {
        Some(5)
    } else if k == "atx_h6_marker"@ {
        Some(6)
    } else {
        None
    }
}

fn level_of_marker(k: &str) -> (r: Option<u8>)
    ensures
        r == marker_level(k@),
{
    if same(k, "atx_h1_marker") || same(k, "setext_h1_underline") {
        Some(1)
    } else if same(k, "atx_h2_marker") || same(k, "setext_h2_underline") {
        Some(2)
    } else if same(k, "atx_h3_marker") {
        Some(3)
    } else if same(k, "atx_h4_marker") {
        Some(4)
    } else if same(k, "atx_h5_marker") {
        Some(5)
    } else if same(k, "atx_h6_marker") {
        Some(6)
    } else {
        None
    }
}

/// The level that the last marker among the nodes stands for; 1 without any.
pub open spec fn heading_level(t: TreeView, list: Seq<int>) -> u8
    decreases list.len(),
{
    if list.len() == 0 {
        1
    } else {
        match marker_level(t.nodes[list.last()].kind) {
            Some(l) => l,
            None => heading_level(t, list.drop_last()),
        }
    }
}

/// Heading text without surrounding white space and trailing `#`s, its words one
/// space apart.
pub open spec fn heading_title(raw: Seq<char>) -> Seq<char> {
    join(words(trim(trim_end_char(trim(raw), '#'))), " "@)
}

/// Normalise heading text: strip surrounding whitespace, trailing `#` (closed
/// ATX headings), and collapse internal whitespace to single spaces.
pub fn clean_heading_text(raw: &str) -> (r: String)
    ensures
        r@ == heading_title(raw@),
{
    let a = trimmed(raw);
    let b = without_end_char(a.as_str(), '#');
    let c = trimmed(b.as_str());
    let w = words_of(c.as_str());
    join_with(&w, " ")
}

/// Level and title of the heading at node `i`, if it has a title.
pub open spec fn heading(t: TreeView, i: int) -> Option<(u8, Seq<char>)> {
    match field_text(t, i, "heading_content"@) {
        Some(raw) => if heading_title(raw).len() > 0 {
            Some((heading_level(t, kids(t, i)), heading_title(raw)))
        } else {
            None
        },
        None => None,
    }
}

/// Return `(level, title)` for a heading node, or `None` if it has no title.
fn markdown_heading(t: &SyntaxTree, i: usize) -> (r: Option<(u8, String)>)
    requires
        i < t.nodes@.len(),
    ensures
        r is Some == heading(t@, i as int) is Some,
        r matches Some((l, s)) ==> heading(t@, i as int) == Some((l, s@)),
{
    let list = t.children(i);
    let ghost all = ints(list@);
    let mut level: u8 = 1;
    let mut n: usize = 0;
    proof {
        take_none(all);
    }
    while n < list.len()
        invariant
            n <= list@.len(),
            all == ints(list@),
            in_tree(t@, list@),
            level == heading_level(t@, all.take(n as int)),
        decreases list@.len() - n,
    {
        let j: usize = list[n];
        proof {
            take_next(all, n as int);
            assert(all[n as int] == j as int);
            assert(t@.nodes[j as int] == t.nodes@[j as int]@);
        }
        match level_of_marker(t.nodes[j].kind.as_str()) {
            Some(l) => {
                level = l;
            },
            None => {},
        }
        n += 1;
    }
    proof {
        take_whole(all);
    }
    match t.field_text(i, "heading_content") {
        Some(raw) => {
            let title = clean_heading_text(raw.as_str());
            if title.as_str().is_empty() {
                None
            } else {
                Some((level, title))
            }
        },
        None => None,
    }
}

/// The symbol of the heading at node `i`; its level stands in the full name and
/// the visibility.
pub open spec fn markdown_at(t: TreeView, path: Seq<char>, i: int) -> Seq<SymbolView> {
    if is_kind(t, i, "atx_heading"@) || is_kind(t, i, "setext_heading"@) {
        match heading(t, i) {
            Some((level, title)) => {
                let tag = "h"@ + decimal(level as nat);
                seq![
                    SymbolView {
                        full_name: tag + " "@ + title,
                        ..symbol(
                            path,
                            Language::Markdown,
                            title,
                            SymbolKind::Key,
                            line(t.nodes[i].start_row, 0),
                            line(t.nodes[i].end_row, 0),
                            tag,
                            false,
                        )
                    },
                ]
            },
            None => Seq::empty(),
        }
    } else {
        Seq::empty()
    }
}

/// The symbols of a Markdown document: its headings.
pub open spec fn markdown_symbols_of(t: TreeView, path: Seq<char>) -> Seq<SymbolView> {
    flat(visit_all(t), |i: int| markdown_at(t, path, i))
}

/// The headings of a Markdown document as [`SymbolKind::Key`] symbols, from its
/// tree.
///
/// Both ATX (`## Title`) and setext (underlined) headings are captured. The
/// heading level is recorded in the symbol's full name (e.g. `h2 Title`) and
/// visibility (`h2`), so docs sections are searchable and packable by name.
pub fn markdown_symbols(path: &str, t: &SyntaxTree) -> (r: Vec<IndexedSymbol>)
    ensures
        views(r@) == markdown_symbols_of(t@, path@),
{
    let ghost want = |i: int| markdown_at(t@, path@, i);
    let f = |i: usize| -> (r: Vec<IndexedSymbol>)
        requires
            i < t.nodes@.len(),
        ensures
            views(r@) == want(i as int),
        {
            let mut one: Vec<IndexedSymbol> = Vec::new();
            if t.is(i, "atx_heading") || t.is(i, "setext_heading") {
                match markdown_heading(t, i) {
                    Some((level, title)) => {
                        let digits = to_decimal(level as u64);
                        let tag = cat("h", digits.as_str());
                        assert(t@.nodes[i as int] == t.nodes@[i as int]@);
                        let mut s = make_symbol(
                            path,
                            Language::Markdown,
                            title.as_str(),
                            SymbolKind::Key,
                            line_of(t.nodes[i].start_row, 0),
                            line_of(t.nodes[i].end_row, 0),
                            tag.as_str(),
                            false,
                        );
                        s.full_name = crate::text::cat3(tag.as_str(), " ", title.as_str());
                        one.push(s);
                    },
                    None => {},
                }
            }
            assert(views(one@) =~= markdown_at(t@, path@, i as int));
            one
        };
    t.collect(f, Ghost(want))
}

} // verus!
