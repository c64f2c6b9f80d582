//! What the extractors share.

use crate::graph::model::{IndexedSymbol, Language, SymbolKind, SymbolView};
use crate::indexer::ids::{symbol_id, symbol_id_of};
use crate::indexer::syntax::{Capture, CaptureView, Match};
use crate::indexer::tree::{is_kind, parent, parent_before, span_text, SyntaxTree, TreeView};
use crate::lists::{take_next, take_none, take_whole};
use crate::text::{
    after_either, before_either, chars_of, same, text_after_either, text_before_either, trim, trimmed, views,
};
use vstd::prelude::*;

verus! {

/// The last capture of a match with a name.
pub open spec fn captured(m: Seq<CaptureView>, name: Seq<char>) -> Option<CaptureView>
    decreases m.len(),
{
    if m.len() == 0 {
        None
    } else if m.last().name == name {
        Some(m.last())
    } else {
        captured(m.drop_last(), name)
    }
}

/// The last capture of a match with a name.
pub fn find_capture<'a>(m: &'a Match, name: &str) -> (r: Option<&'a Capture>)
    ensures
        r is Some == captured(m@, name@) is Some,
        r matches Some(c) ==> captured(m@, name@) == Some(c@),
{
    let ghost all = views(m.captures@);
    let mut i: usize = m.captures.len();
    proof {
        take_whole(all);
    }
    while i > 0
        invariant
            i <= m.captures@.len(),
            all == views(m.captures@),
            captured(m@, name@) == captured(all.take(i as int), name@),
        decreases i,
    {
        i -= 1;
        proof {
            take_next(all, i as int);
            assert(all[i as int] == m.captures@[i as int]@);
        }
        if same(m.captures[i].name.as_str(), name) {
            return Some(&m.captures[i]);
        }
    }
    proof {
        take_none(all);
    }
    None
}

/// The text that a capture spans.
pub open spec fn capture_text(t: TreeView, c: CaptureView) -> Option<Seq<char>> {
    span_text(t.source, c.start_byte as int, c.end_byte as int)
}

/// The definition and the name that a match captured, where it captured both and
/// the name is a text.
pub open spec fn definition(t: TreeView, m: Seq<CaptureView>) -> Option<(CaptureView, Seq<char>)> {
    match (captured(m, "def"@), captured(m, "name"@)) {
        (Some(d), Some(n)) => match capture_text(t, n) {
            Some(name) => Some((d, name)),
            None => None,
        },
        _ => None,
    }
}

/// The definition and the name that a match captured.
pub fn find_captures<'a>(t: &SyntaxTree, m: &'a Match) -> (r: Option<(&'a Capture, String)>)
    ensures
        r is Some == definition(t@, m@) is Some,
        r matches Some((d, n)) ==> definition(t@, m@) == Some((d@, n@)),
{
    match find_capture(m, "def") {
        Some(d) => match find_capture(m, "name") {
            Some(n) => match t.span(n.start_byte, n.end_byte) {
                Some(name) => Some((d, name)),
                None => None,
            },
            None => None,
        },
        None => None,
    }
}

/// Node `i` is the node that was captured.
pub open spec fn is_captured(t: TreeView, c: CaptureView, i: int) -> bool {
    t.nodes[i].kind == c.kind && t.nodes[i].start_byte == c.start_byte && t.nodes[i].end_byte == c.end_byte
}

/// The first node at `i` or behind that is the captured one.
pub open spec fn captured_node(t: TreeView, c: CaptureView, i: int) -> Option<int>
    decreases t.nodes.len() - i,
{
    if i >= t.nodes.len() {
        None
    } else if is_captured(t, c, i) {
        Some(i)
    } else {
        captured_node(t, c, i + 1)
    }
}

/// The node of the tree that was captured.
pub fn find_node(t: &SyntaxTree, c: &Capture) -> (r: Option<usize>)
    ensures
        r is Some == captured_node(t@, c@, 0) is Some,
        r matches Some(i) ==> i < t.nodes@.len() && captured_node(t@, c@, 0) == Some(i as int),
{
    let mut i: usize = 0;
    while i < t.nodes.len()
        invariant
            i <= t.nodes@.len(),
            captured_node(t@, c@, 0) == captured_node(t@, c@, i as int),
        decreases t.nodes@.len() - i,
    {
        assert(t@.nodes[i as int] == t.nodes@[i as int]@);
        let n = &t.nodes[i];
        if n.start_byte == c.start_byte && n.end_byte == c.end_byte && same(n.kind.as_str(), c.kind.as_str()) {
            return Some(i);
        }
        i += 1;
    }
    None
}

/// Node `i` or a node above it is of kind `k`.
pub open spec fn has_above(t: TreeView, i: int, k: Seq<char>) -> bool
    decreases i,
    via has_above_shrinks
{
    is_kind(t, i, k) || (i >= 0 && parent(t, i) is Some && has_above(t, parent(t, i)->0, k))
}

#[via_fn]
proof fn has_above_shrinks(t: TreeView, i: int, k: Seq<char>) {
    parent_before(t, i, i - 1);
}

/// True if any ancestor (including self) of node `i` has the given kind.
pub fn has_ancestor(t: &SyntaxTree, i: usize, k: &str) -> (r: bool)
    requires
        i < t.nodes@.len(),
    ensures
        r == has_above(t@, i as int, k@),
{
    let mut at: usize = i;
    loop
        invariant
            at < t.nodes@.len(),
            has_above(t@, at as int, k@) == has_above(t@, i as int, k@),
        decreases at,
    {
        if t.is(at, k) {
            return true;
        }
        match t.parent(at) {
            Some(p) => {
                at = p;
            },
            None => {
                return false;
            },
        }
    }
}

/// The first character is an uppercase ASCII letter.
pub open spec fn capitalised(name: Seq<char>) -> bool {
    name.len() > 0 && 'A' <= name[0] <= 'Z'
}

/// First word starts with an uppercase ASCII letter.
pub fn starts_upper(name: &str) -> (r: bool)
    ensures
        r == capitalised(name@),
{
    let v = chars_of(name);
    v.len() > 0 && 'A' <= v[0] && v[0] <= 'Z'
}

/// The line (from 1) of a row (from 0), `offset` lines further down.
pub open spec fn line(row: u32, offset: u32) -> u32 {
    if row as int + 1 + offset as int <= u32::MAX {
        (row + 1 + offset) as u32
    } else {
        u32::MAX
    }
}

pub fn line_of(row: u32, offset: u32) -> (r: u32)
    ensures
        r == line(row, offset),
{
    if row < u32::MAX && offset <= u32::MAX - (row + 1) {
        row + 1 + offset
    } else {
        u32::MAX
    }
}

/// The symbol of a definition that reaches from one row to another.
pub open spec fn symbol(
    path: Seq<char>,
    lang: Language,
    name: Seq<char>,
    kind: SymbolKind,
    start_line: u32,
    end_line: u32,
    visibility: Seq<char>,
    exported: bool,
) -> SymbolView {
    SymbolView {
        id: symbol_id_of(path, kind.name(), name, start_line),
        name,
        full_name: name,
        kind,
        language: lang,
        file_path: path,
        start_line,
        end_line,
        visibility,
        exported,
    }
}

/// Build an [`IndexedSymbol`] from the common pieces.
pub fn make_symbol(
    path: &str,
    lang: Language,
    name: &str,
    kind: SymbolKind,
    start_line: u32,
    end_line: u32,
    visibility: &str,
    exported: bool,
) -> (r: IndexedSymbol)
    ensures
        r@ == symbol(path@, lang, name@, kind, start_line, end_line, visibility@, exported),
{
    IndexedSymbol {
        id: symbol_id(path, kind.as_str(), name, start_line),
        name: name.to_owned(),
        full_name: name.to_owned(),
        kind,
        language: lang,
        file_path: path.to_owned(),
        start_line,
        end_line,
        visibility: visibility.to_owned(),
        exported,
    }
}

/// A possibly qualified, possibly generic type, without both: `Foo.Bar<T>` is
/// `Bar`, `std::fmt::Display` is `Display`.
pub open spec fn bare(raw: Seq<char>) -> Seq<char> {
    trim(after_either(before_either(raw, '<', '('), '.', ':'))
}

/// Reduce a possibly-qualified, possibly-generic type reference to a bare
/// identifier: `Foo.Bar<T>` -> `Bar`, `std::fmt::Display` -> `Display`.
pub fn bare_type_name(raw: &str) -> (r: String)
    ensures
        r@ == bare(raw@),
{
    let no_generics = text_before_either(raw, '<', '(');
    let last = text_after_either(no_generics.as_str(), '.', ':');
    trimmed(last.as_str())
}

} // verus!
