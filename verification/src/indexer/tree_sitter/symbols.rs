//! Symbols of Rust, C#, Python, Go and shell sources.

use crate::graph::model::{IndexedSymbol, Language, SymbolKind, SymbolView};
use crate::indexer::syntax::{Capture, CaptureView, Match};
use crate::indexer::tree::{field, ints, is_kind, kids, text_of, SyntaxTree, TreeView};
use crate::indexer::tree_sitter::common::{
    captured_node, capitalised, definition, find_captures, find_node, line, line_of, make_symbol, starts_upper, symbol,
};
use crate::lists::{first, pick, pick_views, take_next, take_none, take_whole};
use crate::text::{opt_view, same, starts_with, starts_with_char, views};
use vstd::prelude::*;

verus! {

/// The symbols that `f` makes of the definitions a query matched.
pub open spec fn from_matches(
    t: TreeView,
    matches: Seq<Seq<CaptureView>>,
    f: spec_fn(CaptureView, Seq<char>) -> Option<SymbolView>,
) -> Seq<SymbolView> {
    pick(
        matches,
        |m: Seq<CaptureView>|
            match definition(t, m) {
                Some((d, name)) => f(d, name),
                None => None,
            },
    )
}

/// The symbols that `f` makes of the definitions a query matched.
pub fn symbols_of<F: Fn(&Capture, &String) -> Option<IndexedSymbol>>(
    t: &SyntaxTree,
    matches: &Vec<Match>,
    f: F,
    Ghost(g): Ghost<spec_fn(CaptureView, Seq<char>) -> Option<SymbolView>>,
) -> (r: Vec<IndexedSymbol>)
    requires
        forall|d: Capture, n: String| #[trigger] call_requires(f, (&d, &n)),
        forall|d: Capture, n: String, out: Option<IndexedSymbol>| #[trigger]
            call_ensures(f, (&d, &n), out) ==> opt_view(out) == g(d@, n@),
    ensures
        views(r@) == from_matches(t@, views(matches@), g),
{
    let ghost want = |m: Seq<CaptureView>|
        match definition(t@, m) {
            Some((d, name)) => g(d, name),
            None => None,
        };
    let each = |m: &Match| -> (out: Option<IndexedSymbol>)
        ensures
            opt_view(out) == want(m@),
        {
            match find_captures(t, m) {
                Some((d, name)) => f(d, &name),
                None => None,
            }
        };
    pick_views(matches, each, Ghost(want))
}

/// The first child of node `i` of kind `k`.
pub open spec fn child_of_kind(t: TreeView, i: int, k: Seq<char>) -> Option<int> {
    first(kids(t, i), |j: int| is_kind(t, j, k))
}

/// The first child of node `i` of kind `k`.
pub fn find_child(t: &SyntaxTree, i: usize, k: &str) -> (r: Option<usize>)
    requires
        i < t.nodes@.len(),
    ensures
        r is Some == child_of_kind(t@, i as int, k@) is Some,
        r matches Some(j) ==> j < t.nodes@.len() && child_of_kind(t@, i as int, k@) == Some(j as int),
{
    let list = t.children(i);
    let ghost all = ints(list@);
    let ghost p = |j: int| is_kind(t@, j, k@);
    let mut n: usize = 0;
    proof {
        take_none(all);
    }
    while n < list.len()
        invariant
            n <= list@.len(),
            all == ints(list@),
            all == kids(t@, i as int),
            crate::indexer::tree::in_tree(t@, list@),
            p == (|j: int| is_kind(t@, j, k@)),
            first(all.take(n as int), p) is None,
        decreases list@.len() - n,
    {
        proof {
            take_next(all, n as int);
            assert(all[n as int] == list@[n as int] as int);
        }
        if t.is(list[n], k) {
            proof {
                crate::lists::first_of_prefix(all, p, n as int + 1);
            }
            return Some(list[n]);
        }
        n += 1;
    }
    proof {
        take_whole(all);
    }
    None
}

// --- Rust ---------------------------------------------------------------------------------
pub const RUST_QUERY: &'static str =
    "
(struct_item   name: (type_identifier) @name) @def
(enum_item     name: (type_identifier) @name) @def
(trait_item    name: (type_identifier) @name) @def
(function_item name: (identifier)      @name) @def
(mod_item      name: (identifier)      @name) @def
";

pub open spec fn rust_kind_of(k: Seq<char>) -> Option<SymbolKind> {
    if k == "struct_item"@ {
        Some(SymbolKind::Struct)
    } else if k == "enum_item"@ {
        Some(SymbolKind::Enum)
    } else if k == "trait_item"@ {
        Some(SymbolKind::Trait)
    } else if k == "function_item"@ {
        Some(SymbolKind::Function)
    } else if k == "mod_item"@ {
        Some(SymbolKind::Module)
    } else {
        None
    }
}

fn rust_kind(k: &str) -> (r: Option<SymbolKind>)
    ensures
        r == rust_kind_of(k@),
{
    if same(k, "struct_item") {
        Some(SymbolKind::Struct)
    } else if same(k, "enum_item") {
        Some(SymbolKind::Enum)
    } else if same(k, "trait_item") {
        Some(SymbolKind::Trait)
    } else if same(k, "function_item") {
        Some(SymbolKind::Function)
    } else if same(k, "mod_item") {
        Some(SymbolKind::Module)
    } else {
        None
    }
}

/// The definition carries a `pub` visibility modifier.
pub open spec fn rust_pub(t: TreeView, d: CaptureView) -> bool {
    match captured_node(t, d, 0) {
        Some(i) => match child_of_kind(t, i, "visibility_modifier"@) {
            Some(j) => match text_of(t, j) {
                Some(s) => "pub"@.is_prefix_of(s),
                None => true,
            },
            None => false,
        },
        None => false,
    }
}

/// True if the definition carries a `pub` visibility modifier.
fn rust_is_pub(t: &SyntaxTree, d: &Capture) -> (r: bool)
    ensures
        r == rust_pub(t@, d@),
{
    match find_node(t, d) {
        Some(i) => match find_child(t, i, "visibility_modifier") {
            Some(j) => match t.text(j) {
                Some(s) => starts_with(s.as_str(), "pub"),
                None => true,
            },
            None => false,
        },
        None => false,
    }
}

pub open spec fn rust_symbol(t: TreeView, path: Seq<char>, d: CaptureView, name: Seq<char>) -> Option<SymbolView> {
    match rust_kind_of(d.kind) {
        Some(kind) => Some(
            symbol(
                path,
                Language::Rust,
                name,
                kind,
                line(d.start_row, 0),
                line(d.end_row, 0),
                if rust_pub(t, d) {
                    "pub"@
                } else {
                    ""@
                },
                rust_pub(t, d),
            ),
        ),
        None => None,
    }
}

/// The symbols of a Rust source, from its tree and the matches of [`RUST_QUERY`].
pub fn rust_symbols(path: &str, t: &SyntaxTree, matches: &Vec<Match>) -> (r: Vec<IndexedSymbol>)
    ensures
        views(r@) == from_matches(
            t@,
            views(matches@),
            |d: CaptureView, name: Seq<char>| rust_symbol(t@, path@, d, name),
        ),
{
    let ghost want = |d: CaptureView, name: Seq<char>| rust_symbol(t@, path@, d, name);
    let f = |d: &Capture, name: &String| -> (r: Option<IndexedSymbol>)
        ensures
            opt_view(r) == want(d@, name@),
        {
            match rust_kind(d.kind.as_str()) {
                Some(kind) => {
                    let is_pub = rust_is_pub(t, d);
                    let visibility = if is_pub {
                        "pub"
                    } else {
                        ""
                    };
                    Some(
                        make_symbol(
                            path,
                            Language::Rust,
                            name.as_str(),
                            kind,
                            line_of(d.start_row, 0),
                            line_of(d.end_row, 0),
                            visibility,
                            is_pub,
                        ),
                    )
                },
                None => None,
            }
        };
    symbols_of(t, matches, f, Ghost(want))
}

// --- C# -----------------------------------------------------------------------------------
pub const CSHARP_QUERY: &'static str =
    "
(class_declaration       name: (identifier) @name) @def
(record_declaration      name: (identifier) @name) @def
(struct_declaration      name: (identifier) @name) @def
(interface_declaration   name: (identifier) @name) @def
(enum_declaration        name: (identifier) @name) @def
(method_declaration      name: (identifier) @name) @def
(constructor_declaration name: (identifier) @name) @def
";

pub open spec fn csharp_kind_of(k: Seq<char>) -> Option<SymbolKind> {
    if k == "class_declaration"@ {
        Some(SymbolKind::Class)
    } else if k == "record_declaration"@ {
        Some(SymbolKind::Record)
    } else if k == "struct_declaration"@ {
        Some(SymbolKind::Struct)
    } else if k == "interface_declaration"@ {
        Some(SymbolKind::Interface)
    } else if k == "enum_declaration"@ {
        Some(SymbolKind::Enum)
    } else if k == "method_declaration"@ {
        Some(SymbolKind::Method)
    } else if k == "constructor_declaration"@ {
        Some(SymbolKind::Constructor)
    } else {
        None
    }
}

fn csharp_kind(k: &str) -> (r: Option<SymbolKind>)
    ensures
        r == csharp_kind_of(k@),
{
    if same(k, "class_declaration") {
        Some(SymbolKind::Class)
    } else if same(k, "record_declaration") {
        Some(SymbolKind::Record)
    } else if same(k, "struct_declaration") {
        Some(SymbolKind::Struct)
    } else if same(k, "interface_declaration") {
        Some(SymbolKind::Interface)
    } else if same(k, "enum_declaration") {
        Some(SymbolKind::Enum)
    } else if same(k, "method_declaration") {
        Some(SymbolKind::Method)
    } else if same(k, "constructor_declaration") {
        Some(SymbolKind::Constructor)
    } else {
        None
    }
}

/// An access modifier of C#.
pub open spec fn access_word(s: Option<Seq<char>>) -> bool {
    s == Some("public"@) || s == Some("private"@) || s == Some("internal"@) || s == Some("protected"@)
}

/// The first access modifier among the `modifier` children, or nothing.
pub open spec fn csharp_access(t: TreeView, d: CaptureView) -> Seq<char> {
    match captured_node(t, d, 0) {
        Some(i) => match first(kids(t, i), |j: int| is_kind(t, j, "modifier"@) && access_word(text_of(t, j))) {
            Some(j) => text_of(t, j)->0,
            None => ""@,
        },
        None => ""@,
    }
}

/// Extract the access modifier (public/private/internal/protected) from a C#
/// declaration's `modifier` children. Empty when none present.
fn csharp_visibility(t: &SyntaxTree, d: &Capture) -> (r: String)
    ensures
        r@ == csharp_access(t@, d@),
{
    let i = match find_node(t, d) {
        Some(i) => i,
        None => {
            return "".to_owned();
        },
    };
    let list = t.children(i);
    let ghost all = ints(list@);
    let ghost p = |j: int| is_kind(t@, j, "modifier"@) && access_word(text_of(t@, j));
    let mut n: usize = 0;
    proof {
        take_none(all);
    }
    while n < list.len()
        invariant
            n <= list@.len(),
            captured_node(t@, d@, 0) == Some(i as int),
            all == ints(list@),
            all == kids(t@, i as int),
            crate::indexer::tree::in_tree(t@, list@),
            p == (|j: int| is_kind(t@, j, "modifier"@) && access_word(text_of(t@, j))),
            first(all.take(n as int), p) is None,
        decreases list@.len() - n,
    {
        proof {
            take_next(all, n as int);
            assert(all[n as int] == list@[n as int] as int);
        }
        if t.is(list[n], "modifier") {
            match t.text(list[n]) {
                Some(s) => {
                    let w = s.as_str();
                    if same(w, "public") || same(w, "private") || same(w, "internal") || same(w, "protected") {
                        proof {
                            assert(p(all[n as int]));
                            crate::lists::first_of_prefix(all, p, n as int + 1);
                        }
                        return s;
                    }
                },
                None => {},
            }
        }
        n += 1;
    }
    proof {
        take_whole(all);
    }
    "".to_owned()
}

pub open spec fn csharp_symbol(t: TreeView, path: Seq<char>, d: CaptureView, name: Seq<char>) -> Option<SymbolView> {
    match csharp_kind_of(d.kind) {
        Some(kind) => Some(
            symbol(
                path,
                Language::CSharp,
                name,
                kind,
                line(d.start_row, 0),
                line(d.end_row, 0),
                csharp_access(t, d),
                csharp_access(t, d) == "public"@,
            ),
        ),
        None => None,
    }
}

/// The symbols of a C# source, from its tree and the matches of [`CSHARP_QUERY`].
pub fn csharp_symbols(path: &str, t: &SyntaxTree, matches: &Vec<Match>) -> (r: Vec<IndexedSymbol>)
    ensures
        views(r@) == from_matches(
            t@,
            views(matches@),
            |d: CaptureView, name: Seq<char>| csharp_symbol(t@, path@, d, name),
        ),
{
    let ghost want = |d: CaptureView, name: Seq<char>| csharp_symbol(t@, path@, d, name);
    let f = |d: &Capture, name: &String| -> (r: Option<IndexedSymbol>)
        ensures
            opt_view(r) == want(d@, name@),
        {
            match csharp_kind(d.kind.as_str()) {
                Some(kind) => {
                    let visibility = csharp_visibility(t, d);
                    let exported = same(visibility.as_str(), "public");
                    Some(
                        make_symbol(
                            path,
                            Language::CSharp,
                            name.as_str(),
                            kind,
                            line_of(d.start_row, 0),
                            line_of(d.end_row, 0),
                            visibility.as_str(),
                            exported,
                        ),
                    )
                },
                None => None,
            }
        };
    symbols_of(t, matches, f, Ghost(want))
}

// --- Python -------------------------------------------------------------------------------
pub const PYTHON_QUERY: &'static str =
    "
(class_definition    name: (identifier) @name) @def
(function_definition name: (identifier) @name) @def
";

pub open spec fn python_symbol(path: Seq<char>, d: CaptureView, name: Seq<char>) -> Option<SymbolView> {
    let kind = if d.kind == "class_definition"@ {
        Some(SymbolKind::Class)
    } else if d.kind == "function_definition"@ {
        Some(SymbolKind::Function)
    } else {
        None
    };
    match kind {
        Some(kind) => Some(
            symbol(
                path,
                Language::Python,
                name,
                kind,
                line(d.start_row, 0),
                line(d.end_row, 0),
                ""@,
                !(name.len() > 0 && name[0] == '_'),
            ),
        ),
        None => None,
    }
}

/// The symbols of a Python source, from its tree and the matches of
/// [`PYTHON_QUERY`].
pub fn python_symbols(path: &str, t: &SyntaxTree, matches: &Vec<Match>) -> (r: Vec<IndexedSymbol>)
    ensures
        views(r@) == from_matches(
            t@,
            views(matches@),
            |d: CaptureView, name: Seq<char>| python_symbol(path@, d, name),
        ),
{
    let ghost want = |d: CaptureView, name: Seq<char>| python_symbol(path@, d, name);
    let f = |d: &Capture, name: &String| -> (r: Option<IndexedSymbol>)
        ensures
            opt_view(r) == want(d@, name@),
        {
            let kind = if same(d.kind.as_str(), "class_definition") {
                SymbolKind::Class
            } else if same(d.kind.as_str(), "function_definition") {
                SymbolKind::Function
            } else {
                return None;
            };
            Some(
                make_symbol(
                    path,
                    Language::Python,
                    name.as_str(),
                    kind,
                    line_of(d.start_row, 0),
                    line_of(d.end_row, 0),
                    "",
                    !starts_with_char(name.as_str(), '_'),
                ),
            )
        };
    symbols_of(t, matches, f, Ghost(want))
}

// --- Go -----------------------------------------------------------------------------------
pub const GO_QUERY: &'static str =
    "
(function_declaration name: (identifier)       @name) @def
(method_declaration   name: (field_identifier) @name) @def
(type_declaration
  (type_spec
    name: (type_identifier) @name
    type: (struct_type))) @def
(type_declaration
  (type_spec
    name: (type_identifier) @name
    type: (interface_type))) @def
";

/// The kind of type that a declaration's first spec with a type declares.
pub open spec fn go_declared_kind(t: TreeView, d: CaptureView) -> Option<SymbolKind> {
    match captured_node(t, d, 0) {
        Some(i) => match first(kids(t, i), |j: int| is_kind(t, j, "type_spec"@) && field(t, j, "type"@) is Some) {
            Some(j) => {
                let ty = field(t, j, "type"@)->0;
                if is_kind(t, ty, "struct_type"@) {
                    Some(SymbolKind::Struct)
                } else if is_kind(t, ty, "interface_type"@) {
                    Some(SymbolKind::Interface)
                } else {
                    None
                }
            },
            None => None,
        },
        None => None,
    }
}

/// Inspect a `type_declaration`'s spec to decide Struct vs Interface.
fn go_type_kind(t: &SyntaxTree, d: &Capture) -> (r: Option<SymbolKind>)
    ensures
        r == go_declared_kind(t@, d@),
{
    let i = match find_node(t, d) {
        Some(i) => i,
        None => {
            return None;
        },
    };
    let list = t.children(i);
    let ghost all = ints(list@);
    let ghost p = |j: int| is_kind(t@, j, "type_spec"@) && field(t@, j, "type"@) is Some;
    let mut n: usize = 0;
    proof {
        take_none(all);
    }
    while n < list.len()
        invariant
            n <= list@.len(),
            captured_node(t@, d@, 0) == Some(i as int),
            all == ints(list@),
            all == kids(t@, i as int),
            crate::indexer::tree::in_tree(t@, list@),
            p == (|j: int| is_kind(t@, j, "type_spec"@) && field(t@, j, "type"@) is Some),
            first(all.take(n as int), p) is None,
        decreases list@.len() - n,
    {
        proof {
            take_next(all, n as int);
            assert(all[n as int] == list@[n as int] as int);
        }
        if t.is(list[n], "type_spec") {
            match t.child_by_field(list[n], "type") {
                Some(ty) => {
                    proof {
                        assert(p(all[n as int]));
                        crate::lists::first_of_prefix(all, p, n as int + 1);
                    }
                    if t.is(ty, "struct_type") {
                        return Some(SymbolKind::Struct);
                    } else if t.is(ty, "interface_type") {
                        return Some(SymbolKind::Interface);
                    } else {
                        return None;
                    }
                },
                None => {},
            }
        }
        n += 1;
    }
    proof {
        take_whole(all);
    }
    None
}

pub open spec fn go_symbol(t: TreeView, path: Seq<char>, d: CaptureView, name: Seq<char>) -> Option<SymbolView> {
    let kind = if d.kind == "function_declaration"@ {
        Some(SymbolKind::Function)
    } else if d.kind == "method_declaration"@ {
        Some(SymbolKind::Method)
    } else if d.kind == "type_declaration"@ {
        go_declared_kind(t, d)
    } else {
        None
    };
    match kind {
        Some(kind) => Some(
            symbol(
                path,
                Language::Go,
                name,
                kind,
                line(d.start_row, 0),
                line(d.end_row, 0),
                ""@,
                capitalised(name),
            ),
        ),
        None => None,
    }
}

/// The symbols of a Go source, from its tree and the matches of [`GO_QUERY`].
pub fn go_symbols(path: &str, t: &SyntaxTree, matches: &Vec<Match>) -> (r: Vec<IndexedSymbol>)
    ensures
        views(r@) == from_matches(
            t@,
            views(matches@),
            |d: CaptureView, name: Seq<char>| go_symbol(t@, path@, d, name),
        ),
{
    let ghost want = |d: CaptureView, name: Seq<char>| go_symbol(t@, path@, d, name);
    let f = |d: &Capture, name: &String| -> (r: Option<IndexedSymbol>)
        ensures
            opt_view(r) == want(d@, name@),
        {
            let kind = if same(d.kind.as_str(), "function_declaration") {
                Some(SymbolKind::Function)
            } else if same(d.kind.as_str(), "method_declaration") {
                Some(SymbolKind::Method)
            } else if same(d.kind.as_str(), "type_declaration") {
                go_type_kind(t, d)
            } else {
                None
            };
            match kind {
                Some(kind) => Some(
                    make_symbol(
                        path,
                        Language::Go,
                        name.as_str(),
                        kind,
                        line_of(d.start_row, 0),
                        line_of(d.end_row, 0),
                        "",
                        starts_upper(name.as_str()),
                    ),
                ),
                None => None,
            }
        };
    symbols_of(t, matches, f, Ghost(want))
}

// --- shell --------------------------------------------------------------------------------
pub const BASH_QUERY: &'static str = "
(function_definition name: (word) @name) @def
";

/// Shell functions are all callable; they count as exported.
pub open spec fn bash_symbol(path: Seq<char>, d: CaptureView, name: Seq<char>) -> Option<SymbolView> {
    Some(
        symbol(
            path,
            Language::Bash,
            name,
            SymbolKind::Function,
            line(d.start_row, 0),
            line(d.end_row, 0),
            ""@,
            true,
        ),
    )
}

/// The symbols of a shell source, from its tree and the matches of
/// [`BASH_QUERY`].
pub fn bash_symbols(path: &str, t: &SyntaxTree, matches: &Vec<Match>) -> (r: Vec<IndexedSymbol>)
    ensures
        views(r@) == from_matches(
            t@,
            views(matches@),
            |d: CaptureView, name: Seq<char>| bash_symbol(path@, d, name),
        ),
{
    let ghost want = |d: CaptureView, name: Seq<char>| bash_symbol(path@, d, name);
    let f = |d: &Capture, name: &String| -> (r: Option<IndexedSymbol>)
        ensures
            opt_view(r) == want(d@, name@),
        {
            Some(
                make_symbol(
                    path,
                    Language::Bash,
                    name.as_str(),
                    SymbolKind::Function,
                    line_of(d.start_row, 0),
                    line_of(d.end_row, 0),
                    "",
                    true,
                ),
            )
        };
    symbols_of(t, matches, f, Ghost(want))
}

} // verus!
