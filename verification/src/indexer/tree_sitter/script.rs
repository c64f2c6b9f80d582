//! Symbols of JavaScript, TypeScript and Svelte sources.

use crate::graph::model::{IndexedSymbol, Language, SymbolKind, SymbolView};
use crate::indexer::ids::{symbol_id, symbol_id_of};
use crate::indexer::languages::{is_jsx, jsx_path, route_role, sveltekit_route_role};
use crate::indexer::syntax::{parses, query_matches, Capture, CaptureView, Grammar, Match};
use crate::indexer::tree::{
    field_text, in_tree, ints, is_kind, kids, text_of, tree_of, visit_all, SyntaxTree, TreeView,
};
use crate::indexer::tree_sitter::common::{
    capitalised, captured_node, find_node, has_above, has_ancestor, line, line_of, make_symbol, starts_upper, symbol,
};
use crate::indexer::tree_sitter::symbols::{child_of_kind, find_child, from_matches, symbols_of};
use crate::lists::{first, flat, take_next, take_none, take_whole};
use crate::text::{
    after_last, among, before_last, cat, cat3, lower, opt_view, same, same_ignore_ascii_case, strip_suffix,
    text_after_last, text_before_last, trim_any, trimmed_of, views,
};
use vstd::prelude::*;

verus! {

pub const JS_QUERY: &'static str =
    "
(function_declaration name: (identifier) @name) @def
(class_declaration    name: (identifier) @name) @def
(lexical_declaration
  (variable_declarator
    name: (identifier) @name
    value: [(arrow_function) (function_expression)])) @def
(variable_declaration
  (variable_declarator
    name: (identifier) @name
    value: [(arrow_function) (function_expression)])) @def
";

pub const TS_QUERY: &'static str =
    "
(function_declaration name: (identifier) @name) @def
(class_declaration    name: (type_identifier) @name) @def
(interface_declaration name: (type_identifier) @name) @def
(type_alias_declaration name: (type_identifier) @name) @def
(enum_declaration     name: (identifier) @name) @def
(lexical_declaration
  (variable_declarator
    name: (identifier) @name
    value: [(arrow_function) (function_expression)])) @def
(variable_declaration
  (variable_declarator
    name: (identifier) @name
    value: [(arrow_function) (function_expression)])) @def
";

/// The grammar for a JS/TS file: by language and, for TypeScript, by whether the
/// file may hold JSX.
pub open spec fn script_grammar(path: Seq<char>, lang: Language) -> Grammar {
    if lang == Language::TypeScript {
        if jsx_path(path) {
            Grammar::Tsx
        } else {
            Grammar::TypeScript
        }
    } else {
        Grammar::JavaScript
    }
}

/// Pick the grammar for a JS/TS file based on language + JSX extension.
pub fn js_ts_grammar(path: &str, lang: Language) -> (r: Grammar)
    ensures
        r == script_grammar(path@, lang),
{
    if lang == Language::TypeScript {
        if is_jsx(path) {
            Grammar::Tsx
        } else {
            Grammar::TypeScript
        }
    } else {
        // JavaScript always uses the JS grammar, even for `.jsx`.
        Grammar::JavaScript
    }
}

pub open spec fn script_query(lang: Language) -> Seq<char> {
    if lang == Language::TypeScript {
        TS_QUERY@
    } else {
        JS_QUERY@
    }
}

pub open spec fn script_kind_of(k: Seq<char>) -> Option<SymbolKind> {
    if k == "function_declaration"@ {
        Some(SymbolKind::Function)
    } else if k == "class_declaration"@ {
        Some(SymbolKind::Class)
    } else if k == "interface_declaration"@ {
        Some(SymbolKind::Interface)
    } else if k == "type_alias_declaration"@ {
        Some(SymbolKind::TypeAlias)
    } else if k == "enum_declaration"@ {
        Some(SymbolKind::Enum)
    } else if k == "lexical_declaration"@ || k == "variable_declaration"@ {
        Some(SymbolKind::Function)
    } else {
        None
    }
}

fn js_ts_kind(k: &str) -> (r: Option<SymbolKind>)
    ensures
        r == script_kind_of(k@),
{
    if same(k, "function_declaration") {
        Some(SymbolKind::Function)
    } else if same(k, "class_declaration") {
        Some(SymbolKind::Class)
    } else if same(k, "interface_declaration") {
        Some(SymbolKind::Interface)
    } else if same(k, "type_alias_declaration") {
        Some(SymbolKind::TypeAlias)
    } else if same(k, "enum_declaration") {
        Some(SymbolKind::Enum)
    } else if same(k, "lexical_declaration") || same(k, "variable_declaration") {
        // Arrow/function expressions, captured via the declaration around them.
        Some(SymbolKind::Function)
    } else {
        None
    }
}

/// The local name that an `export { ... }` clause names at node `i`.
pub open spec fn reexported_at(t: TreeView, i: int) -> Seq<Seq<char>> {
    if is_kind(t, i, "export_specifier"@) {
        match field_text(t, i, "name"@) {
            Some(s) => seq![s],
            None => Seq::empty(),
        }
    } else {
        Seq::empty()
    }
}

/// The identifiers named in `export { ... }` clauses anywhere in the file.
pub open spec fn reexported(t: TreeView) -> Seq<Seq<char>> {
    flat(visit_all(t), |i: int| reexported_at(t, i))
}

/// Collect the identifiers named in `export { ... }` clauses anywhere in the
/// file (the local name, not the optional alias).
pub fn collect_reexported_names(t: &SyntaxTree) -> (r: Vec<String>)
    ensures
        views(r@) == reexported(t@),
{
    let ghost want = |i: int| reexported_at(t@, i);
    let f = |i: usize| -> (r: Vec<String>)
        requires
            i < t.nodes@.len(),
        ensures
            views(r@) == want(i as int),
        {
            let mut out: Vec<String> = Vec::new();
            if t.is(i, "export_specifier") {
                match t.field_text(i, "name") {
                    Some(s) => {
                        out.push(s);
                    },
                    None => {},
                }
            }
            assert(views(out@) =~= reexported_at(t@, i as int));
            out
        };
    t.collect(f, Ghost(want))
}

/// PascalCase functions and classes count as components where JSX is to be
/// expected.
pub open spec fn component_kind(kind: SymbolKind, name: Seq<char>, jsx: bool) -> SymbolKind {
    if jsx && capitalised(name) && (kind == SymbolKind::Function || kind == SymbolKind::Class) {
        SymbolKind::Component
    } else {
        kind
    }
}

/// Declared under `export ...`, or named in an `export { }`.
pub open spec fn exported(t: TreeView, d: CaptureView, name: Seq<char>) -> bool {
    (captured_node(t, d, 0) matches Some(i) && has_above(t, i, "export_statement"@)) || reexported(t).contains(name)
}

/// The symbol of a JS/TS definition, `offset` lines further down than it stands
/// in the parsed text.
pub open spec fn script_symbol(
    t: TreeView,
    path: Seq<char>,
    lang: Language,
    offset: u32,
    jsx: bool,
    d: CaptureView,
    name: Seq<char>,
) -> Option<SymbolView> {
    match script_kind_of(d.kind) {
        Some(kind) => Some(
            symbol(
                path,
                lang,
                name,
                component_kind(kind, name, jsx),
                line(d.start_row, offset),
                line(d.end_row, offset),
                if exported(t, d, name) {
                    "export"@
                } else {
                    ""@
                },
                exported(t, d, name),
            ),
        ),
        None => None,
    }
}

/// The symbols of a JS/TS text.
pub open spec fn script_symbols_of(
    t: TreeView,
    path: Seq<char>,
    lang: Language,
    offset: u32,
    jsx: bool,
    matches: Seq<Seq<CaptureView>>,
) -> Seq<SymbolView> {
    from_matches(
        t,
        matches,
        |d: CaptureView, name: Seq<char>| script_symbol(t, path, lang, offset, jsx, d, name),
    )
}

/// The symbols of a JS/TS text, from its tree and the matches of [`JS_QUERY`] or
/// [`TS_QUERY`]. Embedded scripts (e.g. a Svelte `<script>` block) reuse it:
/// `offset` is added to every symbol's line numbers, and `jsx` applies the
/// component heuristic.
pub fn js_ts_symbols(
    path: &str,
    lang: Language,
    offset: u32,
    jsx: bool,
    t: &SyntaxTree,
    matches: &Vec<Match>,
) -> (r: Vec<IndexedSymbol>)
    ensures
        views(r@) == script_symbols_of(t@, path@, lang, offset, jsx, views(matches@)),
{
    let names = collect_reexported_names(t);
    let ghost want = |d: CaptureView, name: Seq<char>| script_symbol(t@, path@, lang, offset, jsx, d, name);
    let f = |d: &Capture, name: &String| -> (r: Option<IndexedSymbol>)
        ensures
            opt_view(r) == want(d@, name@),
        {
            let kind = match js_ts_kind(d.kind.as_str()) {
                Some(k) => k,
                None => {
                    return None;
                },
            };
            let kind = if jsx && starts_upper(name.as_str()) && (kind == SymbolKind::Function || kind
                == SymbolKind::Class) {
                SymbolKind::Component
            } else {
                kind
            };
            let under_export = match find_node(t, d) {
                Some(i) => has_ancestor(t, i, "export_statement"),
                None => false,
            };
            let is_exported = under_export || among(&names, name.as_str());
            let visibility = if is_exported {
                "export"
            } else {
                ""
            };
            Some(
                make_symbol(
                    path,
                    lang,
                    name.as_str(),
                    kind,
                    line_of(d.start_row, offset),
                    line_of(d.end_row, offset),
                    visibility,
                    is_exported,
                ),
            )
        };
    symbols_of(t, matches, f, Ghost(want))
}

/// What is extracted of a JS/TS text: nothing where it cannot be parsed or
/// queried.
pub open spec fn script_extraction(
    path: Seq<char>,
    grammar: Grammar,
    lang: Language,
    label: Language,
    text: Seq<char>,
    offset: u32,
    jsx: bool,
) -> Option<Seq<SymbolView>> {
    if parses(grammar, text) {
        match query_matches(grammar, text, script_query(lang)) {
            Some(m) => Some(script_symbols_of(tree_of(grammar, text), path, label, offset, jsx, m)),
            None => None,
        }
    } else {
        None
    }
}

/// Parse a JS/TS text and extract its symbols, labelled with `label` as their
/// language; `None` where it cannot be parsed or queried.
pub fn extract_js_ts_core(
    path: &str,
    grammar: Grammar,
    lang: Language,
    label: Language,
    text: &str,
    offset: u32,
    jsx: bool,
) -> (r: Option<Vec<IndexedSymbol>>)
    ensures
        r is Some == script_extraction(path@, grammar, lang, label, text@, offset, jsx) is Some,
        r matches Some(v) ==> script_extraction(path@, grammar, lang, label, text@, offset, jsx) == Some(views(v@)),
{
    let query = if lang == Language::TypeScript {
        TS_QUERY
    } else {
        JS_QUERY
    };
    match SyntaxTree::parse_and_query(grammar, text, query) {
        Some((t, m)) => Some(js_ts_symbols(path, label, offset, jsx, &t, &m)),
        None => None,
    }
}

// --- Svelte -------------------------------------------------------------------------------
/// The file name without `.svelte`; the whole path where it has another ending.
pub open spec fn svelte_stem(path: Seq<char>) -> Seq<char> {
    let name = after_last(path, '/');
    if ".svelte"@.is_suffix_of(name) {
        name.take(name.len() - ".svelte"@.len())
    } else {
        path
    }
}

/// Route files share generic stems (+page, +layout): they are qualified by their
/// directory.
pub open spec fn component_name(path: Seq<char>) -> Seq<char> {
    let parent = after_last(before_last(path, '/'), '/');
    if route_role(path) is Some && parent.len() > 0 {
        parent + "/"@ + svelte_stem(path)
    } else {
        svelte_stem(path)
    }
}

/// The symbol of a component file.
pub open spec fn component(path: Seq<char>, end_row: u32) -> SymbolView {
    let name = component_name(path);
    SymbolView {
        id: symbol_id_of(path, "component"@, name, 1),
        name,
        full_name: match route_role(path) {
            Some(r) => name + " (sveltekit "@ + r + ")"@,
            None => name,
        },
        kind: SymbolKind::Component,
        language: Language::Svelte,
        file_path: path,
        start_line: 1,
        end_line: line(end_row, 0),
        visibility: match route_role(path) {
            Some(r) => r,
            None => "component"@,
        },
        exported: true,
    }
}

/// The symbol of the component itself, named after the file stem.
pub fn component_symbol(path: &str, end_row: u32) -> (r: IndexedSymbol)
    ensures
        r@ == component(path@, end_row),
{
    let file = text_after_last(path, '/');
    let stem = match strip_suffix(file.as_str(), ".svelte") {
        Some(s) => s,
        None => path.to_owned(),
    };
    let role = sveltekit_route_role(path);
    let dir = text_before_last(path, '/');
    let parent = text_after_last(dir.as_str(), '/');
    let name = if role.is_some() && !parent.as_str().is_empty() {
        cat3(parent.as_str(), "/", stem.as_str())
    } else {
        stem
    };
    let full_name = match role {
        Some(r) => {
            let head = cat(name.as_str(), " (sveltekit ");
            cat3(head.as_str(), r, ")")
        },
        None => name.clone(),
    };
    let visibility = match role {
        Some(r) => r,
        None => "component",
    };
    IndexedSymbol {
        id: symbol_id(path, "component", name.as_str(), 1),
        name,
        full_name,
        kind: SymbolKind::Component,
        language: Language::Svelte,
        file_path: path.to_owned(),
        start_line: 1,
        end_line: line_of(end_row, 0),
        visibility: visibility.to_owned(),
        exported: true,
    }
}

/// The node with the source of a `script_element`.
pub open spec fn raw_text(t: TreeView, i: int) -> Option<int> {
    first(kids(t, i), |j: int| is_kind(t, j, "raw_text"@) || is_kind(t, j, "svelte_raw_text"@))
}

/// The `raw_text` child of a `script_element` (the embedded JS/TS source).
fn script_raw_text(t: &SyntaxTree, i: usize) -> (r: Option<usize>)
    requires
        i < t.nodes@.len(),
    ensures
        r is Some == raw_text(t@, i as int) is Some,
        r matches Some(j) ==> j < t.nodes@.len() && raw_text(t@, i as int) == Some(j as int),
{
    let list = t.children(i);
    let ghost all = ints(list@);
    let ghost p = |j: int| is_kind(t@, j, "raw_text"@) || is_kind(t@, j, "svelte_raw_text"@);
    let mut n: usize = 0;
    proof {
        take_none(all);
    }
    while n < list.len()
        invariant
            n <= list@.len(),
            all == ints(list@),
            all == kids(t@, i as int),
            in_tree(t@, list@),
            p == (|j: int| is_kind(t@, j, "raw_text"@) || is_kind(t@, j, "svelte_raw_text"@)),
            first(all.take(n as int), p) is None,
        decreases list@.len() - n,
    {
        proof {
            take_next(all, n as int);
            assert(all[n as int] == list@[n as int] as int);
        }
        if t.is(list[n], "raw_text") || t.is(list[n], "svelte_raw_text") {
            proof {
                crate::lists::first_of_prefix(all, p, n as int + 1);
            }
            return Some(list[n]);
        }
        n += 1;
    }
    proof {
        take_whole(all);
    }
    None
}

/// What the parts of an attribute say so far: whether it is `lang`, and its value.
pub open spec fn attribute_parts(t: TreeView, parts: Seq<int>) -> (bool, Option<Seq<char>>)
    decreases parts.len(),
{
    if parts.len() == 0 {
        (false, None)
    } else {
        let (is_lang, value) = attribute_parts(t, parts.drop_last());
        let j = parts.last();
        if is_kind(t, j, "attribute_name"@) {
            (text_of(t, j) == Some("lang"@), value)
        } else if is_kind(t, j, "quoted_attribute_value"@) || is_kind(t, j, "attribute_value"@) {
            (
                is_lang,
                match text_of(t, j) {
                    Some(s) => Some(trim_any(s, '"', '\'', '\'')),
                    None => None,
                },
            )
        } else {
            (is_lang, value)
        }
    }
}

fn read_attribute(t: &SyntaxTree, i: usize) -> (r: (bool, Option<String>))
    requires
        i < t.nodes@.len(),
    ensures
        (r.0, opt_view(r.1)) == attribute_parts(t@, kids(t@, i as int)),
{
    let list = t.children(i);
    let ghost all = ints(list@);
    let mut is_lang = false;
    let mut value: Option<String> = None;
    let mut n: usize = 0;
    proof {
        take_none(all);
    }
    while n < list.len()
        invariant
            n <= list@.len(),
            all == ints(list@),
            in_tree(t@, list@),
            (is_lang, opt_view(value)) == attribute_parts(t@, all.take(n as int)),
        decreases list@.len() - n,
    {
        let j: usize = list[n];
        proof {
            take_next(all, n as int);
            assert(all[n as int] == j as int);
        }
        if t.is(j, "attribute_name") {
            is_lang = match t.text(j) {
                Some(s) => same(s.as_str(), "lang"),
                None => false,
            };
        } else if t.is(j, "quoted_attribute_value") || t.is(j, "attribute_value") {
            value = match t.text(j) {
                Some(s) => Some(trimmed_of(s.as_str(), '"', '\'', '\'')),
                None => None,
            };
        }
        n += 1;
    }
    proof {
        take_whole(all);
    }
    (is_lang, value)
}

/// The value of the first `lang` attribute among the children of a start tag.
pub open spec fn lang_attribute(t: TreeView, attrs: Seq<int>) -> Option<Seq<char>>
    decreases attrs.len(),
{
    if attrs.len() == 0 {
        None
    } else if is_kind(t, attrs[0], "attribute"@) && attribute_parts(t, kids(t, attrs[0])).0 {
        attribute_parts(t, kids(t, attrs[0])).1
    } else {
        lang_attribute(t, attrs.drop_first())
    }
}

/// The value of a script's `lang` attribute.
pub open spec fn declared_lang(t: TreeView, i: int) -> Option<Seq<char>> {
    match child_of_kind(t, i, "start_tag"@) {
        Some(tag) => lang_attribute(t, kids(t, tag)),
        None => None,
    }
}

/// The value of the script's `lang` attribute, if present (e.g. `ts`).
fn script_lang(t: &SyntaxTree, i: usize) -> (r: Option<String>)
    requires
        i < t.nodes@.len(),
    ensures
        opt_view(r) == declared_lang(t@, i as int),
{
    let tag = match find_child(t, i, "start_tag") {
        Some(j) => j,
        None => {
            return None;
        },
    };
    let list = t.children(tag);
    let ghost all = ints(list@);
    let mut n: usize = 0;
    assert(all.skip(0) =~= all);
    while n < list.len()
        invariant
            n <= list@.len(),
            all == ints(list@),
            in_tree(t@, list@),
            declared_lang(t@, i as int) == lang_attribute(t@, all.skip(n as int)),
        decreases list@.len() - n,
    {
        assert(all.skip(n as int).drop_first() =~= all.skip(n as int + 1));
        assert(all.skip(n as int)[0] == list@[n as int] as int);
        if t.is(list[n], "attribute") {
            let (is_lang, value) = read_attribute(t, list[n]);
            if is_lang {
                return value;
            }
        }
        n += 1;
    }
    None
}

/// The language of a script: TypeScript (which also parses plain JavaScript)
/// unless the attribute says otherwise.
pub open spec fn embedded_language(attribute: Option<Seq<char>>) -> Language {
    match attribute {
        Some(l) => if lower(l) == lower("js"@) || lower(l) == lower("javascript"@) {
            Language::JavaScript
        } else {
            Language::TypeScript
        },
        None => Language::TypeScript,
    }
}

/// The symbols declared inside the `<script>` block at node `i`.
pub open spec fn script_block(t: TreeView, path: Seq<char>, i: int) -> Seq<SymbolView> {
    if is_kind(t, i, "script_element"@) {
        match raw_text(t, i) {
            Some(j) => match text_of(t, j) {
                Some(code) => {
                    let lang = embedded_language(declared_lang(t, i));
                    let grammar = if lang == Language::TypeScript {
                        Grammar::TypeScript
                    } else {
                        Grammar::JavaScript
                    };
                    match script_extraction(
                        path,
                        grammar,
                        lang,
                        Language::Svelte,
                        code,
                        t.nodes[j].start_row,
                        true,
                    ) {
                        Some(v) => v,
                        None => Seq::empty(),
                    }
                },
                None => Seq::empty(),
            },
            None => Seq::empty(),
        }
    } else {
        Seq::empty()
    }
}

fn script_block_symbols(t: &SyntaxTree, path: &str, i: usize) -> (r: Vec<IndexedSymbol>)
    requires
        i < t.nodes@.len(),
    ensures
        views(r@) == script_block(t@, path@, i as int),
{
    let none: Vec<IndexedSymbol> = Vec::new();
    assert(views(none@) =~= Seq::<SymbolView>::empty());
    if !t.is(i, "script_element") {
        return none;
    }
    let j = match script_raw_text(t, i) {
        Some(j) => j,
        None => {
            return none;
        },
    };
    let code = match t.text(j) {
        Some(c) => c,
        None => {
            return none;
        },
    };
    let lang = match script_lang(t, i) {
        Some(l) => if same_ignore_ascii_case(l.as_str(), "js") || same_ignore_ascii_case(l.as_str(), "javascript") {
            Language::JavaScript
        } else {
            Language::TypeScript
        },
        None => Language::TypeScript,
    };
    let grammar = if lang == Language::TypeScript {
        Grammar::TypeScript
    } else {
        Grammar::JavaScript
    };
    assert(t@.nodes[j as int] == t.nodes@[j as int]@);
    let offset: u32 = t.nodes[j].start_row;
    match extract_js_ts_core(path, grammar, lang, Language::Svelte, code.as_str(), offset, true) {
        Some(v) => v,
        None => none,
    }
}

/// The row at which the tree ends.
pub open spec fn last_row(t: TreeView) -> u32 {
    if t.nodes.len() > 0 {
        t.nodes[0].end_row
    } else {
        0
    }
}

/// The symbols of a `.svelte` file: the component, and what its scripts declare.
pub open spec fn svelte_symbols_of(t: TreeView, path: Seq<char>) -> Seq<SymbolView> {
    seq![component(path, last_row(t))] + flat(visit_all(t), |i: int| script_block(t, path, i))
}

/// The symbols of a `.svelte` file, from its tree.
///
/// Each component file yields a [`SymbolKind::Component`] named after the file
/// stem, plus every function/class/type declared in its `<script>` block (run
/// through the JS/TS extractor, with `lang="ts"` honoured). SvelteKit route
/// files (`+page`, `+layout`, `+server`, `+error`) carry their role in the
/// component symbol's full name and visibility.
pub fn svelte_symbols(path: &str, t: &SyntaxTree) -> (r: Vec<IndexedSymbol>)
    ensures
        views(r@) == svelte_symbols_of(t@, path@),
{
    let end_row: u32 = if t.nodes.len() > 0 {
        assert(t@.nodes[0] == t.nodes@[0]@);
        t.nodes[0].end_row
    } else {
        0
    };
    let mut out: Vec<IndexedSymbol> = Vec::new();
    out.push(component_symbol(path, end_row));
    assert(views(out@) =~= seq![component(path@, last_row(t@))]);
    let ghost want = |i: int| script_block(t@, path@, i);
    let f = |i: usize| -> (r: Vec<IndexedSymbol>)
        requires
            i < t.nodes@.len(),
        ensures
            views(r@) == want(i as int),
        {
            script_block_symbols(t, path, i)
        };
    let mut scripts = t.collect(f, Ghost(want));
    proof {
        crate::lists::views_add(out@, scripts@);
    }
    out.append(&mut scripts);
    out
}

} // verus!
