//! Which symbols a source has, and what is said of them.

use crate::graph::model::{symbol_kind_name_round_trips, Language, SymbolKind, SymbolView};
use crate::indexer::languages::{jsx_path, route_role};
use crate::indexer::syntax::{parses, query_matches, CaptureView, Grammar};
use crate::indexer::tree::{field, field_text, first_of_kind, is_kind, kids, text_of, tree_of, visit_all, TreeView};
use crate::indexer::tree_sitter::common::{
    captured, captured_node, capture_text, definition, has_above,
};
use crate::indexer::tree_sitter::data::{
    heading_level, heading_title, json_pair, json_symbols_of, markdown_at, markdown_symbols_of, yaml_anchor,
    yaml_pair, yaml_symbols_of,
};
use crate::indexer::tree_sitter::extract::{
    line_name_kind_order, line_name_kind_order_total, ordered_symbols, same_place, symbols_in,
};
use crate::indexer::tree_sitter::script::{
    attribute_parts, component, component_name, exported, raw_text, reexported, reexported_at, script_block, script_extraction,
    script_grammar, script_kind_of, script_query, script_symbol, svelte_stem, svelte_symbols_of, last_row,
    declared_lang, embedded_language, lang_attribute, JS_QUERY, TS_QUERY,
};
use crate::indexer::tree_sitter::symbols::{
    access_word, bash_symbol, child_of_kind, csharp_access, csharp_kind_of, csharp_symbol, from_matches,
    go_declared_kind, go_symbol, python_symbol, rust_kind_of, rust_pub, rust_symbol, CSHARP_QUERY, GO_QUERY,
    PYTHON_QUERY, RUST_QUERY,
};
use crate::lists::{
    first, first_found, first_of_prefix, flat, flat_members, made, made_is_picked, makes, pick, picked_from,
};
use crate::sorting::{
    dedup_of_sorted, has_alike, stable_sort, stable_sort_keeps, stable_sort_sorted,
};
use crate::text::{after_last, decimal, join, lower, text_lt_laws, trim, trim_any, trim_end, trim_end_char, trim_start, white, words};
use crate::text_laws::trim_laws;
use vstd::prelude::*;

verus! {

// --- what every symbol says -----------------------------------------------------------------------
/// The symbol says what it is, where it stands (lines counted from one), and carries
/// the id of that.
pub open spec fn tells(
    s: SymbolView,
    path: Seq<char>,
    lang: Language,
    name: Seq<char>,
    kind: SymbolKind,
    start_row: u32,
    end_row: u32,
) -> bool {
    &&& s.name == name
    &&& s.kind == kind
    &&& s.language == lang
    &&& s.file_path == path
    &&& start_row < u32::MAX ==> s.start_line == start_row + 1
    &&& end_row < u32::MAX ==> s.end_line == end_row + 1
    &&& s.id == "sym:"@ + path + "#"@ + kind.name() + "#"@ + name + "#"@ + decimal(s.start_line as nat)
}

/// What a match captured under a name is the last capture of that name.
pub proof fn captured_is_a_capture(m: Seq<CaptureView>, name: Seq<char>)
    ensures
        match captured(m, name) {
            Some(c) => m.contains(c) && c.name == name,
            None => forall|c: CaptureView| #[trigger] m.contains(c) ==> c.name != name,
        },
    decreases m.len(),
{
    if m.len() > 0 {
        let rest = m.drop_last();
        captured_is_a_capture(rest, name);
        assert(m[m.len() - 1] == m.last());
        match captured(m, name) {
            Some(c) => {
                if rest.contains(c) {
                    assert(m[rest.index_of(c)] == c);
                }
            },
            None => {
                assert forall|c: CaptureView| #[trigger] m.contains(c) implies c.name != name by {
                    let k = m.index_of(c);
                    if k < rest.len() {
                        assert(rest[k] == c);
                        assert(rest.contains(c));
                    }
                }
            },
        }
    }
}

/// A match defines the captured `def` under the text of the captured `name`.
pub proof fn definitions_are_captured(t: TreeView, m: Seq<CaptureView>, d: CaptureView, name: Seq<char>)
    ensures
        definition(t, m) == Some((d, name)) <==> captured(m, "def"@) == Some(d) && captured(m, "name"@) is Some
            && capture_text(t, captured(m, "name"@)->0) == Some(name),
{
}

/// `s` is made of what the match defines.
pub open spec fn defines(
    t: TreeView,
    f: spec_fn(CaptureView, Seq<char>) -> Option<SymbolView>,
    m: Seq<CaptureView>,
    s: SymbolView,
) -> bool {
    definition(t, m) matches Some((d, name)) && f(d, name) == Some(s)
}

/// The symbols of a source are exactly what is made of the definitions matched.
pub proof fn symbols_are_made_of_definitions(
    t: TreeView,
    matches: Seq<Seq<CaptureView>>,
    f: spec_fn(CaptureView, Seq<char>) -> Option<SymbolView>,
    s: SymbolView,
)
    ensures
        from_matches(t, matches, f).contains(s) <==> exists|m: Seq<CaptureView>| #[trigger]
            matches.contains(m) && defines(t, f, m, s),
{
    let g = |m: Seq<CaptureView>|
        match definition(t, m) {
            Some((d, name)) => f(d, name),
            None => None,
        };
    let list = from_matches(t, matches, f);
    assert(list == pick(matches, g));
    if list.contains(s) {
        picked_from(matches, g);
        assert(made(matches, g, list[list.index_of(s)]));
        let m = choose|m: Seq<CaptureView>| #[trigger] matches.contains(m) && g(m) == Some(s);
        assert(matches.contains(m) && defines(t, f, m, s));
    }
    if exists|m: Seq<CaptureView>| #[trigger]
        matches.contains(m) && defines(t, f, m, s) {
        let m = choose|m: Seq<CaptureView>| #[trigger]
            matches.contains(m) && defines(t, f, m, s);
        assert(g(m) == Some(s));
        assert(made(matches, g, s));
        made_is_picked(matches, g, s);
    }
}

/// Sorting out repeats loses no symbol: of every one that was found, one with that
/// name, kind and first line is left.
pub proof fn every_symbol_is_left(found: Seq<SymbolView>, s: SymbolView)
    requires
        found.contains(s),
    ensures
        exists|x: SymbolView| #[trigger]
            ordered_symbols(found).contains(x) && x.name == s.name && x.kind == s.kind && x.start_line == s.start_line,
        forall|x: SymbolView| #[trigger] ordered_symbols(found).contains(x) ==> found.contains(x),
{
    let le = line_name_kind_order();
    let list = stable_sort(found, le);
    line_name_kind_order_total();
    stable_sort_sorted(found, le);
    stable_sort_keeps(found, le);
    assert forall|a: SymbolView, b: SymbolView| #[trigger] same_place()(a, b) == (le(a, b) && le(b, a)) by {
        text_lt_laws(a.name, b.name, a.name);
        text_lt_laws(b.name, a.name, b.name);
        text_lt_laws(a.kind.name(), b.kind.name(), a.kind.name());
        text_lt_laws(b.kind.name(), a.kind.name(), b.kind.name());
        symbol_kind_name_round_trips(a.kind);
        symbol_kind_name_round_trips(b.kind);
    }
    dedup_of_sorted(list, le, same_place());
    assert(list.contains(s));
    assert(has_alike(ordered_symbols(found), same_place(), s));
    let x = choose|x: SymbolView| #[trigger] ordered_symbols(found).contains(x) && same_place()(s, x);
    assert(ordered_symbols(found).contains(x));
}

// --- Rust -----------------------------------------------------------------------------------------
/// Structs, enums, traits, functions and modules are symbols, and nothing else is; a
/// symbol is exported where it carries a `pub`.
pub proof fn rust_definitions_are_symbols(t: TreeView, path: Seq<char>, d: CaptureView, name: Seq<char>)
    ensures
        rust_kind_of("struct_item"@) == Some(SymbolKind::Struct),
        rust_kind_of("enum_item"@) == Some(SymbolKind::Enum),
        rust_kind_of("trait_item"@) == Some(SymbolKind::Trait),
        rust_kind_of("function_item"@) == Some(SymbolKind::Function),
        rust_kind_of("mod_item"@) == Some(SymbolKind::Module),
        rust_symbol(t, path, d, name) is Some <==> d.kind == "struct_item"@ || d.kind == "enum_item"@ || d.kind == "trait_item"@ || d.kind == "function_item"@ || d.kind == "mod_item"@,
        rust_symbol(t, path, d, name) matches Some(s) ==> tells(
            s,
            path,
            Language::Rust,
            name,
            rust_kind_of(d.kind)->0,
            d.start_row,
            d.end_row,
        ) && s.exported == rust_pub(t, d) && s.visibility == (if rust_pub(t, d) {
            "pub"@
        } else {
            ""@
        }),
{
    reveal_strlit("struct_item");
    reveal_strlit("enum_item");
    reveal_strlit("trait_item");
    reveal_strlit("function_item");
    reveal_strlit("mod_item");
    assert("struct_item"@.len() == 11 && "enum_item"@.len() == 9 && "trait_item"@.len() == 10 && "function_item"@.len() == 13);
    assert("mod_item"@.len() == 8);
}

/// A definition is public where its node has a visibility modifier that starts with
/// `pub`, and not where it has no such modifier.
pub proof fn rust_visibility(t: TreeView, d: CaptureView, i: int)
    requires
        captured_node(t, d, 0) == Some(i),
    ensures
        (forall|j: int| #[trigger] kids(t, i).contains(j) ==> t.nodes[j].kind != "visibility_modifier"@) ==> !rust_pub(
            t,
            d,
        ),
        child_of_kind(t, i, "visibility_modifier"@) matches Some(j) ==> (text_of(t, j) matches Some(s) ==> rust_pub(t, d)
            == "pub"@.is_prefix_of(s)),
{
    let p = |j: int| crate::indexer::tree::is_kind(t, j, "visibility_modifier"@);
    first_found(kids(t, i), p);
    if let Some(j) = child_of_kind(t, i, "visibility_modifier"@) {
        assert(kids(t, i).contains(j));
    }
}

// --- C# -------------------------------------------------------------------------------------------
/// Types, methods and constructors are symbols, and nothing else is; a symbol carries
/// its access modifier and is exported where that is `public`.
pub proof fn csharp_definitions_are_symbols(t: TreeView, path: Seq<char>, d: CaptureView, name: Seq<char>)
    ensures
        csharp_kind_of("class_declaration"@) == Some(SymbolKind::Class),
        csharp_kind_of("record_declaration"@) == Some(SymbolKind::Record),
        csharp_kind_of("struct_declaration"@) == Some(SymbolKind::Struct),
        csharp_kind_of("interface_declaration"@) == Some(SymbolKind::Interface),
        csharp_kind_of("enum_declaration"@) == Some(SymbolKind::Enum),
        csharp_kind_of("method_declaration"@) == Some(SymbolKind::Method),
        csharp_kind_of("constructor_declaration"@) == Some(SymbolKind::Constructor),
        csharp_symbol(t, path, d, name) is Some <==> d.kind == "class_declaration"@ || d.kind == "record_declaration"@ || d.kind == "struct_declaration"@ || d.kind == "interface_declaration"@ || d.kind == "enum_declaration"@ || d.kind == "method_declaration"@ || d.kind == "constructor_declaration"@,
        csharp_symbol(t, path, d, name) matches Some(s) ==> tells(
            s,
            path,
            Language::CSharp,
            name,
            csharp_kind_of(d.kind)->0,
            d.start_row,
            d.end_row,
        ) && s.visibility == csharp_access(t, d) && (s.exported <==> s.visibility == "public"@),
{
    reveal_strlit("class_declaration");
    reveal_strlit("record_declaration");
    reveal_strlit("struct_declaration");
    reveal_strlit("interface_declaration");
    reveal_strlit("enum_declaration");
    reveal_strlit("method_declaration");
    reveal_strlit("constructor_declaration");
    assert("class_declaration"@.len() == 17 && "record_declaration"@.len() == 18 && "struct_declaration"@.len() == 18 && "interface_declaration"@.len() == 21);
    assert("enum_declaration"@.len() == 16 && "method_declaration"@.len() == 18 && "constructor_declaration"@.len() == 23);
    assert("record_declaration"@[0] != "struct_declaration"@[0]);
    assert("record_declaration"@[0] != "method_declaration"@[0]);
    assert("struct_declaration"@[0] != "method_declaration"@[0]);
}

/// The access of a definition is that of a modifier it has: `public`, `private`,
/// `internal` or `protected`; without one it is open.
pub proof fn csharp_access_is_a_modifier(t: TreeView, d: CaptureView, i: int)
    requires
        captured_node(t, d, 0) == Some(i),
    ensures
        csharp_access(t, d) == ""@ || exists|j: int| #[trigger]
            kids(t, i).contains(j) && t.nodes[j].kind == "modifier"@ && text_of(t, j) == Some(csharp_access(t, d)) && (
            csharp_access(t, d) == "public"@ || csharp_access(t, d) == "private"@ || csharp_access(t, d) == "internal"@
                || csharp_access(t, d) == "protected"@),
        forall|j: int| #[trigger]
            kids(t, i).contains(j) && t.nodes[j].kind == "modifier"@ && text_of(t, j) == Some("public"@) && (forall|k: int|
                #[trigger] kids(t, i).contains(k) && t.nodes[k].kind == "modifier"@ && access_word(text_of(t, k)) ==> k
                    == j) ==> csharp_access(t, d) == "public"@,
{
    let p = |j: int| crate::indexer::tree::is_kind(t, j, "modifier"@) && access_word(text_of(t, j));
    first_found(kids(t, i), p);
    assert forall|j: int| #[trigger]
        kids(t, i).contains(j) && t.nodes[j].kind == "modifier"@ && text_of(t, j) == Some("public"@) && (forall|k: int|
            #[trigger] kids(t, i).contains(k) && t.nodes[k].kind == "modifier"@ && access_word(text_of(t, k)) ==> k
                == j) implies csharp_access(t, d) == "public"@ by {
        assert(p(kids(t, i)[kids(t, i).index_of(j)]));
        let k = first(kids(t, i), p)->0;
        assert(kids(t, i).contains(k));
        assert(k == j);
    }
    if let Some(j) = first(kids(t, i), p) {
        assert(kids(t, i).contains(j) && t.nodes[j].kind == "modifier"@);
    }
}

// --- Python, Go, shell ----------------------------------------------------------------------------
/// Classes and functions of Python are symbols; those whose name starts with an
/// underscore are not exported.
pub proof fn python_definitions_are_symbols(path: Seq<char>, d: CaptureView, name: Seq<char>)
    ensures
        python_symbol(path, d, name) is Some <==> d.kind == "class_definition"@ || d.kind == "function_definition"@,
        python_symbol(path, d, name) matches Some(s) ==> tells(
            s,
            path,
            Language::Python,
            name,
            if d.kind == "class_definition"@ {
                SymbolKind::Class
            } else {
                SymbolKind::Function
            },
            d.start_row,
            d.end_row,
        ) && (s.exported <==> !(name.len() > 0 && name[0] == '_')),
{
}

/// Functions and methods of Go are symbols, and types that are structs or interfaces;
/// those whose name starts with an upper-case letter are exported.
pub proof fn go_definitions_are_symbols(t: TreeView, path: Seq<char>, d: CaptureView, name: Seq<char>)
    ensures
        d.kind == "function_declaration"@ ==> (go_symbol(t, path, d, name) matches Some(s) && s.kind
            == SymbolKind::Function),
        d.kind == "method_declaration"@ ==> (go_symbol(t, path, d, name) matches Some(s) && s.kind == SymbolKind::Method),
        d.kind == "type_declaration"@ ==> (go_symbol(t, path, d, name) is Some <==> go_declared_kind(t, d) is Some),
        d.kind == "type_declaration"@ ==> (go_symbol(t, path, d, name) matches Some(s) ==> Some(s.kind)
            == go_declared_kind(t, d)),
        go_symbol(t, path, d, name) matches Some(s) ==> tells(
            s,
            path,
            Language::Go,
            name,
            s.kind,
            d.start_row,
            d.end_row,
        ) && (s.exported <==> name.len() > 0 && 'A' <= name[0] <= 'Z'),
{
    reveal_strlit("function_declaration");
    reveal_strlit("method_declaration");
    reveal_strlit("type_declaration");
    assert("function_declaration"@.len() == 20 && "method_declaration"@.len() == 18 && "type_declaration"@.len() == 16);
}

/// A type that Go declares is told by the first of its specifications: a struct, an
/// interface, or nothing that is a symbol.
pub proof fn go_types_are_told(t: TreeView, d: CaptureView, i: int, k: int, ty: int)
    requires
        captured_node(t, d, 0) == Some(i),
        0 <= k < kids(t, i).len(),
        t.nodes[kids(t, i)[k]].kind == "type_spec"@,
        field(t, kids(t, i)[k], "type"@) == Some(ty),
        forall|j: int|
            0 <= j < k ==> t.nodes[#[trigger] kids(t, i)[j]].kind != "type_spec"@ || field(t, kids(t, i)[j], "type"@) is None,
    ensures
        t.nodes[ty].kind == "struct_type"@ ==> go_declared_kind(t, d) == Some(SymbolKind::Struct),
        t.nodes[ty].kind == "interface_type"@ ==> go_declared_kind(t, d) == Some(SymbolKind::Interface),
        t.nodes[ty].kind != "struct_type"@ && t.nodes[ty].kind != "interface_type"@ ==> go_declared_kind(t, d) is None,
{
    reveal_strlit("struct_type");
    reveal_strlit("interface_type");
    assert("struct_type"@.len() != "interface_type"@.len());
    let list = kids(t, i);
    let p = |j: int| is_kind(t, j, "type_spec"@) && field(t, j, "type"@) is Some;
    let front = list.take(k + 1);
    first_found(list.take(k), p);
    if first(list.take(k), p) is Some {
        let x = first(list.take(k), p)->0;
        let j = list.take(k).index_of(x);
        assert(list.take(k)[j] == list[j]);
    }
    assert(front.drop_last() =~= list.take(k));
    assert(front.last() == list[k]);
    assert(first(front, p) == Some(list[k]));
    first_of_prefix(list, p, k + 1);
}

/// Functions of the shell are symbols, and all are exported.
pub proof fn bash_definitions_are_symbols(path: Seq<char>, d: CaptureView, name: Seq<char>)
    ensures
        bash_symbol(path, d, name) matches Some(s) && tells(
            s,
            path,
            Language::Bash,
            name,
            SymbolKind::Function,
            d.start_row,
            d.end_row,
        ) && s.exported,
{
}

// --- JavaScript, TypeScript, Svelte ---------------------------------------------------------------
/// Functions, classes, interfaces, type aliases and enums are symbols, and so are
/// variables that hold a function. In files of components a function or class with a
/// capital is a component. A symbol is exported where it stands in an export, or its
/// name is listed in one.
pub proof fn script_definitions_are_symbols(
    t: TreeView,
    path: Seq<char>,
    lang: Language,
    offset: u32,
    jsx: bool,
    d: CaptureView,
    name: Seq<char>,
)
    ensures
        script_kind_of("function_declaration"@) == Some(SymbolKind::Function),
        script_kind_of("class_declaration"@) == Some(SymbolKind::Class),
        script_kind_of("interface_declaration"@) == Some(SymbolKind::Interface),
        script_kind_of("type_alias_declaration"@) == Some(SymbolKind::TypeAlias),
        script_kind_of("enum_declaration"@) == Some(SymbolKind::Enum),
        script_kind_of("lexical_declaration"@) == Some(SymbolKind::Function),
        script_kind_of("variable_declaration"@) == Some(SymbolKind::Function),
        script_symbol(t, path, lang, offset, jsx, d, name) is Some <==> d.kind == "function_declaration"@ || d.kind == "class_declaration"@ || d.kind == "interface_declaration"@ || d.kind == "type_alias_declaration"@ || d.kind == "enum_declaration"@ || d.kind == "lexical_declaration"@ || d.kind == "variable_declaration"@,
        script_symbol(t, path, lang, offset, jsx, d, name) matches Some(s) ==> {
            let kind = script_kind_of(d.kind)->0;
            &&& s.name == name && s.full_name == name && s.language == lang && s.file_path == path
            &&& s.kind == (if jsx && name.len() > 0 && 'A' <= name[0] <= 'Z' && (kind == SymbolKind::Function || kind
                == SymbolKind::Class) {
                SymbolKind::Component
            } else {
                kind
            })
            &&& d.start_row + offset < u32::MAX ==> s.start_line == d.start_row + offset + 1
            &&& d.end_row + offset < u32::MAX ==> s.end_line == d.end_row + offset + 1
            &&& s.exported <==> exported(t, d, name)
            &&& s.visibility == (if s.exported {
                "export"@
            } else {
                ""@
            })
        },
{
    reveal_strlit("function_declaration");
    reveal_strlit("class_declaration");
    reveal_strlit("interface_declaration");
    reveal_strlit("type_alias_declaration");
    reveal_strlit("enum_declaration");
    reveal_strlit("lexical_declaration");
    reveal_strlit("variable_declaration");
    assert("function_declaration"@.len() == 20 && "class_declaration"@.len() == 17 && "interface_declaration"@.len() == 21 && "type_alias_declaration"@.len() == 22);
    assert("enum_declaration"@.len() == 16 && "lexical_declaration"@.len() == 19 && "variable_declaration"@.len() == 20);
    assert("function_declaration"@[0] != "variable_declaration"@[0]);
}

/// A name counts as exported where an export lists it, or its definition stands in one.
pub proof fn exports_are_found(t: TreeView, d: CaptureView, name: Seq<char>, i: int)
    ensures
        visit_all(t).contains(i) && t.nodes[i].kind == "export_specifier"@ && field_text(t, i, "name"@) == Some(name)
            ==> exported(t, d, name),
        captured_node(t, d, 0) == Some(i) && has_above(t, i, "export_statement"@) ==> exported(t, d, name),
        exported(t, d, name) ==> (captured_node(t, d, 0) matches Some(k) && has_above(t, k, "export_statement"@))
            || exists|k: int| #[trigger]
            visit_all(t).contains(k) && t.nodes[k].kind == "export_specifier"@ && field_text(t, k, "name"@) == Some(name),
{
    let f = |i: int| reexported_at(t, i);
    flat_members(visit_all(t), f, name);
    if visit_all(t).contains(i) && t.nodes[i].kind == "export_specifier"@ && field_text(t, i, "name"@) == Some(name) {
        assert(f(i)[0] == name);
        assert(visit_all(t).contains(i) && f(i).contains(name));
        assert(makes(visit_all(t), f, name));
    }
    if reexported(t).contains(name) {
        let k = choose|k: int| #[trigger] visit_all(t).contains(k) && f(k).contains(name);
        assert(f(k)[f(k).index_of(name)] == name);
        assert(visit_all(t).contains(k) && t.nodes[k].kind == "export_specifier"@);
    }
}

/// A Svelte file is a component, exported under its name (with its directory for
/// routes), and has the symbols of its scripts besides.
pub proof fn svelte_files_are_components(t: TreeView, path: Seq<char>, i: int, s: SymbolView)
    ensures
        svelte_symbols_of(t, path).len() > 0,
        svelte_symbols_of(t, path)[0].kind == SymbolKind::Component,
        svelte_symbols_of(t, path)[0].exported,
        svelte_symbols_of(t, path)[0].file_path == path,
        svelte_symbols_of(t, path)[0].start_line == 1,
        svelte_symbols_of(t, path)[0].language == Language::Svelte,
        svelte_symbols_of(t, path)[0].name == component_name(path),
        route_role(path) is None ==> svelte_symbols_of(t, path)[0].name == svelte_stem(path),
        visit_all(t).contains(i) && script_block(t, path, i).contains(s) ==> svelte_symbols_of(t, path).contains(s),
{
    let f = |i: int| script_block(t, path, i);
    let rest = flat(visit_all(t), f);
    let all = svelte_symbols_of(t, path);
    assert(all[0] == component(path, last_row(t)));
    if visit_all(t).contains(i) && script_block(t, path, i).contains(s) {
        assert(visit_all(t).contains(i) && f(i).contains(s));
        assert(makes(visit_all(t), f, s));
        flat_members(visit_all(t), f, s);
        assert(all[1 + rest.index_of(s)] == s);
    }
}

/// The script of a Svelte file is read as TypeScript, unless it is said to be
/// JavaScript; its lines are counted from where it stands.
pub proof fn svelte_scripts_are_read(t: TreeView, path: Seq<char>, i: int, j: int, code: Seq<char>)
    requires
        t.nodes[i].kind == "script_element"@,
        raw_text(t, i) == Some(j),
        text_of(t, j) == Some(code),
    ensures
        declared_lang(t, i) is None ==> script_block(t, path, i) == (match script_extraction(
            path,
            Grammar::TypeScript,
            Language::TypeScript,
            Language::Svelte,
            code,
            t.nodes[j].start_row,
            true,
        ) {
            Some(v) => v,
            None => Seq::empty(),
        }),
        declared_lang(t, i) == Some("js"@) || declared_lang(t, i) == Some("javascript"@) ==> script_block(t, path, i) == (
        match script_extraction(
            path,
            Grammar::JavaScript,
            Language::JavaScript,
            Language::Svelte,
            code,
            t.nodes[j].start_row,
            true,
        ) {
            Some(v) => v,
            None => Seq::empty(),
        }),
{
}

/// A script is said to be in a language by the first `lang` among the attributes of its
/// tag; what stands before it, and attributes of other names, say nothing.
pub proof fn lang_of_a_script_is_read(
    t: TreeView,
    before: Seq<int>,
    a: int,
    after: Seq<int>,
    name: int,
    value: int,
    s: Seq<char>,
)
    requires
        t.nodes[a].kind == "attribute"@,
        kids(t, a) == seq![name, value],
        t.nodes[name].kind == "attribute_name"@,
        t.nodes[value].kind == "quoted_attribute_value"@ || t.nodes[value].kind == "attribute_value"@,
        text_of(t, value) == Some(s),
        forall|k: int| 0 <= k < before.len() ==> t.nodes[#[trigger] before[k]].kind != "attribute"@,
    ensures
        text_of(t, name) == Some("lang"@) ==> lang_attribute(t, before + seq![a] + after) == Some(
            trim_any(s, '"', '\'', '\''),
        ),
        text_of(t, name) != Some("lang"@) ==> lang_attribute(t, before + seq![a] + after) == lang_attribute(t, after),
    decreases before.len(),
{
    let all = before + seq![a] + after;
    if before.len() > 0 {
        lang_of_a_script_is_read(t, before.drop_first(), a, after, name, value, s);
        assert(all[0] == before[0]);
        assert(all.drop_first() =~= before.drop_first() + seq![a] + after);
    } else {
        reveal_strlit("attribute_name");
        reveal_strlit("attribute_value");
        reveal_strlit("quoted_attribute_value");
        assert("attribute_name"@.len() == 14 && "attribute_value"@.len() == 15 && "quoted_attribute_value"@.len() == 22);
        let parts = seq![name, value];
        assert(parts.drop_last() =~= seq![name]);
        assert(seq![name].drop_last() =~= Seq::<int>::empty());
        reveal_with_fuel(attribute_parts, 4);
        assert(attribute_parts(t, seq![name]) == (text_of(t, name) == Some("lang"@), None::<Seq<char>>));
        assert(all[0] == a);
        assert(all.drop_first() =~= after);
    }
}

/// Only what is said to be JavaScript is read as that, in any case of letters.
pub proof fn scripts_are_typescript_unless_said(s: Seq<char>)
    ensures
        embedded_language(None) == Language::TypeScript,
        lower(s) == "js"@ || lower(s) == "javascript"@ ==> embedded_language(Some(s)) == Language::JavaScript,
        lower(s) != "js"@ && lower(s) != "javascript"@ ==> embedded_language(Some(s)) == Language::TypeScript,
{
    reveal_strlit("js");
    reveal_strlit("javascript");
    assert(lower("js"@) =~= "js"@);
    assert(lower("javascript"@) =~= "javascript"@);
}

/// The name of a component is its file's without the extension.
pub proof fn component_is_called_by_its_file(dir: Seq<char>, stem: Seq<char>)
    requires
        !stem.contains('/'),
    ensures
        svelte_stem(dir + seq!['/'] + stem + ".svelte"@) == stem,
{
    reveal_strlit(".svelte");
    let name = stem + ".svelte"@;
    let path = dir + seq!['/'] + stem + ".svelte"@;
    assert forall|j: int| dir.len() < j < path.len() implies path[j] != '/' by {
        if j - dir.len() - 1 < stem.len() {
            assert(stem.contains(stem[j - dir.len() - 1]));
        }
    }
    crate::text::last_index_is(path, '/', dir.len() as int);
    assert(after_last(path, '/') =~= name);
    assert(".svelte"@ =~= name.subrange(name.len() - ".svelte"@.len(), name.len() as int));
    assert(name.take(name.len() - ".svelte"@.len()) =~= stem);
}

// --- data -----------------------------------------------------------------------------------------
/// The keys of a YAML file's first mapping are symbols, and so are its anchors.
pub proof fn yaml_keys_are_symbols(t: TreeView, path: Seq<char>, m: int, i: int, key: Seq<char>)
    requires
        first_of_kind(t, "block_mapping"@) == Some(m),
        kids(t, m).contains(i),
        t.nodes[i].kind == "block_mapping_pair"@,
        field_text(t, i, "key"@) == Some(key),
        trim(key).len() > 0,
    ensures
        exists|s: SymbolView| #[trigger]
            yaml_symbols_of(t, path).contains(s) && tells(
                s,
                path,
                Language::Yaml,
                trim(key),
                SymbolKind::Key,
                t.nodes[i].start_row,
                t.nodes[i].end_row,
            ),
{
    let f = |i: int| yaml_pair(t, path, i);
    let s = yaml_pair(t, path, i)->0;
    let keys = pick(kids(t, m), f);
    assert(f(i) == Some(s));
    assert(made(kids(t, m), f, s));
    made_is_picked(kids(t, m), f, s);
    let all = yaml_symbols_of(t, path);
    let k = keys.index_of(s);
    assert(keys[k] == s);
    assert(all[k] == s);
    assert(all.contains(s));
}

/// The anchors of a YAML file are symbols.
pub proof fn yaml_anchors_are_symbols(t: TreeView, path: Seq<char>, i: int, name: Seq<char>)
    requires
        visit_all(t).contains(i),
        t.nodes[i].kind == "anchor_name"@,
        text_of(t, i) == Some(name),
        trim(name).len() > 0,
    ensures
        exists|s: SymbolView| #[trigger]
            yaml_symbols_of(t, path).contains(s) && s.name == trim(name) && s.visibility == "anchor"@,
{
    let f = |i: int| yaml_anchor(t, path, i);
    let s = f(i)[0];
    assert(visit_all(t).contains(i) && f(i).contains(s));
    assert(makes(visit_all(t), f, s));
    flat_members(visit_all(t), f, s);
    let all = yaml_symbols_of(t, path);
    let tail = flat(visit_all(t), f);
    let k = all.len() - tail.len() + tail.index_of(s);
    assert(tail[tail.index_of(s)] == s);
    assert(all[k] == s);
    assert(all.contains(s));
}

/// The keys of a JSON file's first object are symbols, without their quotes.
pub proof fn json_keys_are_symbols(t: TreeView, path: Seq<char>, o: int, i: int, key: Seq<char>)
    requires
        first_of_kind(t, "object"@) == Some(o),
        kids(t, o).contains(i),
        t.nodes[i].kind == "pair"@,
        field_text(t, i, "key"@) == Some(key),
        trim_any(trim(key), '"', '"', '"').len() > 0,
    ensures
        exists|s: SymbolView| #[trigger]
            json_symbols_of(t, path).contains(s) && tells(
                s,
                path,
                Language::Json,
                trim_any(trim(key), '"', '"', '"'),
                SymbolKind::Key,
                t.nodes[i].start_row,
                t.nodes[i].end_row,
            ),
{
    let f = |i: int| json_pair(t, path, i);
    let s = json_pair(t, path, i)->0;
    assert(f(i) == Some(s));
    assert(made(kids(t, o), f, s));
    made_is_picked(kids(t, o), f, s);
    assert(json_symbols_of(t, path).contains(s));
}

/// The headings of a Markdown file are symbols, called by their titles and marked by
/// their level.
pub proof fn headings_are_symbols(t: TreeView, path: Seq<char>, i: int, raw: Seq<char>)
    requires
        visit_all(t).contains(i),
        t.nodes[i].kind == "atx_heading"@ || t.nodes[i].kind == "setext_heading"@,
        field_text(t, i, "heading_content"@) == Some(raw),
        heading_title(raw).len() > 0,
    ensures
        exists|s: SymbolView| #[trigger]
            markdown_symbols_of(t, path).contains(s) && tells(
                s,
                path,
                Language::Markdown,
                heading_title(raw),
                SymbolKind::Key,
                t.nodes[i].start_row,
                t.nodes[i].end_row,
            ) && s.visibility == "h"@ + decimal(heading_level(t, kids(t, i)) as nat),
{
    let f = |i: int| markdown_at(t, path, i);
    let s = f(i)[0];
    assert(visit_all(t).contains(i) && f(i).contains(s));
    assert(makes(visit_all(t), f, s));
    flat_members(visit_all(t), f, s);
    assert(markdown_symbols_of(t, path).contains(s));
}

/// The level of a heading is that of its marker.
pub proof fn heading_levels_are_those_of_markers(t: TreeView, list: Seq<int>, j: int, level: u8)
    requires
        list.len() > 0,
        j == list.last(),
        1 <= level <= 6,
    ensures
        level == 1 && (t.nodes[j].kind == "atx_h1_marker"@ || t.nodes[j].kind == "setext_h1_underline"@)
            ==> heading_level(t, list) == 1,
        level == 2 && (t.nodes[j].kind == "atx_h2_marker"@ || t.nodes[j].kind == "setext_h2_underline"@)
            ==> heading_level(t, list) == 2,
        t.nodes[j].kind == "atx_h3_marker"@ ==> heading_level(t, list) == 3,
        t.nodes[j].kind == "atx_h4_marker"@ ==> heading_level(t, list) == 4,
        t.nodes[j].kind == "atx_h5_marker"@ ==> heading_level(t, list) == 5,
        t.nodes[j].kind == "atx_h6_marker"@ ==> heading_level(t, list) == 6,
{
    reveal_strlit("atx_h1_marker");
    reveal_strlit("atx_h2_marker");
    reveal_strlit("atx_h3_marker");
    reveal_strlit("atx_h4_marker");
    reveal_strlit("atx_h5_marker");
    reveal_strlit("atx_h6_marker");
    reveal_strlit("setext_h1_underline");
    reveal_strlit("setext_h2_underline");
    assert("atx_h1_marker"@.len() == 13 && "atx_h2_marker"@.len() == 13 && "atx_h3_marker"@.len() == 13 && "atx_h4_marker"@.len() == 13);
    assert("atx_h5_marker"@.len() == 13 && "atx_h6_marker"@.len() == 13 && "setext_h1_underline"@.len() == 19 && "setext_h2_underline"@.len() == 19);
    assert("atx_h1_marker"@[5] != "atx_h2_marker"@[5]);
    assert("atx_h1_marker"@[5] != "atx_h3_marker"@[5]);
    assert("atx_h1_marker"@[5] != "atx_h4_marker"@[5]);
    assert("atx_h1_marker"@[5] != "atx_h5_marker"@[5]);
    assert("atx_h1_marker"@[5] != "atx_h6_marker"@[5]);
    assert("atx_h2_marker"@[5] != "atx_h3_marker"@[5]);
    assert("atx_h2_marker"@[5] != "atx_h4_marker"@[5]);
    assert("atx_h2_marker"@[5] != "atx_h5_marker"@[5]);
    assert("atx_h2_marker"@[5] != "atx_h6_marker"@[5]);
    assert("atx_h3_marker"@[5] != "atx_h4_marker"@[5]);
    assert("atx_h3_marker"@[5] != "atx_h5_marker"@[5]);
    assert("atx_h3_marker"@[5] != "atx_h6_marker"@[5]);
    assert("atx_h4_marker"@[5] != "atx_h5_marker"@[5]);
    assert("atx_h4_marker"@[5] != "atx_h6_marker"@[5]);
    assert("atx_h5_marker"@[5] != "atx_h6_marker"@[5]);
    assert("setext_h1_underline"@[8] != "setext_h2_underline"@[8]);
}

/// Every symbol of a JSON file is a key of its first object.
pub proof fn json_symbols_are_keys(t: TreeView, path: Seq<char>, s: SymbolView) -> (r: (int, int))
    requires
        json_symbols_of(t, path).contains(s),
    ensures
        first_of_kind(t, "object"@) == Some(r.0),
        kids(t, r.0).contains(r.1),
        t.nodes[r.1].kind == "pair"@,
        field_text(t, r.1, "key"@) is Some,
        s.name == trim_any(trim(field_text(t, r.1, "key"@)->0), '"', '"', '"'),
        s.name.len() > 0,
{
    let o = first_of_kind(t, "object"@)->0;
    let i = key_behind(kids(t, o), |i: int| json_pair(t, path, i), s);
    (o, i)
}

/// Every symbol of a YAML file is a key of its first mapping or an anchor.
pub proof fn yaml_symbols_are_keys_and_anchors(t: TreeView, path: Seq<char>, s: SymbolView) -> (i: int)
    requires
        yaml_symbols_of(t, path).contains(s),
    ensures
        ({
            ||| {
                &&& first_of_kind(t, "block_mapping"@) is Some
                &&& kids(t, first_of_kind(t, "block_mapping"@)->0).contains(i)
                &&& t.nodes[i].kind == "block_mapping_pair"@
                &&& field_text(t, i, "key"@) is Some
                &&& s.name == trim(field_text(t, i, "key"@)->0)
                &&& s.visibility == ""@
            }
            ||| {
                &&& visit_all(t).contains(i)
                &&& t.nodes[i].kind == "anchor_name"@
                &&& text_of(t, i) is Some
                &&& s.name == trim(text_of(t, i)->0)
                &&& s.visibility == "anchor"@
            }
        }),
        s.name.len() > 0,
{
    let all = yaml_symbols_of(t, path);
    let f = |i: int| yaml_anchor(t, path, i);
    let anchors = flat(visit_all(t), f);
    let g = |i: int| yaml_pair(t, path, i);
    let m = first_of_kind(t, "block_mapping"@);
    let keys = match m {
        Some(m) => pick(kids(t, m), g),
        None => Seq::empty(),
    };
    assert(all == keys + anchors);
    let k = all.index_of(s);
    assert(all[k] == s);
    if k < keys.len() {
        assert(keys[k] == s);
        key_behind(kids(t, m->0), g, s)
    } else {
        assert(anchors[k - keys.len()] == s);
        flat_members(visit_all(t), f, s);
        let i = choose|i: int| #[trigger] visit_all(t).contains(i) && f(i).contains(s);
        i
    }
}

proof fn key_behind(list: Seq<int>, f: spec_fn(int) -> Option<SymbolView>, s: SymbolView) -> (i: int)
    requires
        pick(list, f).contains(s),
    ensures
        list.contains(i),
        f(i) == Some(s),
{
    picked_from(list, f);
    let all = pick(list, f);
    assert(all[all.index_of(s)] == s);
    assert(made(list, f, s));
    let k = choose|k: int| 0 <= k < list.len() && f(#[trigger] list[k]) == Some(s);
    list[k]
}

/// Every symbol of a Markdown file is a heading.
pub proof fn markdown_symbols_are_headings(t: TreeView, path: Seq<char>, s: SymbolView) -> (i: int)
    requires
        markdown_symbols_of(t, path).contains(s),
    ensures
        visit_all(t).contains(i),
        t.nodes[i].kind == "atx_heading"@ || t.nodes[i].kind == "setext_heading"@,
        field_text(t, i, "heading_content"@) is Some,
        s.name == heading_title(field_text(t, i, "heading_content"@)->0),
        s.name.len() > 0,
        s.full_name == s.visibility + " "@ + s.name,
        s.exported == false,
{
    let f = |i: int| markdown_at(t, path, i);
    flat_members(visit_all(t), f, s);
    let i = choose|i: int| #[trigger] visit_all(t).contains(i) && f(i).contains(s);
    i
}

/// The title of a heading is its words, without the marks that close it.
pub proof fn titles_are_the_words(raw: Seq<char>)
    ensures
        raw.len() > 0 && !white(raw[0]) && !white(raw.last()) && raw.last() != '#' ==> heading_title(raw) == join(
            words(raw),
            " "@,
        ),
{
    if raw.len() > 0 && !white(raw[0]) && !white(raw.last()) && raw.last() != '#' {
        trim_laws(raw);
        assert(trim(raw) =~= raw);
        assert(trim_end_char(raw, '#') =~= raw);
    }
}

/// The marks that close a heading are no part of its title.
pub proof fn closing_marks_are_no_title(raw: Seq<char>, n: nat)
    requires
        raw.len() > 0,
        !white(raw[0]),
        !white(raw.last()),
        raw.last() != '#',
        n > 0,
    ensures
        heading_title(raw + seq![' '] + Seq::new(n, |i: int| '#')) == join(words(raw), " "@),
{
    let marks = Seq::new(n, |i: int| '#');
    let whole = raw + seq![' '] + marks;
    assert(whole[0] == raw[0] && whole.last() == '#');
    assert(!white('#'));
    assert(white(' '));
    assert(trim(whole) =~= whole);
    closing_marks_go(raw + seq![' '], n);
    let rest = raw + seq![' '];
    assert(rest.drop_last() =~= raw);
    assert(trim_start(rest) =~= rest);
    assert(rest.last() == ' ');
    assert(trim_end(rest) == trim_end(raw));
    assert(trim_end(raw) == raw);
    assert(trim(rest) == raw);
}

proof fn closing_marks_go(s: Seq<char>, n: nat)
    requires
        s.len() > 0,
        s.last() != '#',
    ensures
        trim_end_char(s + Seq::new(n, |i: int| '#'), '#') == s,
    decreases n,
{
    let all = s + Seq::new(n, |i: int| '#');
    if n == 0 {
        assert(all =~= s);
    } else {
        closing_marks_go(s, (n - 1) as nat);
        assert(all.drop_last() =~= s + Seq::new((n - 1) as nat, |i: int| '#'));
    }
}

// --- which grammar --------------------------------------------------------------------------------
/// Every language is read with its own grammar; TypeScript with components has one of
/// its own.
pub proof fn sources_are_read_in_their_grammar(path: Seq<char>, text: Seq<char>)
    ensures
        !parses(Grammar::Rust, text) ==> symbols_in(path, Language::Rust, text).len() == 0,
        !parses(Grammar::CSharp, text) ==> symbols_in(path, Language::CSharp, text).len() == 0,
        parses(Grammar::Rust, text) ==> (query_matches(Grammar::Rust, text, RUST_QUERY@) matches Some(m) ==> symbols_in(
            path,
            Language::Rust,
            text,
        ) == from_matches(
            tree_of(Grammar::Rust, text),
            m,
            |d: CaptureView, name: Seq<char>| rust_symbol(tree_of(Grammar::Rust, text), path, d, name),
        )),
        parses(Grammar::CSharp, text) ==> (query_matches(Grammar::CSharp, text, CSHARP_QUERY@) matches Some(m)
            ==> symbols_in(path, Language::CSharp, text) == from_matches(
            tree_of(Grammar::CSharp, text),
            m,
            |d: CaptureView, name: Seq<char>| csharp_symbol(tree_of(Grammar::CSharp, text), path, d, name),
        )),
        parses(Grammar::Python, text) ==> (query_matches(Grammar::Python, text, PYTHON_QUERY@) matches Some(m)
            ==> symbols_in(path, Language::Python, text) == from_matches(
            tree_of(Grammar::Python, text),
            m,
            |d: CaptureView, name: Seq<char>| python_symbol(path, d, name),
        )),
        parses(Grammar::Go, text) ==> (query_matches(Grammar::Go, text, GO_QUERY@) matches Some(m) ==> symbols_in(
            path,
            Language::Go,
            text,
        ) == from_matches(
            tree_of(Grammar::Go, text),
            m,
            |d: CaptureView, name: Seq<char>| go_symbol(tree_of(Grammar::Go, text), path, d, name),
        )),
        script_grammar(path, Language::JavaScript) == Grammar::JavaScript,
        script_grammar(path, Language::TypeScript) == (if jsx_path(path) {
            Grammar::Tsx
        } else {
            Grammar::TypeScript
        }),
        script_query(Language::TypeScript) == TS_QUERY@,
        script_query(Language::JavaScript) == JS_QUERY@,
        parses(Grammar::Yaml, text) ==> symbols_in(path, Language::Yaml, text) == yaml_symbols_of(
            tree_of(Grammar::Yaml, text),
            path,
        ),
        parses(Grammar::Json, text) ==> symbols_in(path, Language::Json, text) == json_symbols_of(
            tree_of(Grammar::Json, text),
            path,
        ),
        parses(Grammar::Markdown, text) ==> symbols_in(path, Language::Markdown, text) == markdown_symbols_of(
            tree_of(Grammar::Markdown, text),
            path,
        ),
        parses(Grammar::Svelte, text) ==> symbols_in(path, Language::Svelte, text) == svelte_symbols_of(
            tree_of(Grammar::Svelte, text),
            path,
        ),
        symbols_in(path, Language::Other, text).len() == 0,
{
}

} // verus!
