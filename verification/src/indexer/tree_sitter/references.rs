//! References: which name a usage site points at, and which declaration encloses
//! that usage. Name-based and best-effort; resolution to symbols (and dropping
//! names that no symbol declares) happens when the index is built.

use crate::graph::model::Language;
use crate::indexer::facts::{Reference, ReferenceView};
use crate::indexer::syntax::parses;
use crate::indexer::tree::{
    field, field_text, is_kind, kids, parent, parent_before, text_of, tree_of, visit_all, SyntaxTree, TreeView,
};
use crate::indexer::tree_sitter::common::{bare, bare_type_name};
use crate::indexer::tree_sitter::supertypes::{
    csharp_type_node, flat_agrees, flat_of_nothing, grammar_for_relations, is_csharp_type_node, one, relation_grammar,
};
use crate::indexer::tree_sitter::symbols::{child_of_kind, find_child};
use crate::lists::{dedup_views, flat, pick, sort_views};
use crate::sorting::{dedup, stable_sort};
use crate::text::{before, opt_view, same, text_le, text_lt, views};
use vstd::prelude::*;

verus! {

/// A kind of node that counts as an enclosing declaration.
pub open spec fn is_decl_kind(lang: Language, k: Seq<char>) -> bool {
    match lang {
        Language::CSharp => k == "method_declaration"@ || k == "constructor_declaration"@ || k == "class_declaration"@
            || k == "record_declaration"@ || k == "struct_declaration"@,
        Language::Rust => k == "function_item"@ || k == "impl_item"@ || k == "struct_item"@ || k == "enum_item"@,
        _ => k == "function_declaration"@ || k == "method_definition"@ || k == "class_declaration"@ || k
            == "variable_declarator"@,
    }
}

fn declares(lang: Language, k: &str) -> (r: bool)
    ensures
        r == is_decl_kind(lang, k@),
{
    match lang {
        Language::CSharp => same(k, "method_declaration") || same(k, "constructor_declaration") || same(
            k,
            "class_declaration",
        ) || same(k, "record_declaration") || same(k, "struct_declaration"),
        Language::Rust => same(k, "function_item") || same(k, "impl_item") || same(k, "struct_item") || same(
            k,
            "enum_item",
        ),
        _ => same(k, "function_declaration") || same(k, "method_definition") || same(k, "class_declaration") || same(
            k,
            "variable_declarator",
        ),
    }
}

/// The name of the nearest declaration above node `i`; empty without one.
pub open spec fn enclosing(lang: Language, t: TreeView, i: int) -> Seq<char>
    decreases i,
    via enclosing_shrinks
{
    if i < 0 {
        ""@
    } else {
        match parent(t, i) {
            Some(p) => if is_decl_kind(lang, t.nodes[p].kind) && field_text(t, p, "name"@) is Some {
                field_text(t, p, "name"@)->0
            } else {
                enclosing(lang, t, p)
            },
            None => ""@,
        }
    }
}

#[via_fn]
proof fn enclosing_shrinks(lang: Language, t: TreeView, i: int) {
    parent_before(t, i, i - 1);
}

/// Name of the nearest ancestor declaration of node `i`, read from its `name`
/// field. Empty when none is found (e.g. a top-level / module-scope usage).
pub fn enclosing_decl_name(lang: Language, t: &SyntaxTree, i: usize) -> (r: String)
    requires
        i < t.nodes@.len(),
    ensures
        r@ == enclosing(lang, t@, i as int),
{
    let mut at: usize = i;
    loop
        invariant
            at < t.nodes@.len(),
            enclosing(lang, t@, at as int) == enclosing(lang, t@, i as int),
        decreases at,
    {
        match t.parent(at) {
            Some(p) => {
                assert(t@.nodes[p as int] == t.nodes@[p as int]@);
                if declares(lang, t.nodes[p].kind.as_str()) {
                    match t.field_text(p, "name") {
                        Some(s) => {
                            return s;
                        },
                        None => {},
                    }
                }
                at = p;
            },
            None => {
                return "".to_owned();
            },
        }
    }
}

/// The reference to the type or function that node `i` names.
pub open spec fn named_ref(t: TreeView, from: Seq<char>, i: int) -> Option<ReferenceView> {
    match text_of(t, i) {
        Some(s) => if bare(s).len() > 0 {
            Some(ReferenceView { from, to: bare(s) })
        } else {
            None
        },
        None => None,
    }
}

fn ref_to(t: &SyntaxTree, from: &str, i: usize) -> (r: Option<Reference>)
    requires
        i < t.nodes@.len(),
    ensures
        opt_view(r) == named_ref(t@, from@, i as int),
{
    match t.text(i) {
        Some(s) => {
            let to = bare_type_name(s.as_str());
            if to.as_str().is_empty() {
                None
            } else {
                Some(Reference { from: from.to_owned(), to })
            }
        },
        None => None,
    }
}

// --- C# -----------------------------------------------------------------------------------
/// The node that names what node `i` uses: the constructed type, the invoked
/// function, or the declared type of a parameter, property or field.
pub open spec fn csharp_target(t: TreeView, i: int) -> Option<int> {
    if is_kind(t, i, "object_creation_expression"@) {
        field(t, i, "type"@)
    } else if is_kind(t, i, "invocation_expression"@) {
        field(t, i, "function"@)
    } else if is_kind(t, i, "parameter"@) || is_kind(t, i, "property_declaration"@) {
        field(t, i, "type"@)
    } else if is_kind(t, i, "field_declaration"@) {
        match child_of_kind(t, i, "variable_declaration"@) {
            Some(d) => field(t, d, "type"@),
            None => None,
        }
    } else {
        None
    }
}

fn csharp_target_of(t: &SyntaxTree, i: usize) -> (r: Option<usize>)
    requires
        i < t.nodes@.len(),
    ensures
        r is Some == csharp_target(t@, i as int) is Some,
        r matches Some(j) ==> j < t.nodes@.len() && csharp_target(t@, i as int) == Some(j as int),
{
    if t.is(i, "object_creation_expression") {
        t.child_by_field(i, "type")
    } else if t.is(i, "invocation_expression") {
        t.child_by_field(i, "function")
    } else if t.is(i, "parameter") || t.is(i, "property_declaration") {
        t.child_by_field(i, "type")
    } else if t.is(i, "field_declaration") {
        match find_child(t, i, "variable_declaration") {
            Some(d) => t.child_by_field(d, "type"),
            None => None,
        }
    } else {
        None
    }
}

/// The generic arguments that node `i` lists.
pub open spec fn csharp_arguments(t: TreeView, i: int) -> Seq<ReferenceView> {
    if is_kind(t, i, "type_argument_list"@) {
        pick(
            kids(t, i),
            |a: int|
                if csharp_type_node(t, a) {
                    named_ref(t, enclosing(Language::CSharp, t, i), a)
                } else {
                    None
                },
        )
    } else {
        Seq::empty()
    }
}

/// C#: `new Foo(...)`, `Foo.Bar()` / `Bar()` invocations, generic type arguments
/// (`List<Foo>`), parameter types (`void M(Foo f)`), and property / field types
/// (`Foo Bar { get; }`, `Foo _bar;`).
pub open spec fn csharp_refs_at(t: TreeView, i: int) -> Seq<ReferenceView> {
    let direct = match csharp_target(t, i) {
        Some(j) => one(named_ref(t, enclosing(Language::CSharp, t, i), j)),
        None => Seq::empty(),
    };
    direct + csharp_arguments(t, i)
}

fn csharp_argument_refs(t: &SyntaxTree, i: usize) -> (r: Vec<Reference>)
    requires
        i < t.nodes@.len(),
    ensures
        views(r@) == csharp_arguments(t@, i as int),
{
    if t.is(i, "type_argument_list") {
        let from = enclosing_decl_name(Language::CSharp, t, i);
        let from = from.as_str();
        let ghost want = |a: int|
            if csharp_type_node(t@, a) {
                named_ref(t@, enclosing(Language::CSharp, t@, i as int), a)
            } else {
                None
            };
        let f = |a: usize| -> (r: Option<Reference>)
            requires
                a < t.nodes@.len(),
            ensures
                opt_view(r) == want(a as int),
            {
                if is_csharp_type_node(t, a) {
                    ref_to(t, from, a)
                } else {
                    None
                }
            };
        t.pick_children(i, f, Ghost(want))
    } else {
        let none: Vec<Reference> = Vec::new();
        assert(views(none@) =~= Seq::<ReferenceView>::empty());
        none
    }
}

/// The usages in a C# source, from its tree, in walking order.
pub fn csharp_references(t: &SyntaxTree) -> (r: Vec<Reference>)
    ensures
        views(r@) == flat(visit_all(t@), |i: int| csharp_refs_at(t@, i)),
{
    let ghost want = |i: int| csharp_refs_at(t@, i);
    let f = |i: usize| -> (r: Vec<Reference>)
        requires
            i < t.nodes@.len(),
        ensures
            views(r@) == want(i as int),
        {
            let mut out: Vec<Reference> = Vec::new();
            match csharp_target_of(t, i) {
                Some(j) => {
                    let from = enclosing_decl_name(Language::CSharp, t, i);
                    match ref_to(t, from.as_str(), j) {
                        Some(x) => {
                            out.push(x);
                        },
                        None => {},
                    }
                },
                None => {},
            }
            let mut args = csharp_argument_refs(t, i);
            proof {
                crate::lists::views_add(out@, args@);
            }
            out.append(&mut args);
            assert(views(out@) =~= csharp_refs_at(t@, i as int));
            out
        };
    t.collect(f, Ghost(want))
}

// --- Rust ---------------------------------------------------------------------------------
/// The names that a called expression refers to: of `Foo::new` both the type and
/// the function, of `recv.method` the method.
pub open spec fn call_names(t: TreeView, i: int) -> Seq<Seq<char>> {
    if is_kind(t, i, "identifier"@) {
        one(text_of(t, i))
    } else if is_kind(t, i, "scoped_identifier"@) {
        (match field_text(t, i, "path"@) {
            Some(s) => seq![bare(s)],
            None => Seq::empty(),
        }) + one(field_text(t, i, "name"@))
    } else if is_kind(t, i, "field_expression"@) {
        one(field_text(t, i, "field"@))
    } else {
        Seq::empty()
    }
}

/// Names a Rust call expression references. For `Foo::new` we emit both the
/// type segment (`Foo`) and the function segment (`new`); the resolve pass
/// drops whichever doesn't match a declared symbol. For a bare `foo` we emit
/// `foo`. For `recv.method()` (field_expression) we emit the method name.
pub fn rust_call_targets(t: &SyntaxTree, i: usize) -> (r: Vec<String>)
    requires
        i < t.nodes@.len(),
    ensures
        views(r@) == call_names(t@, i as int),
{
    let mut out: Vec<String> = Vec::new();
    if t.is(i, "identifier") {
        match t.text(i) {
            Some(s) => {
                out.push(s);
            },
            None => {},
        }
    } else if t.is(i, "scoped_identifier") {
        match t.field_text(i, "path") {
            Some(s) => {
                out.push(bare_type_name(s.as_str()));
            },
            None => {},
        }
        match t.field_text(i, "name") {
            Some(s) => {
                out.push(s);
            },
            None => {},
        }
    } else if t.is(i, "field_expression") {
        match t.field_text(i, "field") {
            Some(s) => {
                out.push(s);
            },
            None => {},
        }
    }
    assert(views(out@) =~= call_names(t@, i as int));
    out
}

/// The names that node `i` uses: those of a call, or the type of a struct literal.
pub open spec fn rust_names(t: TreeView, i: int) -> Seq<Seq<char>> {
    if is_kind(t, i, "call_expression"@) {
        match field(t, i, "function"@) {
            Some(f) => call_names(t, f),
            None => Seq::empty(),
        }
    } else if is_kind(t, i, "struct_expression"@) {
        match field_text(t, i, "name"@) {
            Some(s) => seq![bare(s)],
            None => Seq::empty(),
        }
    } else {
        Seq::empty()
    }
}

/// Rust: `foo()` / `Foo::new()` calls and `Foo { .. }` struct literals.
pub open spec fn rust_refs_at(t: TreeView, i: int) -> Seq<ReferenceView> {
    pick(
        rust_names(t, i),
        |to: Seq<char>|
            if to.len() > 0 {
                Some(ReferenceView { from: enclosing(Language::Rust, t, i), to })
            } else {
                None
            },
    )
}

fn rust_refs_of(t: &SyntaxTree, i: usize) -> (r: Vec<Reference>)
    requires
        i < t.nodes@.len(),
    ensures
        views(r@) == rust_refs_at(t@, i as int),
{
    let mut names: Vec<String> = Vec::new();
    assert(views(names@) =~= Seq::<Seq<char>>::empty());
    if t.is(i, "call_expression") {
        match t.child_by_field(i, "function") {
            Some(f) => {
                names = rust_call_targets(t, f);
            },
            None => {},
        }
    } else if t.is(i, "struct_expression") {
        match t.field_text(i, "name") {
            Some(s) => {
                names.push(bare_type_name(s.as_str()));
                assert(views(names@) =~= seq![bare(s@)]);
            },
            None => {},
        }
    }
    if names.len() == 0 {
        let none: Vec<Reference> = Vec::new();
        assert(views(names@) =~= Seq::<Seq<char>>::empty());
        assert(views(none@) =~= Seq::<ReferenceView>::empty());
        return none;
    }
    let from = enclosing_decl_name(Language::Rust, t, i);
    let from = from.as_str();
    let ghost want = |to: Seq<char>|
        if to.len() > 0 {
            Some(ReferenceView { from: enclosing(Language::Rust, t@, i as int), to })
        } else {
            None
        };
    let f = |to: &String| -> (r: Option<Reference>)
        ensures
            opt_view(r) == want(to@),
        {
            if to.as_str().is_empty() {
                None
            } else {
                Some(Reference { from: from.to_owned(), to: to.clone() })
            }
        };
    crate::lists::pick_views(&names, f, Ghost(want))
}

/// The usages in a Rust source, from its tree, in walking order.
pub fn rust_references(t: &SyntaxTree) -> (r: Vec<Reference>)
    ensures
        views(r@) == flat(visit_all(t@), |i: int| rust_refs_at(t@, i)),
{
    let ghost want = |i: int| rust_refs_at(t@, i);
    let f = |i: usize| -> (r: Vec<Reference>)
        requires
            i < t.nodes@.len(),
        ensures
            views(r@) == want(i as int),
        {
            rust_refs_of(t, i)
        };
    t.collect(f, Ghost(want))
}

// --- JavaScript / TypeScript --------------------------------------------------------------
/// The node that names what node `i` uses: the constructed class, the called
/// function, or a type in a type position.
pub open spec fn ts_target(t: TreeView, i: int) -> Option<int> {
    if is_kind(t, i, "new_expression"@) {
        field(t, i, "constructor"@)
    } else if is_kind(t, i, "call_expression"@) {
        field(t, i, "function"@)
    } else if is_kind(t, i, "type_identifier"@) {
        Some(i)
    } else {
        None
    }
}

/// TS/JS: `new Foo()`, `foo()` / `recv.foo()` calls, and `type_identifier`s in
/// type positions.
pub open spec fn ts_refs_at(t: TreeView, i: int) -> Seq<ReferenceView> {
    match ts_target(t, i) {
        Some(j) => one(named_ref(t, enclosing(Language::TypeScript, t, i), j)),
        None => Seq::empty(),
    }
}

/// The usages in a JS/TS source, from its tree, in walking order.
pub fn ts_references(t: &SyntaxTree) -> (r: Vec<Reference>)
    ensures
        views(r@) == flat(visit_all(t@), |i: int| ts_refs_at(t@, i)),
{
    let ghost want = |i: int| ts_refs_at(t@, i);
    let f = |i: usize| -> (r: Vec<Reference>)
        requires
            i < t.nodes@.len(),
        ensures
            views(r@) == want(i as int),
        {
            let mut out: Vec<Reference> = Vec::new();
            let target = if t.is(i, "new_expression") {
                t.child_by_field(i, "constructor")
            } else if t.is(i, "call_expression") {
                t.child_by_field(i, "function")
            } else if t.is(i, "type_identifier") {
                Some(i)
            } else {
                None
            };
            match target {
                Some(j) => {
                    let from = enclosing_decl_name(Language::TypeScript, t, i);
                    match ref_to(t, from.as_str(), j) {
                        Some(x) => {
                            out.push(x);
                        },
                        None => {},
                    }
                },
                None => {},
            }
            assert(views(out@) =~= ts_refs_at(t@, i as int));
            out
        };
    t.collect(f, Ghost(want))
}

// --- all languages ------------------------------------------------------------------------
pub open spec fn from_to_order() -> spec_fn(ReferenceView, ReferenceView) -> bool {
    |a: ReferenceView, b: ReferenceView| text_lt(a.from, b.from) || (a.from == b.from && text_le(a.to, b.to))
}

pub open spec fn same_ref() -> spec_fn(ReferenceView, ReferenceView) -> bool {
    |a: ReferenceView, b: ReferenceView| a == b
}

/// A language whose references are extracted.
pub open spec fn has_references(lang: Language) -> bool {
    lang == Language::CSharp || lang == Language::Rust || lang == Language::TypeScript || lang == Language::JavaScript
}

/// The references at a node of a source in this language.
pub open spec fn refs_at(lang: Language, t: TreeView, i: int) -> Seq<ReferenceView> {
    match lang {
        Language::CSharp => csharp_refs_at(t, i),
        Language::Rust => rust_refs_at(t, i),
        Language::TypeScript | Language::JavaScript => ts_refs_at(t, i),
        _ => Seq::empty(),
    }
}

/// The references of a tree: sorted by both ends, each once.
pub open spec fn references_of(lang: Language, t: TreeView) -> Seq<ReferenceView> {
    dedup(stable_sort(flat(visit_all(t), |i: int| refs_at(lang, t, i)), from_to_order()), same_ref())
}

/// The references of a text; none where it cannot be parsed.
pub open spec fn references_in(path: Seq<char>, lang: Language, text: Seq<char>) -> Seq<ReferenceView> {
    match relation_grammar(path, lang) {
        Some(g) => if has_references(lang) && parses(g, text) {
            references_of(lang, tree_of(g, text))
        } else {
            Seq::empty()
        },
        None => Seq::empty(),
    }
}

/// The references of a source, from its tree.
pub fn references_of_tree(lang: Language, t: &SyntaxTree) -> (r: Vec<Reference>)
    ensures
        views(r@) == references_of(lang, t@),
{
    let found: Vec<Reference> = match lang {
        Language::CSharp => csharp_references(t),
        Language::Rust => rust_references(t),
        Language::TypeScript | Language::JavaScript => ts_references(t),
        _ => Vec::new(),
    };
    proof {
        let f = |i: int| refs_at(lang, t@, i);
        match lang {
            Language::CSharp => {
                flat_agrees(visit_all(t@), f, |i: int| csharp_refs_at(t@, i));
            },
            Language::Rust => {
                flat_agrees(visit_all(t@), f, |i: int| rust_refs_at(t@, i));
            },
            Language::TypeScript | Language::JavaScript => {
                flat_agrees(visit_all(t@), f, |i: int| ts_refs_at(t@, i));
            },
            _ => {
                flat_of_nothing(visit_all(t@), f);
                assert(views(found@) =~= Seq::<ReferenceView>::empty());
            },
        }
    }
    let le = |a: &Reference, b: &Reference| -> (r: bool)
        ensures
            r == from_to_order()(a@, b@),
        {
            before(a.from.as_str(), b.from.as_str()) || (same(a.from.as_str(), b.from.as_str()) && !before(
                b.to.as_str(),
                a.to.as_str(),
            ))
        };
    let eq = |a: &Reference, b: &Reference| -> (r: bool)
        ensures
            r == (a@ == b@),
        {
            same(a.from.as_str(), b.from.as_str()) && same(a.to.as_str(), b.to.as_str())
        };
    let found = sort_views(found, le, Ghost(from_to_order()));
    dedup_views(found, eq, Ghost(same_ref()))
}

/// Extract symbol→symbol reference relationships from a file.
///
/// Best-effort and name-based. Returns an empty list for languages without a
/// reference extractor.
pub fn extract_references(path: &str, lang: Language, text: &str) -> (r: Vec<Reference>)
    ensures
        views(r@) == references_in(path@, lang, text@),
{
    let none: Vec<Reference> = Vec::new();
    assert(views(none@) =~= Seq::<ReferenceView>::empty());
    if !(lang == Language::CSharp || lang == Language::Rust || lang == Language::TypeScript || lang
        == Language::JavaScript) {
        return none;
    }
    match grammar_for_relations(path, lang) {
        Some(g) => match SyntaxTree::parse(g, text) {
            Some(t) => references_of_tree(lang, &t),
            None => none,
        },
        None => none,
    }
}

} // verus!
