//! Which usages of a source are found, and where they are said to stand.

use crate::graph::model::Language;
use crate::indexer::facts::ReferenceView;
use crate::indexer::syntax::{parses, Grammar};
use crate::indexer::tree::{
    field, field_text, kids, parent, parent_before, text_of, tree_of, visit_all, TreeView,
};
use crate::indexer::tree_sitter::common::bare;
use crate::indexer::tree_sitter::references::{
    csharp_arguments, csharp_refs_at, csharp_target, enclosing, from_to_order, is_decl_kind, named_ref,
    references_in, references_of, refs_at, rust_names, rust_refs_at, same_ref, ts_refs_at, ts_target,
};
use crate::indexer::tree_sitter::supertypes::csharp_type_node;
use crate::indexer::tree_sitter::symbols::child_of_kind;
use crate::lists::{flat, flat_members, made, made_is_picked, makes, picked_from};
use crate::sorting::{
    dedup_of_sorted, has_alike, sorted, stable_sort, stable_sort_keeps, stable_sort_sorted, total_preorder,
};
use crate::text::text_lt_laws;
use vstd::prelude::*;

verus! {

// --- order ------------------------------------------------------------------------------------
proof fn from_to_order_total()
    ensures
        total_preorder(from_to_order()),
        forall|a: ReferenceView, b: ReferenceView| #[trigger]
            same_ref()(a, b) == (from_to_order()(a, b) && from_to_order()(b, a)),
{
    let le = from_to_order();
    assert forall|a: ReferenceView, b: ReferenceView| #![trigger le(a, b)] le(a, b) || le(b, a) by {
        text_lt_laws(a.from, b.from, a.from);
        text_lt_laws(a.to, b.to, a.to);
    }
    assert forall|a: ReferenceView, b: ReferenceView, c: ReferenceView|
        #![trigger le(a, b), le(b, c)]
        le(a, b) && le(b, c) implies le(a, c) by {
        text_lt_laws(a.from, b.from, c.from);
        if a.from == b.from && b.from == c.from {
            crate::lists::text_le_transitive(a.to, b.to, c.to);
        }
    }
    assert forall|a: ReferenceView, b: ReferenceView| #[trigger] same_ref()(a, b) == (le(a, b) && le(b, a)) by {
        text_lt_laws(a.from, b.from, a.from);
        text_lt_laws(b.from, a.from, b.from);
        text_lt_laws(a.to, b.to, a.to);
        text_lt_laws(b.to, a.to, b.to);
    }
}

/// The references of a source come sorted by both ends, each once, and are exactly
/// what its nodes say.
pub proof fn references_are_what_nodes_say(lang: Language, t: TreeView, x: ReferenceView)
    ensures
        references_of(lang, t).contains(x) <==> makes(visit_all(t), |i: int| refs_at(lang, t, i), x),
        sorted(references_of(lang, t), from_to_order()),
        references_of(lang, t).no_duplicates(),
{
    let f = |i: int| refs_at(lang, t, i);
    let all = flat(visit_all(t), f);
    let found = stable_sort(all, from_to_order());
    from_to_order_total();
    stable_sort_sorted(all, from_to_order());
    stable_sort_keeps(all, from_to_order());
    dedup_of_sorted(found, from_to_order(), same_ref());
    flat_members(visit_all(t), f, x);
    let d = references_of(lang, t);
    if all.contains(x) {
        assert(found.contains(x));
        assert(has_alike(d, same_ref(), x));
        let y = choose|y: ReferenceView| #[trigger] d.contains(y) && same_ref()(x, y);
    }
    assert forall|i: int, j: int| 0 <= i < d.len() && 0 <= j < d.len() && i != j implies d[i] != d[j] by {
        if i < j {
            assert(!same_ref()(d[i], d[j]));
        } else {
            assert(!same_ref()(d[j], d[i]));
        }
    }
}

/// What a visited node says is among the references.
proof fn said_is_found(lang: Language, t: TreeView, i: int, x: ReferenceView)
    requires
        visit_all(t).contains(i),
        refs_at(lang, t, i).contains(x),
    ensures
        references_of(lang, t).contains(x),
{
    references_are_what_nodes_say(lang, t, x);
    let f = |i: int| refs_at(lang, t, i);
    assert(visit_all(t).contains(i) && f(i).contains(x));
}

/// The references of a text are those of its tree, in the grammar of its language.
pub proof fn references_come_from_the_tree(path: Seq<char>, text: Seq<char>)
    ensures
        references_in(path, Language::CSharp, text) == (if parses(Grammar::CSharp, text) {
            references_of(Language::CSharp, tree_of(Grammar::CSharp, text))
        } else {
            Seq::empty()
        }),
        references_in(path, Language::Rust, text) == (if parses(Grammar::Rust, text) {
            references_of(Language::Rust, tree_of(Grammar::Rust, text))
        } else {
            Seq::empty()
        }),
{
}

// --- C# ---------------------------------------------------------------------------------------
/// Node `j` names what is used at node `i`: the type of `new T()`, what an
/// invocation calls, whether qualified or not, or the declared type of a parameter,
/// a property or a field.
pub open spec fn csharp_use(t: TreeView, i: int, j: int) -> bool {
    let kind = t.nodes[i].kind;
    ||| kind == "object_creation_expression"@ && field(t, i, "type"@) == Some(j)
    ||| kind == "invocation_expression"@ && field(t, i, "function"@) == Some(j)
    ||| kind == "parameter"@ && field(t, i, "type"@) == Some(j)
    ||| kind == "property_declaration"@ && field(t, i, "type"@) == Some(j)
    ||| kind == "field_declaration"@ && child_of_kind(t, i, "variable_declaration"@) is Some && field(
        t,
        child_of_kind(t, i, "variable_declaration"@)->0,
        "type"@,
    ) == Some(j)
}

/// Node `j` is a generic argument that node `i` lists.
pub open spec fn csharp_argument(t: TreeView, i: int, j: int) -> bool {
    let kind = t.nodes[j].kind;
    t.nodes[i].kind == "type_argument_list"@ && kids(t, i).contains(j) && (kind == "type"@ || kind == "identifier"@
        || kind == "qualified_name"@ || kind == "generic_name"@)
}

/// Node `j` is used at node `i`, in one way or the other.
pub open spec fn csharp_uses(t: TreeView, i: int, j: int) -> bool {
    csharp_use(t, i, j) || csharp_argument(t, i, j)
}

proof fn csharp_kinds()
    ensures
        "object_creation_expression"@.len() == 26,
        "invocation_expression"@.len() == 21,
        "parameter"@.len() == 9,
        "property_declaration"@.len() == 20,
        "field_declaration"@.len() == 17,
        "type_argument_list"@.len() == 18,
{
    reveal_strlit("object_creation_expression");
    reveal_strlit("invocation_expression");
    reveal_strlit("parameter");
    reveal_strlit("property_declaration");
    reveal_strlit("field_declaration");
    reveal_strlit("type_argument_list");
}

/// Every use in a C# source is a reference from the nearest enclosing declaration to
/// the bare name of what is used: of every call, whether through a receiver or not,
/// of every constructed type, of every declared type and of every generic argument.
pub proof fn every_csharp_use_is_referenced(t: TreeView, i: int, j: int, s: Seq<char>)
    requires
        visit_all(t).contains(i),
        csharp_uses(t, i, j),
        text_of(t, j) == Some(s),
        bare(s).len() > 0,
    ensures
        references_of(Language::CSharp, t).contains(
            ReferenceView { from: enclosing(Language::CSharp, t, i), to: bare(s) },
        ),
{
    csharp_kinds();
    let from = enclosing(Language::CSharp, t, i);
    let x = ReferenceView { from, to: bare(s) };
    assert(named_ref(t, from, j) == Some(x));
    let at = csharp_refs_at(t, i);
    if csharp_use(t, i, j) {
        assert(csharp_target(t, i) == Some(j));
        assert(at[0] == x);
    } else {
        let f = |a: int|
            if csharp_type_node(t, a) {
                named_ref(t, from, a)
            } else {
                None
            };
        assert(f(j) == Some(x));
        assert(made(kids(t, i), f, x));
        made_is_picked(kids(t, i), f, x);
        let args = csharp_arguments(t, i);
        let k = args.index_of(x);
        assert(at[at.len() - args.len() + k] == x);
    }
    said_is_found(Language::CSharp, t, i, x);
}

/// Every reference of a C# source is such a use.
pub proof fn every_csharp_reference_is_a_use(t: TreeView, x: ReferenceView)
    requires
        references_of(Language::CSharp, t).contains(x),
    ensures
        x.to.len() > 0,
        exists|i: int, j: int|
            #![trigger csharp_uses(t, i, j)]
            visit_all(t).contains(i) && csharp_uses(t, i, j) && text_of(t, j) is Some && x.to == bare(
                text_of(t, j)->0,
            ) && x.from == enclosing(Language::CSharp, t, i),
{
    csharp_kinds();
    references_are_what_nodes_say(Language::CSharp, t, x);
    let said = |i: int| refs_at(Language::CSharp, t, i);
    let i = choose|i: int| #[trigger] visit_all(t).contains(i) && said(i).contains(x);
    let from = enclosing(Language::CSharp, t, i);
    let at = csharp_refs_at(t, i);
    let args = csharp_arguments(t, i);
    let k = at.index_of(x);
    if k < at.len() - args.len() {
        let j = csharp_target(t, i)->0;
        assert(at[k] == named_ref(t, from, j)->0);
        assert(named_ref(t, from, j) == Some(x));
        assert(csharp_uses(t, i, j));
    } else {
        assert(args[k - (at.len() - args.len())] == x);
        let f = |a: int|
            if csharp_type_node(t, a) {
                named_ref(t, from, a)
            } else {
                None
            };
        picked_from(kids(t, i), f);
        let m = k - (at.len() - args.len());
        assert(made(kids(t, i), f, args[m]));
        let j = choose|j: int| #[trigger] kids(t, i).contains(j) && f(j) == Some(x);
        assert(named_ref(t, from, j) == Some(x));
        assert(csharp_uses(t, i, j));
    }
}

// --- Rust -------------------------------------------------------------------------------------
/// The name `to` is used at node `i`: by a call of `to()`, `a::to()`, `to::b()` or
/// `recv.to()`, or by a struct literal `to { .. }`.
pub open spec fn rust_use(t: TreeView, i: int, to: Seq<char>) -> bool {
    ||| t.nodes[i].kind == "call_expression"@ && field(t, i, "function"@) is Some && {
        let f = field(t, i, "function"@)->0;
        ||| t.nodes[f].kind == "identifier"@ && text_of(t, f) == Some(to)
        ||| t.nodes[f].kind == "scoped_identifier"@ && field_text(t, f, "name"@) == Some(to)
        ||| t.nodes[f].kind == "scoped_identifier"@ && field_text(t, f, "path"@) is Some && to == bare(
            field_text(t, f, "path"@)->0,
        )
        ||| t.nodes[f].kind == "field_expression"@ && field_text(t, f, "field"@) == Some(to)
    }
    ||| t.nodes[i].kind == "struct_expression"@ && field_text(t, i, "name"@) is Some && to == bare(
        field_text(t, i, "name"@)->0,
    )
}

proof fn rust_use_is_named(t: TreeView, i: int, to: Seq<char>)
    ensures
        rust_names(t, i).contains(to) <==> rust_use(t, i, to),
{
    reveal_strlit("call_expression");
    reveal_strlit("struct_expression");
    reveal_strlit("identifier");
    reveal_strlit("scoped_identifier");
    reveal_strlit("field_expression");
    assert("call_expression"@.len() != "struct_expression"@.len());
    assert("identifier"@.len() == 10 && "scoped_identifier"@.len() == 17 && "field_expression"@.len() == 16);
    let all = rust_names(t, i);
    if all.contains(to) {
        let k = all.index_of(to);
        assert(all[k] == to);
    }
    if rust_use(t, i, to) {
        if all.len() > 0 && all[0] == to {
            assert(all.contains(to));
        } else {
            assert(all.len() > 0);
            assert(all[all.len() - 1] == to);
        }
    }
}

/// The references of a Rust source are exactly its uses: of every call and every
/// struct literal, from the nearest enclosing declaration.
pub proof fn rust_references_are_the_uses(t: TreeView, x: ReferenceView)
    ensures
        references_of(Language::Rust, t).contains(x) <==> x.to.len() > 0 && exists|i: int| #[trigger]
            visit_all(t).contains(i) && rust_use(t, i, x.to) && x.from == enclosing(Language::Rust, t, i),
{
    references_are_what_nodes_say(Language::Rust, t, x);
    let said = |i: int| refs_at(Language::Rust, t, i);
    if references_of(Language::Rust, t).contains(x) {
        let i = choose|i: int| #[trigger] visit_all(t).contains(i) && said(i).contains(x);
        let from = enclosing(Language::Rust, t, i);
        let f = |to: Seq<char>|
            if to.len() > 0 {
                Some(ReferenceView { from: enclosing(Language::Rust, t, i), to })
            } else {
                None
            };
        let at = rust_refs_at(t, i);
        picked_from(rust_names(t, i), f);
        assert(made(rust_names(t, i), f, at[at.index_of(x)]));
        let to = choose|to: Seq<char>| #[trigger] rust_names(t, i).contains(to) && f(to) == Some(x);
        rust_use_is_named(t, i, to);
        assert(visit_all(t).contains(i) && rust_use(t, i, x.to));
    }
    if x.to.len() > 0 && exists|i: int| #[trigger]
        visit_all(t).contains(i) && rust_use(t, i, x.to) && x.from == enclosing(Language::Rust, t, i) {
        let i = choose|i: int| #[trigger]
            visit_all(t).contains(i) && rust_use(t, i, x.to) && x.from == enclosing(Language::Rust, t, i);
        let f = |to: Seq<char>|
            if to.len() > 0 {
                Some(ReferenceView { from: enclosing(Language::Rust, t, i), to })
            } else {
                None
            };
        rust_use_is_named(t, i, x.to);
        assert(f(x.to) == Some(x));
        assert(made(rust_names(t, i), f, x));
        made_is_picked(rust_names(t, i), f, x);
        said_is_found(Language::Rust, t, i, x);
    }
}

// --- JavaScript and TypeScript ----------------------------------------------------------------
/// Node `j` names what is used at node `i`: the class of `new C()`, what a call
/// calls, whether qualified or not, or a type in a type position.
pub open spec fn script_use(t: TreeView, i: int, j: int) -> bool {
    ||| t.nodes[i].kind == "new_expression"@ && field(t, i, "constructor"@) == Some(j)
    ||| t.nodes[i].kind == "call_expression"@ && field(t, i, "function"@) == Some(j)
    ||| t.nodes[i].kind == "type_identifier"@ && j == i
}

/// The references of a JavaScript or TypeScript source are exactly its uses.
pub proof fn script_references_are_the_uses(lang: Language, t: TreeView, x: ReferenceView)
    requires
        lang == Language::JavaScript || lang == Language::TypeScript,
    ensures
        references_of(lang, t).contains(x) <==> x.to.len() > 0 && exists|i: int, j: int|
            #![trigger script_use(t, i, j)]
            visit_all(t).contains(i) && script_use(t, i, j) && text_of(t, j) is Some && x.to == bare(text_of(t, j)->0)
                && x.from == enclosing(Language::TypeScript, t, i),
{
    reveal_strlit("new_expression");
    reveal_strlit("call_expression");
    reveal_strlit("type_identifier");
    assert("new_expression"@.len() == 14 && "call_expression"@[0] != "type_identifier"@[0]);
    references_are_what_nodes_say(lang, t, x);
    let said = |i: int| refs_at(lang, t, i);
    if references_of(lang, t).contains(x) {
        let i = choose|i: int| #[trigger] visit_all(t).contains(i) && said(i).contains(x);
        let at = ts_refs_at(t, i);
        let j = ts_target(t, i)->0;
        assert(at[at.index_of(x)] == x);
        assert(named_ref(t, enclosing(Language::TypeScript, t, i), j) == Some(x));
        assert(script_use(t, i, j));
    }
    if x.to.len() > 0 && exists|i: int, j: int|
        #![trigger script_use(t, i, j)]
        visit_all(t).contains(i) && script_use(t, i, j) && text_of(t, j) is Some && x.to == bare(text_of(t, j)->0)
            && x.from == enclosing(Language::TypeScript, t, i) {
        let (i, j) = choose|i: int, j: int|
            #![trigger script_use(t, i, j)]
            visit_all(t).contains(i) && script_use(t, i, j) && text_of(t, j) is Some && x.to == bare(text_of(t, j)->0)
                && x.from == enclosing(Language::TypeScript, t, i);
        assert(ts_target(t, i) == Some(j));
        assert(ts_refs_at(t, i)[0] == x);
        assert(refs_at(lang, t, i).contains(x));
        said_is_found(lang, t, i, x);
    }
}

// --- the enclosing declaration ------------------------------------------------------------------
/// Node `p` lies above node `i`.
pub open spec fn lies_above(t: TreeView, p: int, i: int) -> bool
    decreases i,
    via lies_above_shrinks
{
    i >= 0 && parent(t, i) is Some && (parent(t, i) == Some(p) || lies_above(t, p, parent(t, i)->0))
}

#[via_fn]
proof fn lies_above_shrinks(t: TreeView, p: int, i: int) {
    parent_before(t, i, i - 1);
}

/// Node `p` is a declaration with a name that usages are said to stand in: a
/// method, constructor or type of C#; a function, type or `impl` of Rust; a
/// function, method, class or variable of the scripting languages.
pub open spec fn named_declaration(lang: Language, t: TreeView, p: int) -> bool {
    let kind = t.nodes[p].kind;
    field_text(t, p, "name"@) is Some && match lang {
        Language::CSharp => kind == "method_declaration"@ || kind == "constructor_declaration"@ || kind
            == "class_declaration"@ || kind == "record_declaration"@ || kind == "struct_declaration"@,
        Language::Rust => kind == "function_item"@ || kind == "impl_item"@ || kind == "struct_item"@ || kind
            == "enum_item"@,
        _ => kind == "function_declaration"@ || kind == "method_definition"@ || kind == "class_declaration"@ || kind
            == "variable_declarator"@,
    }
}

/// A usage stands in the nearest named declaration above it: that declaration's
/// name is given, and any other one above the usage lies above that one too. Where
/// there is none, no name is given.
pub proof fn enclosing_is_the_nearest(lang: Language, t: TreeView, i: int)
    requires
        0 <= i,
    ensures
        (exists|p: int| #[trigger] lies_above(t, p, i) && named_declaration(lang, t, p)) ==> exists|p: int| #[trigger]
            lies_above(t, p, i) && named_declaration(lang, t, p) && field_text(t, p, "name"@) == Some(
                enclosing(lang, t, i),
            ) && forall|q: int| #[trigger]
                lies_above(t, q, i) && named_declaration(lang, t, q) ==> q == p || lies_above(t, q, p),
        !(exists|p: int| #[trigger] lies_above(t, p, i) && named_declaration(lang, t, p)) ==> enclosing(lang, t, i)
            == ""@,
    decreases i,
{
    parent_before(t, i, i - 1);
    match parent(t, i) {
        Some(a) => {
            assert(lies_above(t, a, i));
            if named_declaration(lang, t, a) {
                assert(is_decl_kind(lang, t.nodes[a].kind));
                assert(lies_above(t, a, i) && field_text(t, a, "name"@) == Some(enclosing(lang, t, i)));
            } else {
                enclosing_is_the_nearest(lang, t, a);
                assert(enclosing(lang, t, i) == enclosing(lang, t, a));
                if exists|p: int| #[trigger] lies_above(t, p, i) && named_declaration(lang, t, p) {
                    let p0 = choose|p: int| #[trigger] lies_above(t, p, i) && named_declaration(lang, t, p);
                    assert(lies_above(t, p0, a));
                    let p = choose|p: int| #[trigger]
                        lies_above(t, p, a) && named_declaration(lang, t, p) && field_text(t, p, "name"@) == Some(
                            enclosing(lang, t, a),
                        ) && forall|q: int| #[trigger]
                            lies_above(t, q, a) && named_declaration(lang, t, q) ==> q == p || lies_above(t, q, p);
                    assert(lies_above(t, p, i));
                    assert forall|q: int| #[trigger]
                        lies_above(t, q, i) && named_declaration(lang, t, q) implies q == p || lies_above(t, q, p) by {
                        assert(lies_above(t, q, a));
                    }
                } else {
                    if exists|p: int| #[trigger] lies_above(t, p, a) && named_declaration(lang, t, p) {
                        let p = choose|p: int| #[trigger] lies_above(t, p, a) && named_declaration(lang, t, p);
                        assert(lies_above(t, p, i));
                    }
                }
            }
        },
        None => {},
    }
}

} // verus!
