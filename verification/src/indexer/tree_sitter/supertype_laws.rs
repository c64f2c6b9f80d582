//! Which supertypes a source declares.

use crate::graph::model::Language;
use crate::indexer::facts::{SuperHint, SupertypeView};
use crate::indexer::tree::{field, field_text, kids, text_of, visit, visit_all, TreeView};
use crate::indexer::tree_sitter::common::bare;
use crate::indexer::tree_sitter::supertypes::{
    base_list_supers, child_super_order, clause_supers, csharp_type_node, embedded_element, embedded_field,
    heritage_supers, named_super, rust_supers_at, same_super, superclass, supers_at, supertrait, supertypes_of,
    ts_part_supers, ts_type_node,
};
use crate::lists::{flat, flat_members, made, made_is_picked, makes, pick, picked_from};
use crate::sorting::stable_sort_keeps;
use crate::sorting::{dedup, stable_sort};
use vstd::prelude::*;

verus! {

/// Dropping repeats of neighbours that are the same loses nothing.
proof fn repeats_only(s: Seq<SupertypeView>, x: SupertypeView)
    ensures
        dedup(s, same_super()).contains(x) <==> s.contains(x),
    decreases s.len(),
{
    if s.len() > 0 {
        let rest = s.drop_last();
        let k = dedup(rest, same_super());
        let d = dedup(s, same_super());
        repeats_only(rest, x);
        assert(s[s.len() - 1] == s.last());
        if rest.contains(x) {
            assert(s[rest.index_of(x)] == x);
        }
        if s.contains(x) && x != s.last() {
            assert(rest[s.index_of(x)] == x);
        }
        if d.len() > k.len() {
            assert(d[k.len() as int] == s.last());
            if k.contains(x) {
                assert(d[k.index_of(x)] == x);
            }
            if d.contains(x) && x != s.last() {
                assert(k[d.index_of(x)] == x);
            }
        } else {
            assert(k[k.len() - 1] == s.last());
        }
    }
}

/// The supertypes of a source are exactly what its nodes say.
pub proof fn supertypes_are_what_nodes_say(lang: Language, t: TreeView, x: SupertypeView)
    ensures
        supertypes_of(lang, t).contains(x) <==> exists|i: int| #[trigger]
            visit_all(t).contains(i) && supers_at(lang, t, i).contains(x),
{
    let f = |i: int| supers_at(lang, t, i);
    let all = flat(visit_all(t), f);
    stable_sort_keeps(all, child_super_order());
    repeats_only(stable_sort(all, child_super_order()), x);
    flat_members(visit_all(t), f, x);
    if makes(visit_all(t), f, x) {
        let i = choose|i: int| #[trigger] visit_all(t).contains(i) && f(i).contains(x);
        assert(visit_all(t).contains(i) && supers_at(lang, t, i).contains(x));
    }
    if exists|i: int| #[trigger] visit_all(t).contains(i) && supers_at(lang, t, i).contains(x) {
        let i = choose|i: int| #[trigger] visit_all(t).contains(i) && supers_at(lang, t, i).contains(x);
        assert(visit_all(t).contains(i) && f(i).contains(x));
    }
}

/// What a kind of node makes of a list of nodes.
proof fn picked(list: Seq<int>, f: spec_fn(int) -> Option<SupertypeView>, j: int, x: SupertypeView)
    requires
        list.contains(j),
        f(j) == Some(x),
    ensures
        pick(list, f).contains(x),
{
    assert(made(list, f, x));
    made_is_picked(list, f, x);
}

proof fn flattened(list: Seq<int>, f: spec_fn(int) -> Seq<SupertypeView>, j: int, x: SupertypeView)
    requires
        list.contains(j),
        f(j).contains(x),
    ensures
        flat(list, f).contains(x),
{
    assert(makes(list, f, x));
    flat_members(list, f, x);
}

/// Every type in the base list of a C# class, struct or record is a supertype of it,
/// by its bare name; whether it is inherited or implemented is left open.
pub proof fn csharp_bases_are_supertypes(t: TreeView, i: int, list: int, b: int, child: Seq<char>, s: Seq<char>)
    requires
        visit_all(t).contains(i),
        t.nodes[i].kind == "class_declaration"@ || t.nodes[i].kind == "struct_declaration"@ || t.nodes[i].kind
            == "record_declaration"@,
        field_text(t, i, "name"@) == Some(child),
        kids(t, i).contains(list),
        t.nodes[list].kind == "base_list"@,
        kids(t, list).contains(b),
        t.nodes[b].kind == "type"@ || t.nodes[b].kind == "identifier"@ || t.nodes[b].kind == "qualified_name"@
            || t.nodes[b].kind == "generic_name"@,
        text_of(t, b) == Some(s),
        bare(s).len() > 0,
    ensures
        supertypes_of(Language::CSharp, t).contains(
            SupertypeView { child, supertype: bare(s), hint: SuperHint::Unknown },
        ),
{
    let x = SupertypeView { child, supertype: bare(s), hint: SuperHint::Unknown };
    let f = |b: int|
        if csharp_type_node(t, b) {
            named_super(t, child, SuperHint::Unknown, b)
        } else {
            None
        };
    picked(kids(t, list), f, b, x);
    let g = |s: int| base_list_supers(t, child, s);
    assert(g(list).contains(x));
    flattened(kids(t, i), g, list, x);
    assert(supers_at(Language::CSharp, t, i).contains(x));
    supertypes_are_what_nodes_say(Language::CSharp, t, x);
}

/// An `impl` of a trait for a type of Rust makes the trait a supertype that is
/// implemented; a bound of a trait is one that is inherited.
pub proof fn rust_impls_and_bounds_are_supertypes(t: TreeView, i: int, a: Seq<char>, b: Seq<char>, bounds: int, j: int)
    requires
        visit_all(t).contains(i),
    ensures
        t.nodes[i].kind == "impl_item"@ && field_text(t, i, "trait"@) == Some(a) && field_text(t, i, "type"@) == Some(b)
            ==> supertypes_of(Language::Rust, t).contains(
            SupertypeView { child: bare(b), supertype: bare(a), hint: SuperHint::Implements },
        ),
        t.nodes[i].kind == "trait_item"@ && field_text(t, i, "name"@) == Some(a) && field(t, i, "bounds"@) == Some(bounds)
            && kids(t, bounds).contains(j) && (t.nodes[j].kind == "type_identifier"@ || t.nodes[j].kind
            == "scoped_type_identifier"@) && text_of(t, j) == Some(b) ==> supertypes_of(Language::Rust, t).contains(
            SupertypeView { child: a, supertype: bare(b), hint: SuperHint::Inherits },
        ),
{
    reveal_strlit("impl_item");
    reveal_strlit("trait_item");
    assert("impl_item"@.len() != "trait_item"@.len());
    if t.nodes[i].kind == "impl_item"@ && field_text(t, i, "trait"@) == Some(a) && field_text(t, i, "type"@) == Some(b) {
        let x = SupertypeView { child: bare(b), supertype: bare(a), hint: SuperHint::Implements };
        assert(rust_supers_at(t, i)[0] == x);
        assert(supers_at(Language::Rust, t, i).contains(x));
        supertypes_are_what_nodes_say(Language::Rust, t, x);
    }
    if t.nodes[i].kind == "trait_item"@ && field_text(t, i, "name"@) == Some(a) && field(t, i, "bounds"@) == Some(bounds)
        && kids(t, bounds).contains(j) && (t.nodes[j].kind == "type_identifier"@ || t.nodes[j].kind
        == "scoped_type_identifier"@) && text_of(t, j) == Some(b) {
        let x = SupertypeView { child: a, supertype: bare(b), hint: SuperHint::Inherits };
        let f = |b: int| supertrait(t, a, b);
        picked(kids(t, bounds), f, j, x);
        assert(supers_at(Language::Rust, t, i).contains(x));
        supertypes_are_what_nodes_say(Language::Rust, t, x);
    }
}

/// Every type that a class or interface of the scripting languages extends or
/// implements is a supertype of it, as what it says.
pub proof fn script_heritage_is_supertypes(
    lang: Language,
    t: TreeView,
    i: int,
    part: int,
    clause: int,
    j: int,
    child: Seq<char>,
    s: Seq<char>,
)
    requires
        lang == Language::JavaScript || lang == Language::TypeScript,
        visit_all(t).contains(i),
        t.nodes[i].kind == "class_declaration"@ || t.nodes[i].kind == "interface_declaration"@,
        field_text(t, i, "name"@) == Some(child),
        kids(t, i).contains(part),
        t.nodes[part].kind == "class_heritage"@ && kids(t, part).contains(clause) && (t.nodes[clause].kind
            == "extends_clause"@ || t.nodes[clause].kind == "implements_clause"@) || t.nodes[part].kind
            == "extends_type_clause"@ && clause == part,
        kids(t, clause).contains(j),
        t.nodes[j].kind == "identifier"@ || t.nodes[j].kind == "type_identifier"@ || t.nodes[j].kind
            == "member_expression"@ || t.nodes[j].kind == "generic_type"@ || t.nodes[j].kind == "nested_type_identifier"@,
        text_of(t, j) == Some(s),
        bare(s).len() > 0,
    ensures
        supertypes_of(lang, t).contains(
            SupertypeView {
                child,
                supertype: bare(s),
                hint: if t.nodes[clause].kind == "implements_clause"@ {
                    SuperHint::Implements
                } else {
                    SuperHint::Inherits
                },
            },
        ),
{
    reveal_strlit("class_heritage");
    reveal_strlit("extends_type_clause");
    reveal_strlit("extends_clause");
    reveal_strlit("implements_clause");
    assert("class_heritage"@.len() != "extends_type_clause"@.len());
    assert("extends_clause"@.len() != "implements_clause"@.len());
    assert("extends_type_clause"@.len() != "implements_clause"@.len());
    let hint = if t.nodes[clause].kind == "implements_clause"@ {
        SuperHint::Implements
    } else {
        SuperHint::Inherits
    };
    let x = SupertypeView { child, supertype: bare(s), hint };
    let f = |n: int|
        if ts_type_node(t, n) {
            named_super(t, child, hint, n)
        } else {
            None
        };
    picked(kids(t, clause), f, j, x);
    assert(clause_supers(t, child, hint, clause).contains(x));
    let g = |c: int| heritage_supers(t, child, c);
    if t.nodes[part].kind == "class_heritage"@ {
        assert(g(clause).contains(x));
        flattened(kids(t, part), g, clause, x);
    }
    assert(ts_part_supers(t, child, part).contains(x));
    let e = |s: int| ts_part_supers(t, child, s);
    assert(e(part).contains(x));
    flattened(kids(t, i), e, part, x);
    assert(supers_at(lang, t, i).contains(x));
    supertypes_are_what_nodes_say(lang, t, x);
}

/// Every named superclass of a Python class but `object` is a supertype of it.
pub proof fn python_superclasses_are_supertypes(t: TreeView, i: int, list: int, j: int, child: Seq<char>, s: Seq<char>)
    requires
        visit_all(t).contains(i),
        t.nodes[i].kind == "class_definition"@,
        field_text(t, i, "name"@) == Some(child),
        field(t, i, "superclasses"@) == Some(list),
        kids(t, list).contains(j),
        t.nodes[j].kind == "identifier"@ || t.nodes[j].kind == "attribute"@,
        text_of(t, j) == Some(s),
        bare(s).len() > 0,
        bare(s) != "object"@,
    ensures
        supertypes_of(Language::Python, t).contains(
            SupertypeView { child, supertype: bare(s), hint: SuperHint::Inherits },
        ),
{
    let x = SupertypeView { child, supertype: bare(s), hint: SuperHint::Inherits };
    let f = |a: int| superclass(t, child, a);
    picked(kids(t, list), f, j, x);
    assert(supers_at(Language::Python, t, i).contains(x));
    supertypes_are_what_nodes_say(Language::Python, t, x);
}

/// What a struct or interface of Go embeds is a supertype of it.
pub proof fn go_embedding_is_supertypes(t: TreeView, i: int, ty: int, j: int, at: int, child: Seq<char>, s: Seq<char>)
    requires
        visit_all(t).contains(i),
        t.nodes[i].kind == "type_spec"@,
        field_text(t, i, "name"@) == Some(child),
        field(t, i, "type"@) == Some(ty),
        visit(t, ty).contains(j),
        t.nodes[ty].kind == "struct_type"@ && t.nodes[j].kind == "field_declaration"@ && field(t, j, "name"@) is None
            && field(t, j, "type"@) == Some(at) || t.nodes[ty].kind == "interface_type"@ && t.nodes[j].kind
            == "type_elem"@ && at == j,
        text_of(t, at) == Some(s),
        bare(s).len() > 0,
    ensures
        supertypes_of(Language::Go, t).contains(
            SupertypeView { child, supertype: bare(s), hint: SuperHint::Inherits },
        ),
{
    reveal_strlit("struct_type");
    reveal_strlit("interface_type");
    assert("struct_type"@.len() != "interface_type"@.len());
    let x = SupertypeView { child, supertype: bare(s), hint: SuperHint::Inherits };
    if t.nodes[ty].kind == "struct_type"@ {
        let f = |f: int| embedded_field(t, child, f);
        assert(f(j)[0] == x);
        assert(f(j).contains(x));
        flattened(visit(t, ty), f, j, x);
    } else {
        let f = |e: int| embedded_element(t, child, e);
        assert(f(j)[0] == x);
        assert(f(j).contains(x));
        flattened(visit(t, ty), f, j, x);
    }
    assert(supers_at(Language::Go, t, i).contains(x));
    supertypes_are_what_nodes_say(Language::Go, t, x);
}

// --- nothing else is a supertype ------------------------------------------------------------------
proof fn picked_back(list: Seq<int>, f: spec_fn(int) -> Option<SupertypeView>, x: SupertypeView) -> (j: int)
    requires
        pick(list, f).contains(x),
    ensures
        list.contains(j),
        f(j) == Some(x),
{
    picked_from(list, f);
    let all = pick(list, f);
    assert(all[all.index_of(x)] == x);
    assert(made(list, f, x));
    let k = choose|k: int| 0 <= k < list.len() && f(#[trigger] list[k]) == Some(x);
    list[k]
}

proof fn flattened_back(list: Seq<int>, f: spec_fn(int) -> Seq<SupertypeView>, x: SupertypeView) -> (j: int)
    requires
        flat(list, f).contains(x),
    ensures
        list.contains(j),
        f(j).contains(x),
{
    flat_members(list, f, x);
    choose|j: int| #[trigger] list.contains(j) && f(j).contains(x)
}

/// Node `b` names the supertype.
pub open spec fn names_super(t: TreeView, b: int, x: SupertypeView) -> bool {
    text_of(t, b) is Some && x.supertype == bare(text_of(t, b)->0)
}

/// Node `b` stands right under node `i`, and is of a kind.
pub open spec fn under(t: TreeView, i: int, b: int, kind: Seq<char>) -> bool {
    kids(t, i).contains(b) && t.nodes[b].kind == kind
}

/// A supertype of C# is named in the base list of its class, struct or record.
pub proof fn csharp_supertypes_are_bases(t: TreeView, i: int, x: SupertypeView) -> (r: (int, int))
    requires
        supers_at(Language::CSharp, t, i).contains(x),
    ensures
        t.nodes[i].kind == "class_declaration"@ || t.nodes[i].kind == "struct_declaration"@ || t.nodes[i].kind
            == "record_declaration"@,
        field_text(t, i, "name"@) == Some(x.child),
        under(t, i, r.0, "base_list"@),
        under(t, r.0, r.1, "type"@) || under(t, r.0, r.1, "identifier"@) || under(t, r.0, r.1, "qualified_name"@)
            || under(t, r.0, r.1, "generic_name"@),
        names_super(t, r.1, x),
        x.hint == SuperHint::Unknown,
{
    let child = field_text(t, i, "name"@)->0;
    let list = flattened_back(kids(t, i), |s: int| base_list_supers(t, child, s), x);
    let b = picked_back(
        kids(t, list),
        |b: int|
            if csharp_type_node(t, b) {
                named_super(t, child, SuperHint::Unknown, b)
            } else {
                None
            },
        x,
    );
    (list, b)
}

/// A supertype of Rust is the trait of an `impl`, or a bound of a trait.
pub proof fn rust_supertypes_are_impls_and_bounds(t: TreeView, i: int, x: SupertypeView) -> (b: int)
    requires
        supers_at(Language::Rust, t, i).contains(x),
    ensures
        t.nodes[i].kind == "impl_item"@ || t.nodes[i].kind == "trait_item"@,
        t.nodes[i].kind == "impl_item"@ ==> {
            &&& field_text(t, i, "trait"@) is Some
            &&& x.supertype == bare(field_text(t, i, "trait"@)->0)
            &&& field_text(t, i, "type"@) is Some
            &&& x.child == bare(field_text(t, i, "type"@)->0)
            &&& x.hint == SuperHint::Implements
        },
        t.nodes[i].kind == "trait_item"@ ==> {
            &&& field_text(t, i, "name"@) == Some(x.child)
            &&& field(t, i, "bounds"@) is Some
            &&& under(t, field(t, i, "bounds"@)->0, b, "type_identifier"@) || under(
                t,
                field(t, i, "bounds"@)->0,
                b,
                "scoped_type_identifier"@,
            )
            &&& names_super(t, b, x)
            &&& x.hint == SuperHint::Inherits
        },
{
    reveal_strlit("impl_item");
    reveal_strlit("trait_item");
    assert("impl_item"@.len() != "trait_item"@.len());
    if t.nodes[i].kind == "trait_item"@ {
        let child = field_text(t, i, "name"@)->0;
        picked_back(kids(t, field(t, i, "bounds"@)->0), |b: int| supertrait(t, child, b), x)
    } else {
        0
    }
}

/// A supertype of the scripting languages is named in an `extends` or `implements` of
/// its class or interface.
pub proof fn script_supertypes_are_heritage(t: TreeView, lang: Language, i: int, x: SupertypeView) -> (r: (int, int, int))
    requires
        lang == Language::TypeScript || lang == Language::JavaScript,
        supers_at(lang, t, i).contains(x),
    ensures
        t.nodes[i].kind == "class_declaration"@ || t.nodes[i].kind == "interface_declaration"@,
        field_text(t, i, "name"@) == Some(x.child),
        x.hint == SuperHint::Inherits ==> under(t, i, r.1, "extends_type_clause"@) || (under(
            t,
            i,
            r.0,
            "class_heritage"@,
        ) && under(t, r.0, r.1, "extends_clause"@)),
        x.hint == SuperHint::Implements ==> under(t, i, r.0, "class_heritage"@) && under(
            t,
            r.0,
            r.1,
            "implements_clause"@,
        ),
        x.hint != SuperHint::Unknown,
        under(t, r.1, r.2, "identifier"@) || under(t, r.1, r.2, "type_identifier"@) || under(
            t,
            r.1,
            r.2,
            "member_expression"@,
        ) || under(t, r.1, r.2, "generic_type"@) || under(t, r.1, r.2, "nested_type_identifier"@),
        names_super(t, r.2, x),
{
    let child = field_text(t, i, "name"@)->0;
    let part = flattened_back(kids(t, i), |s: int| ts_part_supers(t, child, s), x);
    if t.nodes[part].kind == "class_heritage"@ {
        let clause = flattened_back(kids(t, part), |c: int| heritage_supers(t, child, c), x);
        let hint = if t.nodes[clause].kind == "extends_clause"@ {
            SuperHint::Inherits
        } else {
            SuperHint::Implements
        };
        let n = in_clause(t, child, hint, clause, x);
        (part, clause, n)
    } else {
        let n = in_clause(t, child, SuperHint::Inherits, part, x);
        (part, part, n)
    }
}

proof fn in_clause(t: TreeView, child: Seq<char>, hint: SuperHint, i: int, x: SupertypeView) -> (n: int)
    requires
        clause_supers(t, child, hint, i).contains(x),
    ensures
        kids(t, i).contains(n),
        ts_type_node(t, n),
        named_super(t, child, hint, n) == Some(x),
{
    picked_back(
        kids(t, i),
        |n: int|
            if ts_type_node(t, n) {
                named_super(t, child, hint, n)
            } else {
                None
            },
        x,
    )
}

/// A supertype of Python is named among the superclasses of its class, and is not
/// `object`.
pub proof fn python_supertypes_are_superclasses(t: TreeView, i: int, x: SupertypeView) -> (b: int)
    requires
        supers_at(Language::Python, t, i).contains(x),
    ensures
        t.nodes[i].kind == "class_definition"@,
        field_text(t, i, "name"@) == Some(x.child),
        field(t, i, "superclasses"@) is Some,
        under(t, field(t, i, "superclasses"@)->0, b, "identifier"@) || under(
            t,
            field(t, i, "superclasses"@)->0,
            b,
            "attribute"@,
        ),
        names_super(t, b, x),
        x.supertype != "object"@,
        x.hint == SuperHint::Inherits,
{
    let child = field_text(t, i, "name"@)->0;
    picked_back(kids(t, field(t, i, "superclasses"@)->0), |a: int| superclass(t, child, a), x)
}

/// A supertype of Go is embedded: a field of a struct that has no name of its own, or
/// an element of an interface.
pub proof fn go_supertypes_are_embedded(t: TreeView, i: int, x: SupertypeView) -> (b: int)
    requires
        supers_at(Language::Go, t, i).contains(x),
    ensures
        t.nodes[i].kind == "type_spec"@,
        field_text(t, i, "name"@) == Some(x.child),
        field(t, i, "type"@) is Some,
        visit(t, field(t, i, "type"@)->0).contains(b),
        t.nodes[field(t, i, "type"@)->0].kind == "struct_type"@ || t.nodes[field(t, i, "type"@)->0].kind
            == "interface_type"@,
        t.nodes[field(t, i, "type"@)->0].kind == "struct_type"@ ==> {
            &&& t.nodes[b].kind == "field_declaration"@
            &&& field(t, b, "name"@) is None
            &&& field(t, b, "type"@) is Some
            &&& names_super(t, field(t, b, "type"@)->0, x)
        },
        t.nodes[field(t, i, "type"@)->0].kind == "interface_type"@ ==> t.nodes[b].kind == "type_elem"@ && names_super(
            t,
            b,
            x,
        ),
        x.hint == SuperHint::Inherits,
{
    reveal_strlit("struct_type");
    reveal_strlit("interface_type");
    assert("struct_type"@.len() != "interface_type"@.len());
    let child = field_text(t, i, "name"@)->0;
    let ty = field(t, i, "type"@)->0;
    if t.nodes[ty].kind == "struct_type"@ {
        flattened_back(visit(t, ty), |f: int| embedded_field(t, child, f), x)
    } else {
        flattened_back(visit(t, ty), |e: int| embedded_element(t, child, e), x)
    }
}

/// Only these languages have supertypes.
pub proof fn other_languages_have_no_supertypes(lang: Language, t: TreeView, i: int)
    requires
        lang != Language::CSharp,
        lang != Language::Rust,
        lang != Language::TypeScript,
        lang != Language::JavaScript,
        lang != Language::Python,
        lang != Language::Go,
    ensures
        supers_at(lang, t, i).len() == 0,
{
}

} // verus!
