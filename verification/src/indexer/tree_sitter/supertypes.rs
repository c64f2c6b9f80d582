//! Supertypes (for `INHERITS` / `IMPLEMENTS` edges).

use crate::graph::model::Language;
use crate::indexer::facts::{SuperHint, Supertype, SupertypeView};
use crate::indexer::syntax::{parses, Grammar};
use crate::indexer::tree::{field, field_text, is_kind, kids, text_of, tree_of, visit, visit_all, SyntaxTree, TreeView};
use crate::indexer::tree_sitter::common::{bare, bare_type_name};
use crate::indexer::tree_sitter::script::{js_ts_grammar, script_grammar};
use crate::lists::{dedup_views, flat, pick, sort_views};
use crate::sorting::{dedup, stable_sort};
use crate::text::{before, opt_view, same, text_le, text_lt, views};
use vstd::prelude::*;

verus! {

/// The relationship to the type that node `i` names, if it names one.
pub open spec fn named_super(t: TreeView, child: Seq<char>, hint: SuperHint, i: int) -> Option<SupertypeView> {
    match text_of(t, i) {
        Some(s) => if bare(s).len() > 0 {
            Some(SupertypeView { child, supertype: bare(s), hint })
        } else {
            None
        },
        None => None,
    }
}

fn super_of(t: &SyntaxTree, child: &str, hint: SuperHint, i: usize) -> (r: Option<Supertype>)
    requires
        i < t.nodes@.len(),
    ensures
        opt_view(r) == named_super(t@, child@, hint, i as int),
{
    match t.text(i) {
        Some(s) => {
            let supertype = bare_type_name(s.as_str());
            if supertype.as_str().is_empty() {
                None
            } else {
                Some(Supertype { child: child.to_owned(), supertype, hint })
            }
        },
        None => None,
    }
}

// --- C# -----------------------------------------------------------------------------------
pub open spec fn csharp_type_node(t: TreeView, i: int) -> bool {
    is_kind(t, i, "type"@) || is_kind(t, i, "identifier"@) || is_kind(t, i, "qualified_name"@) || is_kind(
        t,
        i,
        "generic_name"@,
    )
}

pub fn is_csharp_type_node(t: &SyntaxTree, i: usize) -> (r: bool)
    requires
        i < t.nodes@.len(),
    ensures
        r == csharp_type_node(t@, i as int),
{
    t.is(i, "type") || t.is(i, "identifier") || t.is(i, "qualified_name") || t.is(i, "generic_name")
}

/// The types that a base list names.
pub open spec fn base_list_supers(t: TreeView, child: Seq<char>, i: int) -> Seq<SupertypeView> {
    if is_kind(t, i, "base_list"@) {
        pick(
            kids(t, i),
            |b: int|
                if csharp_type_node(t, b) {
                    named_super(t, child, SuperHint::Unknown, b)
                } else {
                    None
                },
        )
    } else {
        Seq::empty()
    }
}

/// The base types of the class, struct or record that node `i` declares.
pub open spec fn csharp_supers_at(t: TreeView, i: int) -> Seq<SupertypeView> {
    if is_kind(t, i, "class_declaration"@) || is_kind(t, i, "struct_declaration"@) || is_kind(
        t,
        i,
        "record_declaration"@,
    ) {
        match field_text(t, i, "name"@) {
            Some(child) => flat(kids(t, i), |s: int| base_list_supers(t, child, s)),
            None => Seq::empty(),
        }
    } else {
        Seq::empty()
    }
}

fn base_list(t: &SyntaxTree, child: &str, i: usize) -> (r: Vec<Supertype>)
    requires
        i < t.nodes@.len(),
    ensures
        views(r@) == base_list_supers(t@, child@, i as int),
{
    if t.is(i, "base_list") {
        let ghost want = |b: int|
            if csharp_type_node(t@, b) {
                named_super(t@, child@, SuperHint::Unknown, b)
            } else {
                None
            };
        let f = |b: usize| -> (r: Option<Supertype>)
            requires
                b < t.nodes@.len(),
            ensures
                opt_view(r) == want(b as int),
            {
                if is_csharp_type_node(t, b) {
                    super_of(t, child, SuperHint::Unknown, b)
                } else {
                    None
                }
            };
        t.pick_children(i, f, Ghost(want))
    } else {
        let none: Vec<Supertype> = Vec::new();
        assert(views(none@) =~= Seq::<SupertypeView>::empty());
        none
    }
}

/// The base types that a C# source declares, from its tree, in walking order.
pub fn csharp_supertypes(t: &SyntaxTree) -> (r: Vec<Supertype>)
    ensures
        views(r@) == flat(visit_all(t@), |i: int| csharp_supers_at(t@, i)),
{
    let ghost want = |i: int| csharp_supers_at(t@, i);
    let f = |i: usize| -> (r: Vec<Supertype>)
        requires
            i < t.nodes@.len(),
        ensures
            views(r@) == want(i as int),
        {
            let none: Vec<Supertype> = Vec::new();
            assert(views(none@) =~= Seq::<SupertypeView>::empty());
            if t.is(i, "class_declaration") || t.is(i, "struct_declaration") || t.is(i, "record_declaration") {
                match t.field_text(i, "name") {
                    Some(child) => {
                        let child = child.as_str();
                        let ghost each = |s: int| base_list_supers(t@, child@, s);
                        let g = |s: usize| -> (r: Vec<Supertype>)
                            requires
                                s < t.nodes@.len(),
                            ensures
                                views(r@) == each(s as int),
                            {
                                base_list(t, child, s)
                            };
                        t.flat_children(i, g, Ghost(each))
                    },
                    None => none,
                }
            } else {
                none
            }
        };
    t.collect(f, Ghost(want))
}

// --- Rust ---------------------------------------------------------------------------------
/// `impl Trait for Type`: the type implements the trait. `trait Sub: Super`: the
/// trait inherits its supertraits.
pub open spec fn rust_supers_at(t: TreeView, i: int) -> Seq<SupertypeView> {
    if is_kind(t, i, "impl_item"@) {
        match (field_text(t, i, "trait"@), field_text(t, i, "type"@)) {
            (Some(tr), Some(ty)) => seq![
                SupertypeView { child: bare(ty), supertype: bare(tr), hint: SuperHint::Implements },
            ],
            _ => Seq::empty(),
        }
    } else if is_kind(t, i, "trait_item"@) {
        match (field_text(t, i, "name"@), field(t, i, "bounds"@)) {
            (Some(child), Some(bounds)) => pick(kids(t, bounds), |b: int| supertrait(t, child, b)),
            _ => Seq::empty(),
        }
    } else {
        Seq::empty()
    }
}

/// The supertrait that a bound names.
pub open spec fn supertrait(t: TreeView, child: Seq<char>, b: int) -> Option<SupertypeView> {
    if is_kind(t, b, "type_identifier"@) || is_kind(t, b, "scoped_type_identifier"@) {
        match text_of(t, b) {
            Some(s) => Some(SupertypeView { child, supertype: bare(s), hint: SuperHint::Inherits }),
            None => None,
        }
    } else {
        None
    }
}

fn supertraits(t: &SyntaxTree, child: &str, bounds: usize) -> (r: Vec<Supertype>)
    requires
        bounds < t.nodes@.len(),
    ensures
        views(r@) == pick(kids(t@, bounds as int), |b: int| supertrait(t@, child@, b)),
{
    let ghost want = |b: int| supertrait(t@, child@, b);
    let f = |b: usize| -> (r: Option<Supertype>)
        requires
            b < t.nodes@.len(),
        ensures
            opt_view(r) == want(b as int),
        {
            if t.is(b, "type_identifier") || t.is(b, "scoped_type_identifier") {
                match t.text(b) {
                    Some(s) => Some(
                        Supertype {
                            child: child.to_owned(),
                            supertype: bare_type_name(s.as_str()),
                            hint: SuperHint::Inherits,
                        },
                    ),
                    None => None,
                }
            } else {
                None
            }
        };
    t.pick_children(bounds, f, Ghost(want))
}

/// The trait relationships that a Rust source declares, from its tree, in walking
/// order.
pub fn rust_supertypes(t: &SyntaxTree) -> (r: Vec<Supertype>)
    ensures
        views(r@) == flat(visit_all(t@), |i: int| rust_supers_at(t@, i)),
{
    let ghost want = |i: int| rust_supers_at(t@, i);
    let f = |i: usize| -> (r: Vec<Supertype>)
        requires
            i < t.nodes@.len(),
        ensures
            views(r@) == want(i as int),
        {
            let mut out: Vec<Supertype> = Vec::new();
            if t.is(i, "impl_item") {
                match t.field_text(i, "trait") {
                    Some(tr) => match t.field_text(i, "type") {
                        Some(ty) => {
                            out.push(
                                Supertype {
                                    child: bare_type_name(ty.as_str()),
                                    supertype: bare_type_name(tr.as_str()),
                                    hint: SuperHint::Implements,
                                },
                            );
                        },
                        None => {},
                    },
                    None => {},
                }
            } else if t.is(i, "trait_item") {
                match t.field_text(i, "name") {
                    Some(child) => match t.child_by_field(i, "bounds") {
                        Some(bounds) => {
                            out = supertraits(t, child.as_str(), bounds);
                        },
                        None => {},
                    },
                    None => {},
                }
            }
            assert(views(out@) =~= rust_supers_at(t@, i as int));
            out
        };
    t.collect(f, Ghost(want))
}

// --- TypeScript ---------------------------------------------------------------------------
pub open spec fn ts_type_node(t: TreeView, i: int) -> bool {
    is_kind(t, i, "identifier"@) || is_kind(t, i, "type_identifier"@) || is_kind(t, i, "member_expression"@) || is_kind(
        t,
        i,
        "generic_type"@,
    ) || is_kind(t, i, "nested_type_identifier"@)
}

/// The types that a heritage clause names.
pub open spec fn clause_supers(t: TreeView, child: Seq<char>, hint: SuperHint, i: int) -> Seq<SupertypeView> {
    pick(
        kids(t, i),
        |n: int|
            if ts_type_node(t, n) {
                named_super(t, child, hint, n)
            } else {
                None
            },
    )
}

/// The types that a clause of a class names.
pub open spec fn heritage_supers(t: TreeView, child: Seq<char>, i: int) -> Seq<SupertypeView> {
    if is_kind(t, i, "extends_clause"@) {
        clause_supers(t, child, SuperHint::Inherits, i)
    } else if is_kind(t, i, "implements_clause"@) {
        clause_supers(t, child, SuperHint::Implements, i)
    } else {
        Seq::empty()
    }
}

/// The types that a part of a class or interface declaration names.
pub open spec fn ts_part_supers(t: TreeView, child: Seq<char>, i: int) -> Seq<SupertypeView> {
    if is_kind(t, i, "class_heritage"@) {
        flat(kids(t, i), |c: int| heritage_supers(t, child, c))
    } else if is_kind(t, i, "extends_type_clause"@) {
        clause_supers(t, child, SuperHint::Inherits, i)
    } else {
        Seq::empty()
    }
}

/// The supertypes of the class or interface that node `i` declares.
pub open spec fn ts_supers_at(t: TreeView, i: int) -> Seq<SupertypeView> {
    if is_kind(t, i, "class_declaration"@) || is_kind(t, i, "interface_declaration"@) {
        match field_text(t, i, "name"@) {
            Some(child) => flat(kids(t, i), |s: int| ts_part_supers(t, child, s)),
            None => Seq::empty(),
        }
    } else {
        Seq::empty()
    }
}

/// The types that a TS heritage clause names.
fn collect_ts_clause_types(t: &SyntaxTree, child: &str, hint: SuperHint, i: usize) -> (r: Vec<Supertype>)
    requires
        i < t.nodes@.len(),
    ensures
        views(r@) == clause_supers(t@, child@, hint, i as int),
{
    let ghost want = |n: int|
        if ts_type_node(t@, n) {
            named_super(t@, child@, hint, n)
        } else {
            None
        };
    let f = |n: usize| -> (r: Option<Supertype>)
        requires
            n < t.nodes@.len(),
        ensures
            opt_view(r) == want(n as int),
        {
            if t.is(n, "identifier") || t.is(n, "type_identifier") || t.is(n, "member_expression") || t.is(
                n,
                "generic_type",
            ) || t.is(n, "nested_type_identifier") {
                super_of(t, child, hint, n)
            } else {
                None
            }
        };
    t.pick_children(i, f, Ghost(want))
}

fn ts_part(t: &SyntaxTree, child: &str, i: usize) -> (r: Vec<Supertype>)
    requires
        i < t.nodes@.len(),
    ensures
        views(r@) == ts_part_supers(t@, child@, i as int),
{
    let none: Vec<Supertype> = Vec::new();
    assert(views(none@) =~= Seq::<SupertypeView>::empty());
    if t.is(i, "class_heritage") {
        let ghost each = |c: int| heritage_supers(t@, child@, c);
        let f = |c: usize| -> (r: Vec<Supertype>)
            requires
                c < t.nodes@.len(),
            ensures
                views(r@) == each(c as int),
            {
                if t.is(c, "extends_clause") {
                    collect_ts_clause_types(t, child, SuperHint::Inherits, c)
                } else if t.is(c, "implements_clause") {
                    collect_ts_clause_types(t, child, SuperHint::Implements, c)
                } else {
                    let nothing: Vec<Supertype> = Vec::new();
                    assert(views(nothing@) =~= Seq::<SupertypeView>::empty());
                    nothing
                }
            };
        t.flat_children(i, f, Ghost(each))
    } else if t.is(i, "extends_type_clause") {
        collect_ts_clause_types(t, child, SuperHint::Inherits, i)
    } else {
        none
    }
}

/// The supertypes that a JS/TS source declares, from its tree, in walking order.
pub fn ts_supertypes(t: &SyntaxTree) -> (r: Vec<Supertype>)
    ensures
        views(r@) == flat(visit_all(t@), |i: int| ts_supers_at(t@, i)),
{
    let ghost want = |i: int| ts_supers_at(t@, i);
    let f = |i: usize| -> (r: Vec<Supertype>)
        requires
            i < t.nodes@.len(),
        ensures
            views(r@) == want(i as int),
        {
            let none: Vec<Supertype> = Vec::new();
            assert(views(none@) =~= Seq::<SupertypeView>::empty());
            if t.is(i, "class_declaration") || t.is(i, "interface_declaration") {
                match t.field_text(i, "name") {
                    Some(child) => {
                        let child = child.as_str();
                        let ghost each = |s: int| ts_part_supers(t@, child@, s);
                        let g = |s: usize| -> (r: Vec<Supertype>)
                            requires
                                s < t.nodes@.len(),
                            ensures
                                views(r@) == each(s as int),
                            {
                                ts_part(t, child, s)
                            };
                        t.flat_children(i, g, Ghost(each))
                    },
                    None => none,
                }
            } else {
                none
            }
        };
    t.collect(f, Ghost(want))
}

// --- Python -------------------------------------------------------------------------------
/// The superclass that an argument names; `object` says nothing.
pub open spec fn superclass(t: TreeView, child: Seq<char>, a: int) -> Option<SupertypeView> {
    if is_kind(t, a, "identifier"@) || is_kind(t, a, "attribute"@) {
        match named_super(t, child, SuperHint::Inherits, a) {
            Some(s) => if s.supertype == "object"@ {
                None
            } else {
                Some(s)
            },
            None => None,
        }
    } else {
        None
    }
}

/// The superclasses of the class that node `i` defines.
pub open spec fn python_supers_at(t: TreeView, i: int) -> Seq<SupertypeView> {
    if is_kind(t, i, "class_definition"@) {
        match (field_text(t, i, "name"@), field(t, i, "superclasses"@)) {
            (Some(child), Some(s)) => pick(kids(t, s), |a: int| superclass(t, child, a)),
            _ => Seq::empty(),
        }
    } else {
        Seq::empty()
    }
}

fn superclasses(t: &SyntaxTree, child: &str, i: usize) -> (r: Vec<Supertype>)
    requires
        i < t.nodes@.len(),
    ensures
        views(r@) == pick(kids(t@, i as int), |a: int| superclass(t@, child@, a)),
{
    let ghost want = |a: int| superclass(t@, child@, a);
    let f = |a: usize| -> (r: Option<Supertype>)
        requires
            a < t.nodes@.len(),
        ensures
            opt_view(r) == want(a as int),
        {
            if t.is(a, "identifier") || t.is(a, "attribute") {
                match super_of(t, child, SuperHint::Inherits, a) {
                    Some(s) => if same(s.supertype.as_str(), "object") {
                        None
                    } else {
                        Some(s)
                    },
                    None => None,
                }
            } else {
                None
            }
        };
    t.pick_children(i, f, Ghost(want))
}

/// The superclasses that a Python source declares, from its tree, in walking
/// order.
pub fn python_supertypes(t: &SyntaxTree) -> (r: Vec<Supertype>)
    ensures
        views(r@) == flat(visit_all(t@), |i: int| python_supers_at(t@, i)),
{
    let ghost want = |i: int| python_supers_at(t@, i);
    let f = |i: usize| -> (r: Vec<Supertype>)
        requires
            i < t.nodes@.len(),
        ensures
            views(r@) == want(i as int),
        {
            let none: Vec<Supertype> = Vec::new();
            assert(views(none@) =~= Seq::<SupertypeView>::empty());
            if t.is(i, "class_definition") {
                match t.field_text(i, "name") {
                    Some(child) => match t.child_by_field(i, "superclasses") {
                        Some(s) => superclasses(t, child.as_str(), s),
                        None => none,
                    },
                    None => none,
                }
            } else {
                none
            }
        };
    t.collect(f, Ghost(want))
}

// --- Go -----------------------------------------------------------------------------------
pub open spec fn one<T>(o: Option<T>) -> Seq<T> {
    match o {
        Some(x) => seq![x],
        None => Seq::empty(),
    }
}

/// The type embedded by a struct field without a name.
pub open spec fn embedded_field(t: TreeView, child: Seq<char>, i: int) -> Seq<SupertypeView> {
    if is_kind(t, i, "field_declaration"@) && field(t, i, "name"@) is None {
        match field(t, i, "type"@) {
            Some(ty) => one(named_super(t, child, SuperHint::Inherits, ty)),
            None => Seq::empty(),
        }
    } else {
        Seq::empty()
    }
}

/// The type embedded by an interface element.
pub open spec fn embedded_element(t: TreeView, child: Seq<char>, i: int) -> Seq<SupertypeView> {
    if is_kind(t, i, "type_elem"@) {
        one(named_super(t, child, SuperHint::Inherits, i))
    } else {
        Seq::empty()
    }
}

/// The types embedded in the struct or interface that node `i` specifies.
pub open spec fn go_supers_at(t: TreeView, i: int) -> Seq<SupertypeView> {
    if is_kind(t, i, "type_spec"@) {
        match (field_text(t, i, "name"@), field(t, i, "type"@)) {
            (Some(child), Some(ty)) => if is_kind(t, ty, "struct_type"@) {
                flat(visit(t, ty), |f: int| embedded_field(t, child, f))
            } else if is_kind(t, ty, "interface_type"@) {
                flat(visit(t, ty), |e: int| embedded_element(t, child, e))
            } else {
                Seq::empty()
            },
            _ => Seq::empty(),
        }
    } else {
        Seq::empty()
    }
}

fn embedded_fields(t: &SyntaxTree, child: &str, ty: usize) -> (r: Vec<Supertype>)
    requires
        ty < t.nodes@.len(),
    ensures
        views(r@) == flat(visit(t@, ty as int), |f: int| embedded_field(t@, child@, f)),
{
    let ghost want = |f: int| embedded_field(t@, child@, f);
    let f = |i: usize| -> (r: Vec<Supertype>)
        requires
            i < t.nodes@.len(),
        ensures
            views(r@) == want(i as int),
        {
            let mut out: Vec<Supertype> = Vec::new();
            if t.is(i, "field_declaration") && t.child_by_field(i, "name").is_none() {
                match t.child_by_field(i, "type") {
                    Some(ft) => match super_of(t, child, SuperHint::Inherits, ft) {
                        Some(s) => {
                            out.push(s);
                        },
                        None => {},
                    },
                    None => {},
                }
            }
            assert(views(out@) =~= embedded_field(t@, child@, i as int));
            out
        };
    t.collect_from(ty, f, Ghost(want))
}

fn embedded_elements(t: &SyntaxTree, child: &str, ty: usize) -> (r: Vec<Supertype>)
    requires
        ty < t.nodes@.len(),
    ensures
        views(r@) == flat(visit(t@, ty as int), |e: int| embedded_element(t@, child@, e)),
{
    let ghost want = |e: int| embedded_element(t@, child@, e);
    let f = |i: usize| -> (r: Vec<Supertype>)
        requires
            i < t.nodes@.len(),
        ensures
            views(r@) == want(i as int),
        {
            let mut out: Vec<Supertype> = Vec::new();
            if t.is(i, "type_elem") {
                match super_of(t, child, SuperHint::Inherits, i) {
                    Some(s) => {
                        out.push(s);
                    },
                    None => {},
                }
            }
            assert(views(out@) =~= embedded_element(t@, child@, i as int));
            out
        };
    t.collect_from(ty, f, Ghost(want))
}

/// The embedded types that a Go source declares, from its tree, in walking order.
pub fn go_supertypes(t: &SyntaxTree) -> (r: Vec<Supertype>)
    ensures
        views(r@) == flat(visit_all(t@), |i: int| go_supers_at(t@, i)),
{
    let ghost want = |i: int| go_supers_at(t@, i);
    let f = |i: usize| -> (r: Vec<Supertype>)
        requires
            i < t.nodes@.len(),
        ensures
            views(r@) == want(i as int),
        {
            let none: Vec<Supertype> = Vec::new();
            assert(views(none@) =~= Seq::<SupertypeView>::empty());
            if t.is(i, "type_spec") {
                match t.field_text(i, "name") {
                    Some(child) => match t.child_by_field(i, "type") {
                        Some(ty) => if t.is(ty, "struct_type") {
                            embedded_fields(t, child.as_str(), ty)
                        } else if t.is(ty, "interface_type") {
                            embedded_elements(t, child.as_str(), ty)
                        } else {
                            none
                        },
                        None => none,
                    },
                    None => none,
                }
            } else {
                none
            }
        };
    t.collect(f, Ghost(want))
}

// --- all languages ------------------------------------------------------------------------
pub open spec fn child_super_order() -> spec_fn(SupertypeView, SupertypeView) -> bool {
    |a: SupertypeView, b: SupertypeView|
        text_lt(a.child, b.child) || (a.child == b.child && text_le(a.supertype, b.supertype))
}

pub open spec fn same_super() -> spec_fn(SupertypeView, SupertypeView) -> bool {
    |a: SupertypeView, b: SupertypeView| a == b
}

/// The supertypes at a node of a source in this language.
pub open spec fn supers_at(lang: Language, t: TreeView, i: int) -> Seq<SupertypeView> {
    match lang {
        Language::CSharp => csharp_supers_at(t, i),
        Language::Rust => rust_supers_at(t, i),
        Language::TypeScript | Language::JavaScript => ts_supers_at(t, i),
        Language::Python => python_supers_at(t, i),
        Language::Go => go_supers_at(t, i),
        _ => Seq::empty(),
    }
}

/// The grammar that supertypes (and references) of a language are read with.
pub open spec fn relation_grammar(path: Seq<char>, lang: Language) -> Option<Grammar> {
    match lang {
        Language::CSharp => Some(Grammar::CSharp),
        Language::Rust => Some(Grammar::Rust),
        Language::TypeScript | Language::JavaScript => Some(script_grammar(path, lang)),
        Language::Python => Some(Grammar::Python),
        Language::Go => Some(Grammar::Go),
        _ => None,
    }
}

pub fn grammar_for_relations(path: &str, lang: Language) -> (r: Option<Grammar>)
    ensures
        r == relation_grammar(path@, lang),
{
    match lang {
        Language::CSharp => Some(Grammar::CSharp),
        Language::Rust => Some(Grammar::Rust),
        Language::TypeScript | Language::JavaScript => Some(js_ts_grammar(path, lang)),
        Language::Python => Some(Grammar::Python),
        Language::Go => Some(Grammar::Go),
        _ => None,
    }
}

/// The supertypes of a tree: sorted by child and supertype, neighbours that are
/// equal once.
pub open spec fn supertypes_of(lang: Language, t: TreeView) -> Seq<SupertypeView> {
    dedup(
        stable_sort(flat(visit_all(t), |i: int| supers_at(lang, t, i)), child_super_order()),
        same_super(),
    )
}

/// The supertypes of a text; none where it cannot be parsed.
pub open spec fn supertypes_in(path: Seq<char>, lang: Language, text: Seq<char>) -> Seq<SupertypeView> {
    match relation_grammar(path, lang) {
        Some(g) => if parses(g, text) {
            supertypes_of(lang, tree_of(g, text))
        } else {
            Seq::empty()
        },
        None => Seq::empty(),
    }
}

/// The base-type / interface / trait relationships of a source, from its tree.
pub fn supertypes_of_tree(lang: Language, t: &SyntaxTree) -> (r: Vec<Supertype>)
    ensures
        views(r@) == supertypes_of(lang, t@),
{
    let found: Vec<Supertype> = match lang {
        Language::CSharp => csharp_supertypes(t),
        Language::Rust => rust_supertypes(t),
        Language::TypeScript | Language::JavaScript => ts_supertypes(t),
        Language::Python => python_supertypes(t),
        Language::Go => go_supertypes(t),
        _ => Vec::new(),
    };
    proof {
        let f = |i: int| supers_at(lang, t@, i);
        match lang {
            Language::CSharp => {
                flat_agrees(visit_all(t@), f, |i: int| csharp_supers_at(t@, i));
            },
            Language::Rust => {
                flat_agrees(visit_all(t@), f, |i: int| rust_supers_at(t@, i));
            },
            Language::TypeScript | Language::JavaScript => {
                flat_agrees(visit_all(t@), f, |i: int| ts_supers_at(t@, i));
            },
            Language::Python => {
                flat_agrees(visit_all(t@), f, |i: int| python_supers_at(t@, i));
            },
            Language::Go => {
                flat_agrees(visit_all(t@), f, |i: int| go_supers_at(t@, i));
            },
            _ => {
                flat_of_nothing(visit_all(t@), f);
                assert(views(found@) =~= Seq::<SupertypeView>::empty());
            },
        }
    }
    let le = |a: &Supertype, b: &Supertype| -> (r: bool)
        ensures
            r == child_super_order()(a@, b@),
        {
            before(a.child.as_str(), b.child.as_str()) || (same(a.child.as_str(), b.child.as_str()) && !before(
                b.supertype.as_str(),
                a.supertype.as_str(),
            ))
        };
    let eq = |a: &Supertype, b: &Supertype| -> (r: bool)
        ensures
            r == (a@ == b@),
        {
            same(a.child.as_str(), b.child.as_str()) && same(a.supertype.as_str(), b.supertype.as_str()) && a.hint
                == b.hint
        };
    let found = sort_views(found, le, Ghost(child_super_order()));
    dedup_views(found, eq, Ghost(same_super()))
}

pub proof fn flat_agrees<T, U>(s: Seq<T>, f: spec_fn(T) -> Seq<U>, g: spec_fn(T) -> Seq<U>)
    requires
        forall|x: T| #[trigger] f(x) == g(x),
    ensures
        flat(s, f) == flat(s, g),
    decreases s.len(),
{
    if s.len() > 0 {
        flat_agrees(s.drop_last(), f, g);
    }
}

pub proof fn flat_of_nothing<T, U>(s: Seq<T>, f: spec_fn(T) -> Seq<U>)
    requires
        forall|x: T| (#[trigger] f(x)).len() == 0,
    ensures
        flat(s, f) == Seq::<U>::empty(),
    decreases s.len(),
{
    if s.len() > 0 {
        flat_of_nothing(s.drop_last(), f);
        assert(flat(s, f) =~= Seq::<U>::empty());
    }
}

/// Extract base-type / interface / trait relationships from a file.
///
/// Best-effort and name-based: generics and namespaces are stripped to a bare
/// identifier. Returns an empty list for unsupported languages.
pub fn extract_supertypes(path: &str, lang: Language, text: &str) -> (r: Vec<Supertype>)
    ensures
        views(r@) == supertypes_in(path@, lang, text@),
{
    let none: Vec<Supertype> = Vec::new();
    assert(views(none@) =~= Seq::<SupertypeView>::empty());
    match grammar_for_relations(path, lang) {
        Some(g) => match SyntaxTree::parse(g, text) {
            Some(t) => supertypes_of_tree(lang, &t),
            None => none,
        },
        None => none,
    }
}

} // verus!
