//! What a source imports.

use crate::graph::model::Language;
use crate::indexer::syntax::{parses, query_matches, CaptureView, Grammar};
use crate::indexer::tree::{tree_of, TreeView};
use crate::indexer::tree_sitter::common::{capture_text, captured};
use crate::indexer::tree_sitter::imports::{
    imported, imports_in, namespace, namespaces, package_root, specifier, CSHARP_IMPORT_QUERY, JS_IMPORT_QUERY,
};
use crate::indexer::tree_sitter::script::script_grammar;
use crate::lists::{flat_members, made, made_is_picked, makes, pick, picked_from};
use crate::text::{trim, trim_any};
use vstd::prelude::*;

verus! {

/// An `import` of a source, and a call of `require`, import the package that the
/// quoted text belongs to. A call of another function imports nothing.
pub proof fn quoted_sources_are_imported(t: TreeView, source: CaptureView, function: CaptureView, raw: Seq<char>)
    requires
        capture_text(t, source) == Some(raw),
        function.name == "fn"@,
    ensures
        source.name == "src"@ ==> imported(t, seq![source]) == package_root(trim_any(raw, '"', '\'', '`')),
        source.name == "reqsrc"@ && capture_text(t, function) == Some("require"@) ==> imported(t, seq![function, source])
            == package_root(trim_any(raw, '"', '\'', '`')),
        source.name == "reqsrc"@ && capture_text(t, function) != Some("require"@) ==> imported(t, seq![function, source])
            is None,
{
    reveal_strlit("src");
    reveal_strlit("reqsrc");
    reveal_strlit("fn");
    assert("src"@.len() == 3 && "reqsrc"@.len() == 6 && "fn"@.len() == 2);
    let one = seq![source];
    let two = seq![function, source];
    assert(one.drop_last() =~= Seq::empty());
    assert(one.last() == source);
    assert(two.drop_last() =~= seq![function]);
    assert(two.last() == source);
    assert(seq![function].drop_last() =~= Seq::<CaptureView>::empty());
    assert(seq![function].last() == function);
    reveal_with_fuel(captured, 4);
    reveal_with_fuel(specifier, 4);
}

/// Every quoted source of a script is looked at, and nothing else is imported.
pub proof fn script_imports_are_the_sources(
    path: Seq<char>,
    lang: Language,
    text: Seq<char>,
    matches: Seq<Seq<CaptureView>>,
    p: Seq<char>,
)
    requires
        lang == Language::JavaScript || lang == Language::TypeScript,
        parses(script_grammar(path, lang), text),
        query_matches(script_grammar(path, lang), text, JS_IMPORT_QUERY@) == Some(matches),
    ensures
        imports_in(path, lang, text).contains(p) <==> exists|m: Seq<CaptureView>| #[trigger]
            matches.contains(m) && imported(tree_of(script_grammar(path, lang), text), m) == Some(p),
{
    let t = tree_of(script_grammar(path, lang), text);
    let f = |m: Seq<CaptureView>| imported(t, m);
    picked_from(matches, f);
    let all = pick(matches, f);
    if all.contains(p) {
        assert(all[all.index_of(p)] == p);
        assert(made(matches, f, p));
        let m = choose|m: Seq<CaptureView>| #[trigger] matches.contains(m) && f(m) == Some(p);
        assert(matches.contains(m) && imported(t, m) == Some(p));
    }
    if exists|m: Seq<CaptureView>| #[trigger] matches.contains(m) && imported(t, m) == Some(p) {
        let m = choose|m: Seq<CaptureView>| #[trigger] matches.contains(m) && imported(t, m) == Some(p);
        assert(matches.contains(m) && f(m) == Some(p));
        assert(made(matches, f, p));
        made_is_picked(matches, f, p);
    }
}

/// The namespaces that a C# source imports are the captured ones, trimmed.
pub proof fn csharp_imports_are_the_namespaces(t: TreeView, matches: Seq<Seq<CaptureView>>, p: Seq<char>)
    ensures
        namespaces(t, matches).contains(p) <==> exists|m: Seq<CaptureView>, c: CaptureView| #[trigger]
            matches.contains(m) && #[trigger] m.contains(c) && c.name == "ns"@ && capture_text(t, c) is Some && p == trim(
                capture_text(t, c)->0,
            ) && p.len() > 0,
{
    let g = |c: CaptureView| namespace(t, c);
    let f = |m: Seq<CaptureView>| pick(m, |c: CaptureView| namespace(t, c));
    flat_members(matches, f, p);
    if namespaces(t, matches).contains(p) {
        let m = choose|m: Seq<CaptureView>| #[trigger] matches.contains(m) && f(m).contains(p);
        picked_from(m, g);
        let all = pick(m, g);
        assert(all[all.index_of(p)] == p);
        assert(made(m, g, p));
        let c = choose|c: CaptureView| #[trigger] m.contains(c) && g(c) == Some(p);
        assert(matches.contains(m) && m.contains(c) && namespace(t, c) == Some(p));
    }
    if exists|m: Seq<CaptureView>, c: CaptureView| #[trigger]
        matches.contains(m) && #[trigger] m.contains(c) && c.name == "ns"@ && capture_text(t, c) is Some && p == trim(
            capture_text(t, c)->0,
        ) && p.len() > 0 {
        let (m, c) = choose|m: Seq<CaptureView>, c: CaptureView| #[trigger]
            matches.contains(m) && #[trigger] m.contains(c) && c.name == "ns"@ && capture_text(t, c) is Some && p == trim(
                capture_text(t, c)->0,
            ) && p.len() > 0;
        assert(m.contains(c) && g(c) == Some(p));
        assert(made(m, g, p));
        made_is_picked(m, g, p);
        assert(matches.contains(m) && f(m).contains(p));
        assert(makes(matches, f, p));
    }
}

/// C# sources are read in their grammar.
pub proof fn csharp_sources_import_namespaces(path: Seq<char>, text: Seq<char>, matches: Seq<Seq<CaptureView>>)
    requires
        parses(Grammar::CSharp, text),
        query_matches(Grammar::CSharp, text, CSHARP_IMPORT_QUERY@) == Some(matches),
    ensures
        imports_in(path, Language::CSharp, text) == namespaces(tree_of(Grammar::CSharp, text), matches),
{
}

} // verus!
