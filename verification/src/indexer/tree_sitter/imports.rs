//! Imports (for file -> package edges).

use crate::graph::model::Language;
use crate::indexer::syntax::{parses, query_matches, Capture, CaptureView, Grammar, Match};
use crate::indexer::tree::{tree_of, SyntaxTree, TreeView};
use crate::indexer::tree_sitter::common::{capture_text, captured, find_capture};
use crate::indexer::tree_sitter::script::{js_ts_grammar, script_grammar};
use crate::lists::{flat, flat_views, pick, pick_views, sort_dedup_texts, sorted_set, take_next, take_none, take_whole};
use crate::text::{
    cat3, opt_view, same, split, split_at_char, starts_with_char, trim, trim_any, trimmed, trimmed_of, views,
};
use vstd::prelude::*;

verus! {

/// The npm package that a module specifier belongs to; none for a path.
pub open spec fn package_root(spec: Seq<char>) -> Option<Seq<char>> {
    let parts = split(spec, '/');
    let root = if spec.len() > 0 && spec[0] == '@' && parts.len() >= 2 {
        parts[0] + "/"@ + parts[1]
    } else {
        parts[0]
    };
    if spec.len() > 0 && (spec[0] == '.' || spec[0] == '/') {
        None
    } else if root.len() == 0 {
        None
    } else {
        Some(root)
    }
}

/// Reduce a JS/TS module specifier to its npm package root, or `None` if it is
/// a relative/absolute path import (not a package).
pub fn npm_package_root(spec: &str) -> (r: Option<String>)
    ensures
        opt_view(r) == package_root(spec@),
{
    if starts_with_char(spec, '.') || starts_with_char(spec, '/') {
        return None;
    }
    let parts = split_at_char(spec, '/');
    proof {
        assert(views(parts@)[0] == parts@[0]@);
        if parts@.len() >= 2 {
            assert(views(parts@)[1] == parts@[1]@);
        }
    }
    let root = if starts_with_char(spec, '@') && parts.len() >= 2 {
        cat3(parts[0].as_str(), "/", parts[1].as_str())
    } else {
        parts[0].clone()
    };
    if root.as_str().is_empty() {
        None
    } else {
        Some(root)
    }
}

pub const JS_IMPORT_QUERY: &'static str =
    "
(import_statement source: (string) @src)
(call_expression
  function: (identifier) @fn
  arguments: (arguments (string) @reqsrc))
";

/// The last capture that holds a module specifier.
pub open spec fn specifier(m: Seq<CaptureView>) -> Option<CaptureView>
    decreases m.len(),
{
    if m.len() == 0 {
        None
    } else if m.last().name == "src"@ || m.last().name == "reqsrc"@ {
        Some(m.last())
    } else {
        specifier(m.drop_last())
    }
}

fn find_specifier<'a>(m: &'a Match) -> (r: Option<&'a Capture>)
    ensures
        r is Some == specifier(m@) is Some,
        r matches Some(c) ==> specifier(m@) == Some(c@),
{
    let ghost all = views(m.captures@);
    let mut i: usize = m.captures.len();
    proof {
        take_whole(all);
    }
    while i > 0
        invariant
            i <= m.captures@.len(),
            all == views(m.captures@),
            specifier(m@) == specifier(all.take(i as int)),
        decreases i,
    {
        i -= 1;
        proof {
            take_next(all, i as int);
            assert(all[i as int] == m.captures@[i as int]@);
        }
        let name = m.captures[i].name.as_str();
        if same(name, "src") || same(name, "reqsrc") {
            return Some(&m.captures[i]);
        }
    }
    proof {
        take_none(all);
    }
    None
}

/// The call that was matched is one of `require`.
pub open spec fn calls_require(t: TreeView, m: Seq<CaptureView>) -> bool {
    captured(m, "fn"@) matches Some(c) ==> capture_text(t, c) == Some("require"@)
}

/// The package that a match imports: of `import ... from '<spec>'` or
/// `require('<spec>')`.
pub open spec fn imported(t: TreeView, m: Seq<CaptureView>) -> Option<Seq<char>> {
    if captured(m, "reqsrc"@) is Some && !calls_require(t, m) {
        None
    } else {
        match specifier(m) {
            Some(c) => match capture_text(t, c) {
                Some(raw) => package_root(trim_any(raw, '"', '\'', '`')),
                None => None,
            },
            None => None,
        }
    }
}

/// The packages imported by a JS/TS source, from its tree and the matches of
/// [`JS_IMPORT_QUERY`], in source order.
pub fn js_ts_imports(t: &SyntaxTree, matches: &Vec<Match>) -> (r: Vec<String>)
    ensures
        views(r@) == pick(views(matches@), |m: Seq<CaptureView>| imported(t@, m)),
{
    let ghost want = |m: Seq<CaptureView>| imported(t@, m);
    let f = |m: &Match| -> (r: Option<String>)
        ensures
            opt_view(r) == want(m@),
        {
            let is_require = find_capture(m, "reqsrc").is_some();
            let require_ok = match find_capture(m, "fn") {
                Some(c) => match t.span(c.start_byte, c.end_byte) {
                    Some(s) => same(s.as_str(), "require"),
                    None => false,
                },
                None => true,
            };
            if is_require && !require_ok {
                return None;
            }
            match find_specifier(m) {
                Some(c) => match t.span(c.start_byte, c.end_byte) {
                    Some(raw) => {
                        let spec = trimmed_of(raw.as_str(), '"', '\'', '`');
                        npm_package_root(spec.as_str())
                    },
                    None => None,
                },
                None => None,
            }
        };
    pick_views(matches, f, Ghost(want))
}

pub const CSHARP_IMPORT_QUERY: &'static str =
    "
(using_directive (qualified_name) @ns)
(using_directive (identifier) @ns)
";

/// The namespace that a capture names.
pub open spec fn namespace(t: TreeView, c: CaptureView) -> Option<Seq<char>> {
    if c.name == "ns"@ {
        match capture_text(t, c) {
            Some(s) => if trim(s).len() > 0 {
                Some(trim(s))
            } else {
                None
            },
            None => None,
        }
    } else {
        None
    }
}

/// The namespaces that the matches name.
pub open spec fn namespaces(t: TreeView, matches: Seq<Seq<CaptureView>>) -> Seq<Seq<char>> {
    flat(matches, |m: Seq<CaptureView>| pick(m, |c: CaptureView| namespace(t, c)))
}

fn match_namespaces(t: &SyntaxTree, m: &Match) -> (r: Vec<String>)
    ensures
        views(r@) == pick(m@, |c: CaptureView| namespace(t@, c)),
{
    let ghost want = |c: CaptureView| namespace(t@, c);
    let f = |c: &Capture| -> (r: Option<String>)
        ensures
            opt_view(r) == want(c@),
        {
            if !same(c.name.as_str(), "ns") {
                return None;
            }
            match t.span(c.start_byte, c.end_byte) {
                Some(s) => {
                    let ns = trimmed(s.as_str());
                    if ns.as_str().is_empty() {
                        None
                    } else {
                        Some(ns)
                    }
                },
                None => None,
            }
        };
    pick_views(&m.captures, f, Ghost(want))
}

/// The namespaces used by a C# source, from its tree and the matches of
/// [`CSHARP_IMPORT_QUERY`], in source order.
pub fn csharp_imports(t: &SyntaxTree, matches: &Vec<Match>) -> (r: Vec<String>)
    ensures
        views(r@) == namespaces(t@, views(matches@)),
{
    let ghost want = |m: Seq<CaptureView>| pick(m, |c: CaptureView| namespace(t@, c));
    let f = |m: &Match| -> (r: Vec<String>)
        ensures
            views(r@) == want(m@),
        {
            match_namespaces(t, m)
        };
    flat_views(matches, f, Ghost(want))
}

/// What a text imports, in source order; nothing where it cannot be parsed or
/// queried, and for languages without a clean import->package mapping.
pub open spec fn imports_in(path: Seq<char>, lang: Language, text: Seq<char>) -> Seq<Seq<char>> {
    match lang {
        Language::JavaScript | Language::TypeScript => {
            let g = script_grammar(path, lang);
            match query_matches(g, text, JS_IMPORT_QUERY@) {
                Some(m) => if parses(g, text) {
                    pick(m, |m: Seq<CaptureView>| imported(tree_of(g, text), m))
                } else {
                    Seq::empty()
                },
                None => Seq::empty(),
            }
        },
        Language::CSharp => match query_matches(Grammar::CSharp, text, CSHARP_IMPORT_QUERY@) {
            Some(m) => if parses(Grammar::CSharp, text) {
                namespaces(tree_of(Grammar::CSharp, text), m)
            } else {
                Seq::empty()
            },
            None => Seq::empty(),
        },
        _ => Seq::empty(),
    }
}

/// Extract the imported module/namespace names from a file, normalised so they
/// can be matched against package names; sorted, each once. Only JS/TS and C# are
/// supported (the languages with a clean import->package mapping).
///
/// * JS/TS: the module specifier of each `import ... from '<spec>'` (and
///   `require('<spec>')`), reduced to its package root — `@scope/pkg/sub` ->
///   `@scope/pkg`, `pkg/sub` -> `pkg`. Relative imports (`./`, `../`) are
///   dropped.
/// * C#: the namespace of each `using <Namespace>;` directive, kept whole (the
///   indexer matches it against package names by longest-prefix).
pub fn extract_imports(path: &str, lang: Language, text: &str) -> (r: Vec<String>)
    ensures
        views(r@) == sorted_set(imports_in(path@, lang, text@)),
{
    let found: Vec<String> = match lang {
        Language::JavaScript | Language::TypeScript => match SyntaxTree::parse_and_query(
            js_ts_grammar(path, lang),
            text,
            JS_IMPORT_QUERY,
        ) {
            Some((t, m)) => js_ts_imports(&t, &m),
            None => Vec::new(),
        },
        Language::CSharp => match SyntaxTree::parse_and_query(Grammar::CSharp, text, CSHARP_IMPORT_QUERY) {
            Some((t, m)) => csharp_imports(&t, &m),
            None => Vec::new(),
        },
        _ => Vec::new(),
    };
    assert(views(found@) =~= imports_in(path@, lang, text@));
    sort_dedup_texts(found)
}

} // verus!
