//! What holds of the extracted symbols of every file.

use crate::graph::model::{symbol_kind_name_round_trips, Language, SymbolKind, SymbolView};
use crate::indexer::ids::symbol_id_of;
use crate::indexer::languages::jsx_path;
use crate::indexer::syntax::{CaptureView, Grammar};
use crate::indexer::tree::{first_of_kind, kids, text_of, tree_of, visit_all, TreeView};
use crate::indexer::tree_sitter::data::{
    json_pair, json_symbols_of, markdown_at, markdown_symbols_of, yaml_anchor, yaml_pair, yaml_symbols_of,
};
use crate::indexer::tree_sitter::extract::{
    extraction_is_ordered, line_name_kind_order, ordered_symbols, queried, same_place, symbols_in,
};
use crate::indexer::tree_sitter::script::{
    component, declared_lang, embedded_language, last_row, raw_text, script_block, script_extraction, script_grammar,
    script_symbol, script_symbols_of, svelte_symbols_of,
};
use crate::indexer::tree_sitter::symbols::{
    bash_symbol, csharp_symbol, from_matches, go_symbol, python_symbol, rust_symbol, BASH_QUERY, CSHARP_QUERY, GO_QUERY,
    PYTHON_QUERY, RUST_QUERY,
};
use crate::lists::{flat, pick};
use crate::text::{decimal, decimal_digits, digit, text_lt, text_lt_asymmetric, text_lt_irreflexive, text_lt_total};
use vstd::prelude::*;

verus! {

/// A symbol of the file at `path`, with the id that follows from what it is.
pub open spec fn identified(path: Seq<char>, s: SymbolView) -> bool {
    s.file_path == path && s.id == symbol_id_of(path, s.kind.name(), s.name, s.start_line)
}

pub open spec fn all_identified(path: Seq<char>, v: Seq<SymbolView>) -> bool {
    forall|i: int| 0 <= i < v.len() ==> identified(path, #[trigger] v[i])
}

proof fn sum_identified(path: Seq<char>, a: Seq<SymbolView>, b: Seq<SymbolView>)
    requires
        all_identified(path, a),
        all_identified(path, b),
    ensures
        all_identified(path, a + b),
{
    assert forall|i: int| 0 <= i < (a + b).len() implies identified(path, #[trigger] (a + b)[i]) by {
        if i < a.len() {
            assert((a + b)[i] == a[i]);
        } else {
            assert((a + b)[i] == b[i - a.len()]);
        }
    }
}

proof fn matches_identified(
    path: Seq<char>,
    t: TreeView,
    matches: Seq<Seq<CaptureView>>,
    f: spec_fn(CaptureView, Seq<char>) -> Option<SymbolView>,
)
    requires
        forall|d: CaptureView, name: Seq<char>| (#[trigger] f(d, name)) matches Some(s) ==> identified(path, s),
    ensures
        all_identified(path, from_matches(t, matches, f)),
    decreases matches.len(),
{
    if matches.len() > 0 {
        matches_identified(path, t, matches.drop_last(), f);
        let rest = from_matches(t, matches.drop_last(), f);
        let all = from_matches(t, matches, f);
        assert(all == rest || exists|s: SymbolView| all == rest.push(s) && identified(path, s));
    }
}

proof fn picked_identified(path: Seq<char>, s: Seq<int>, f: spec_fn(int) -> Option<SymbolView>)
    requires
        forall|i: int| (#[trigger] f(i)) matches Some(x) ==> identified(path, x),
    ensures
        all_identified(path, pick(s, f)),
    decreases s.len(),
{
    if s.len() > 0 {
        picked_identified(path, s.drop_last(), f);
    }
}

proof fn flat_identified(path: Seq<char>, s: Seq<int>, f: spec_fn(int) -> Seq<SymbolView>)
    requires
        forall|i: int| all_identified(path, #[trigger] f(i)),
    ensures
        all_identified(path, flat(s, f)),
    decreases s.len(),
{
    if s.len() > 0 {
        flat_identified(path, s.drop_last(), f);
        sum_identified(path, flat(s.drop_last(), f), f(s.last()));
    }
}

proof fn script_identified(
    path: Seq<char>,
    grammar: Grammar,
    lang: Language,
    label: Language,
    text: Seq<char>,
    offset: u32,
    jsx: bool,
)
    ensures
        script_extraction(path, grammar, lang, label, text, offset, jsx) matches Some(v) ==> all_identified(path, v),
{
    let t = tree_of(grammar, text);
    let f = |d: CaptureView, name: Seq<char>| script_symbol(t, path, label, offset, jsx, d, name);
    assert forall|m: Seq<Seq<CaptureView>>| all_identified(
        path,
        #[trigger] script_symbols_of(t, path, label, offset, jsx, m),
    ) by {
        matches_identified(path, t, m, f);
        assert(script_symbols_of(t, path, label, offset, jsx, m) == from_matches(t, m, f));
    }
}

proof fn block_identified(path: Seq<char>, t: TreeView, i: int)
    ensures
        all_identified(path, script_block(t, path, i)),
{
    if let Some(j) = raw_text(t, i) {
        if let Some(code) = text_of(t, j) {
            let lang = embedded_language(declared_lang(t, i));
            let grammar = if lang == Language::TypeScript {
                Grammar::TypeScript
            } else {
                Grammar::JavaScript
            };
            script_identified(path, grammar, lang, Language::Svelte, code, t.nodes[j].start_row, true);
        }
    }
}

proof fn svelte_identified(path: Seq<char>, t: TreeView)
    ensures
        all_identified(path, svelte_symbols_of(t, path)),
{
    let f = |i: int| script_block(t, path, i);
    assert forall|i: int| all_identified(path, #[trigger] f(i)) by {
        block_identified(path, t, i);
    }
    flat_identified(path, visit_all(t), f);
    sum_identified(path, seq![component(path, last_row(t))], flat(visit_all(t), f));
    assert(svelte_symbols_of(t, path) == seq![component(path, last_row(t))] + flat(visit_all(t), f));
}

proof fn yaml_identified(path: Seq<char>, t: TreeView)
    ensures
        all_identified(path, yaml_symbols_of(t, path)),
{
    let keys = |i: int| yaml_pair(t, path, i);
    let anchors = |i: int| yaml_anchor(t, path, i);
    assert forall|i: int| all_identified(path, #[trigger] anchors(i)) by {}
    flat_identified(path, visit_all(t), anchors);
    match first_of_kind(t, "block_mapping"@) {
        Some(m) => {
            picked_identified(path, kids(t, m), keys);
            sum_identified(path, pick(kids(t, m), keys), flat(visit_all(t), anchors));
        },
        None => {
            sum_identified(path, Seq::empty(), flat(visit_all(t), anchors));
        },
    }
}

proof fn json_identified(path: Seq<char>, t: TreeView)
    ensures
        all_identified(path, json_symbols_of(t, path)),
{
    let keys = |i: int| json_pair(t, path, i);
    match first_of_kind(t, "object"@) {
        Some(m) => {
            picked_identified(path, kids(t, m), keys);
        },
        None => {},
    }
}

proof fn markdown_identified(path: Seq<char>, t: TreeView)
    ensures
        all_identified(path, markdown_symbols_of(t, path)),
{
    let headings = |i: int| markdown_at(t, path, i);
    assert forall|i: int| all_identified(path, #[trigger] headings(i)) by {}
    flat_identified(path, visit_all(t), headings);
}

/// Whatever the language, every extracted symbol names its file, and its id is made
/// of the file's path and the symbol's kind, name and first line.
pub proof fn symbols_are_identified(path: Seq<char>, lang: Language, text: Seq<char>)
    ensures
        all_identified(path, symbols_in(path, lang, text)),
{
    match lang {
        Language::Rust => {
            let t = tree_of(Grammar::Rust, text);
            if let Some(m) = queried(Grammar::Rust, text, RUST_QUERY@) {
                matches_identified(path, t, m, |d: CaptureView, name: Seq<char>| rust_symbol(t, path, d, name));
            }
        },
        Language::CSharp => {
            let t = tree_of(Grammar::CSharp, text);
            if let Some(m) = queried(Grammar::CSharp, text, CSHARP_QUERY@) {
                matches_identified(path, t, m, |d: CaptureView, name: Seq<char>| csharp_symbol(t, path, d, name));
            }
        },
        Language::Python => {
            let t = tree_of(Grammar::Python, text);
            if let Some(m) = queried(Grammar::Python, text, PYTHON_QUERY@) {
                matches_identified(path, t, m, |d: CaptureView, name: Seq<char>| python_symbol(path, d, name));
            }
        },
        Language::Go => {
            let t = tree_of(Grammar::Go, text);
            if let Some(m) = queried(Grammar::Go, text, GO_QUERY@) {
                matches_identified(path, t, m, |d: CaptureView, name: Seq<char>| go_symbol(t, path, d, name));
            }
        },
        Language::JavaScript | Language::TypeScript => {
            script_identified(path, script_grammar(path, lang), lang, lang, text, 0, jsx_path(path));
        },
        Language::Svelte => {
            svelte_identified(path, tree_of(Grammar::Svelte, text));
        },
        Language::Bash => {
            let t = tree_of(Grammar::Bash, text);
            if let Some(m) = queried(Grammar::Bash, text, BASH_QUERY@) {
                matches_identified(path, t, m, |d: CaptureView, name: Seq<char>| bash_symbol(path, d, name));
            }
        },
        Language::Yaml => {
            yaml_identified(path, tree_of(Grammar::Yaml, text));
        },
        Language::Json => {
            json_identified(path, tree_of(Grammar::Json, text));
        },
        Language::Markdown => {
            markdown_identified(path, tree_of(Grammar::Markdown, text));
        },
        Language::Other => {},
    }
}

// --- ids tell symbols apart --------------------------------------------------------------------
spec fn free_of(s: Seq<char>, c: char) -> bool {
    forall|i: int| 0 <= i < s.len() ==> #[trigger] s[i] != c
}

proof fn first_piece(a: Seq<char>, x: Seq<char>, b: Seq<char>, y: Seq<char>)
    requires
        free_of(a, '#'),
        free_of(b, '#'),
        a + seq!['#'] + x == b + seq!['#'] + y,
    ensures
        a == b,
        x == y,
{
    let l = a + seq!['#'] + x;
    let r = b + seq!['#'] + y;
    assert(l[a.len() as int] == '#');
    assert(r[b.len() as int] == '#');
    if a.len() < b.len() {
        assert(r[a.len() as int] == b[a.len() as int]);
    }
    if b.len() < a.len() {
        assert(l[b.len() as int] == a[b.len() as int]);
    }
    assert(a =~= l.take(a.len() as int));
    assert(b =~= r.take(a.len() as int));
    assert(x =~= l.skip(a.len() as int + 1));
    assert(y =~= r.skip(a.len() as int + 1));
}

proof fn last_piece(x: Seq<char>, a: Seq<char>, y: Seq<char>, b: Seq<char>)
    requires
        free_of(a, '#'),
        free_of(b, '#'),
        x + seq!['#'] + a == y + seq!['#'] + b,
    ensures
        a == b,
        x == y,
{
    let l = x + seq!['#'] + a;
    let r = y + seq!['#'] + b;
    assert(l[x.len() as int] == '#');
    assert(r[y.len() as int] == '#');
    assert(l.len() == r.len());
    if x.len() < y.len() {
        assert(l[y.len() as int] == a[y.len() - x.len() - 1]);
    }
    if y.len() < x.len() {
        assert(r[x.len() as int] == b[x.len() - y.len() - 1]);
    }
    assert(x =~= l.take(x.len() as int));
    assert(y =~= r.take(x.len() as int));
    assert(a =~= l.skip(x.len() as int + 1));
    assert(b =~= r.skip(x.len() as int + 1));
}

proof fn digit_tells(a: nat, b: nat)
    requires
        digit(a) == digit(b),
    ensures
        a % 10 == b % 10,
{
    let x = ((a % 10) as u8 + 48) as u8;
    let y = ((b % 10) as u8 + 48) as u8;
    assert(x as char == y as char);
    assert(x < 128 && y < 128);
}

proof fn decimal_tells(a: nat, b: nat)
    requires
        decimal(a) == decimal(b),
    ensures
        a == b,
    decreases a,
{
    decimal_digits(a);
    decimal_digits(b);
    assert(decimal(a).last() == digit(a));
    assert(decimal(b).last() == digit(b));
    digit_tells(a, b);
    if a >= 10 && b >= 10 {
        assert(decimal(a).drop_last() =~= decimal(a / 10));
        assert(decimal(b).drop_last() =~= decimal(b / 10));
        decimal_tells(a / 10, b / 10);
    } else if a >= 10 {
        decimal_digits(a / 10);
    } else if b >= 10 {
        decimal_digits(b / 10);
    }
}

proof fn kind_names_are_words(k: SymbolKind)
    ensures
        free_of(k.name(), '#'),
{
    reveal_strlit("class");
    reveal_strlit("struct");
    reveal_strlit("record");
    reveal_strlit("interface");
    reveal_strlit("trait");
    reveal_strlit("enum");
    reveal_strlit("function");
    reveal_strlit("method");
    reveal_strlit("module");
    reveal_strlit("type");
    reveal_strlit("component");
    reveal_strlit("constructor");
    reveal_strlit("key");
}

/// Symbols of one file with the same id have the same kind, name and first line.
pub proof fn ids_tell_apart(path: Seq<char>, a: SymbolView, b: SymbolView)
    requires
        identified(path, a),
        identified(path, b),
        a.id == b.id,
    ensures
        a.kind == b.kind,
        a.name == b.name,
        a.start_line == b.start_line,
{
    reveal_strlit("#");
    let hash = seq!['#'];
    assert("#"@ =~= hash);
    let head = "sym:"@ + path + hash;
    let da = decimal(a.start_line as nat);
    let db = decimal(b.start_line as nat);
    let ra = a.kind.name() + hash + (a.name + hash + da);
    let rb = b.kind.name() + hash + (b.name + hash + db);
    assert(a.id =~= head + ra);
    assert(b.id =~= head + rb);
    assert(ra =~= a.id.skip(head.len() as int));
    assert(rb =~= b.id.skip(head.len() as int));
    kind_names_are_words(a.kind);
    kind_names_are_words(b.kind);
    first_piece(a.kind.name(), a.name + hash + da, b.kind.name(), b.name + hash + db);
    decimal_digits(a.start_line as nat);
    decimal_digits(b.start_line as nat);
    last_piece(a.name, da, b.name, db);
    decimal_tells(a.start_line as nat, b.start_line as nat);
    symbol_kind_name_round_trips(a.kind);
    symbol_kind_name_round_trips(b.kind);
}

/// The id of a symbol starts with the path of its file; it tells that file from
/// every other, as far as their paths hold no `#`.
pub proof fn ids_tell_files_apart(p: Seq<char>, q: Seq<char>, id: Seq<char>)
    requires
        !p.contains('#'),
        !q.contains('#'),
        ("sym:"@ + p + "#"@).is_prefix_of(id),
        ("sym:"@ + q + "#"@).is_prefix_of(id),
    ensures
        p == q,
{
    reveal_strlit("#");
    let hash = seq!['#'];
    assert("#"@ =~= hash);
    let n = "sym:"@.len() as int;
    let a = "sym:"@ + p + hash;
    let b = "sym:"@ + q + hash;
    let x = id.skip(a.len() as int);
    let y = id.skip(b.len() as int);
    assert(id.take(a.len() as int) =~= a);
    assert(id.take(b.len() as int) =~= b);
    assert(id =~= a + x);
    assert(id =~= b + y);
    assert(p + hash + x =~= id.skip(n));
    assert(q + hash + y =~= id.skip(n));
    assert forall|i: int| 0 <= i < p.len() implies #[trigger] p[i] != '#' by {
        assert(p.contains(p[i]));
    }
    assert forall|i: int| 0 <= i < q.len() implies #[trigger] q[i] != '#' by {
        assert(q.contains(q[i]));
    }
    first_piece(p, x, q, y);
}

/// An identified symbol's id starts with its file's path.
pub proof fn id_starts_with_path(path: Seq<char>, s: SymbolView)
    requires
        identified(path, s),
    ensures
        ("sym:"@ + path + "#"@).is_prefix_of(s.id),
{
    let head = "sym:"@ + path + "#"@;
    assert(head =~= s.id.take(head.len() as int));
}

/// The symbols that are extracted from a file have different ids.
pub proof fn extracted_ids_differ(path: Seq<char>, found: Seq<SymbolView>, i: int, j: int)
    requires
        all_identified(path, found),
        0 <= i < j < ordered_symbols(found).len(),
    ensures
        identified(path, ordered_symbols(found)[i]),
        identified(path, ordered_symbols(found)[j]),
        ordered_symbols(found)[i].id != ordered_symbols(found)[j].id,
{
    extraction_is_ordered(found);
    let d = ordered_symbols(found);
    let le = line_name_kind_order();
    assert(found.contains(d[i]) && found.contains(d[j]));
    let a = found.index_of(d[i]);
    let b = found.index_of(d[j]);
    assert(identified(path, found[a]) && identified(path, found[b]));
    if d[i].id == d[j].id {
        ids_tell_apart(path, d[i], d[j]);
        if i + 1 < j {
            let m = d[i + 1];
            assert(le(d[i], m) && le(m, d[j]));
            text_lt_irreflexive(m.name);
            text_lt_total(d[i].name, m.name);
            if text_lt(d[i].name, m.name) {
                text_lt_asymmetric(d[i].name, m.name);
            }
            if text_lt(m.name, d[i].name) {
                text_lt_asymmetric(m.name, d[i].name);
            }
            text_lt_total(d[i].kind.name(), m.kind.name());
            symbol_kind_name_round_trips(d[i].kind);
            symbol_kind_name_round_trips(m.kind);
        }
        assert(!same_place()(d[i + 1], d[i]));
    }
}

} // verus!
