//! What is extracted from source files, language by language.

use synapse::graph::model::{IndexedSymbol, Language, SymbolKind};
use synapse::indexer::tree_sitter::{
    extract, extract_imports, extract_references, extract_supertypes, Reference, SuperHint, Supertype,
};

/// `kind name start-end visibility exported`, one line per symbol.
fn shown(symbols: &[IndexedSymbol]) -> Vec<String> {
    symbols
        .iter()
        .map(|s| {
            format!("{} {} {}-{} [{}] {}", s.kind.as_str(), s.name, s.start_line, s.end_line, s.visibility, s.exported)
        })
        .collect()
}

fn refs(v: &[Reference]) -> Vec<String> {
    v.iter().map(|r| format!("{}->{}", r.from, r.to)).collect()
}

fn supers(v: &[Supertype]) -> Vec<String> {
    v.iter()
        .map(|s| {
            let hint = match s.hint {
                SuperHint::Inherits => "inherits",
                SuperHint::Implements => "implements",
                SuperHint::Unknown => "unknown",
            };
            format!("{} {} {}", s.child, hint, s.supertype)
        })
        .collect()
}

#[test]
fn rust_symbols_are_exact() {
    let text = "pub struct A;\nenum B { X }\npub(crate) trait T {\n    fn f(&self) {}\n}\nmod m {\n    pub fn g() {}\n}\n";
    let syms = extract("src/a.rs", Language::Rust, text);
    assert_eq!(
        shown(&syms),
        vec![
            "struct A 1-1 [pub] true",
            "enum B 2-2 [] false",
            "trait T 3-5 [pub] true",
            "function f 4-4 [] false",
            "module m 6-8 [] false",
            "function g 7-7 [pub] true",
        ]
    );
    assert_eq!(syms[0].id, "sym:src/a.rs#struct#A#1");
    assert_eq!(syms[0].full_name, "A");
    assert_eq!(syms[0].file_path, "src/a.rs");
    assert_eq!(syms[0].language, Language::Rust);
}

#[test]
fn csharp_symbols_are_exact() {
    let text = "namespace N {\n    public class Foo {\n        static internal int Bar() { return 1; }\n        public Foo() {}\n    }\n    record R(int X);\n    struct S {}\n    interface I {}\n    enum E { A }\n}\n";
    assert_eq!(
        shown(&extract("a.cs", Language::CSharp, text)),
        vec![
            "class Foo 2-5 [public] true",
            "method Bar 3-3 [internal] false",
            "constructor Foo 4-4 [public] true",
            "record R 6-6 [] false",
            "struct S 7-7 [] false",
            "interface I 8-8 [] false",
            "enum E 9-9 [] false",
        ]
    );
}

#[test]
fn python_underscore_is_private() {
    let text = "class A:\n    def _hidden(self):\n        pass\n\ndef shown():\n    pass\n";
    assert_eq!(
        shown(&extract("a.py", Language::Python, text)),
        vec!["class A 1-3 [] true", "function _hidden 2-3 [] false", "function shown 5-6 [] true"]
    );
}

#[test]
fn go_kinds_follow_the_type() {
    let text = "package p\n\ntype A struct{}\n\ntype b interface{ M() }\n\ntype C int\n\nfunc (a A) Do() {}\n\nfunc run() {}\n";
    assert_eq!(
        shown(&extract("a.go", Language::Go, text)),
        vec![
            "struct A 3-3 [] true",
            "interface b 5-5 [] false",
            "method Do 9-9 [] true",
            "function run 11-11 [] false",
        ]
    );
}

#[test]
fn exported_names_of_scripts() {
    let text = "export function a() {}\nfunction b() {}\nconst c = () => 1;\nvar d = function () {};\nclass E {}\nexport { b, E as F };\n";
    assert_eq!(
        shown(&extract("a.js", Language::JavaScript, text)),
        vec![
            "function a 1-1 [export] true",
            "function b 2-2 [export] true",
            "function c 3-3 [] false",
            "function d 4-4 [] false",
            "class E 5-5 [export] true",
        ]
    );
}

#[test]
fn only_jsx_files_have_components() {
    let text = "export function Panel() { return null; }\nexport function helper() {}\n";
    let kinds = |path: &str, lang: Language| -> Vec<SymbolKind> { extract(path, lang, text).iter().map(|s| s.kind).collect() };
    assert_eq!(kinds("a.jsx", Language::JavaScript), vec![SymbolKind::Component, SymbolKind::Function]);
    assert_eq!(kinds("a.tsx", Language::TypeScript), vec![SymbolKind::Component, SymbolKind::Function]);
    assert_eq!(kinds("a.js", Language::JavaScript), vec![SymbolKind::Function, SymbolKind::Function]);
    // A name that starts with a letter outside ASCII is no component name.
    let other = extract("a.jsx", Language::JavaScript, "function Écran() {}\n");
    assert_eq!(other[0].kind, SymbolKind::Function);
}

#[test]
fn typescript_symbols_are_exact() {
    let text = "interface A {}\nexport type B = string;\nenum C { X }\nexport class D {}\n";
    assert_eq!(
        shown(&extract("a.ts", Language::TypeScript, text)),
        vec![
            "interface A 1-1 [] false",
            "type B 2-2 [export] true",
            "enum C 3-3 [] false",
            "class D 4-4 [export] true",
        ]
    );
}

#[test]
fn svelte_scripts_keep_their_lines() {
    let text = "<h1>hi</h1>\n<script lang=\"js\">\n  export function go() {}\n</script>\n";
    let syms = extract("src/lib/Nav.svelte", Language::Svelte, text);
    assert_eq!(shown(&syms)[0], "component Nav 1-5 [component] true");
    assert_eq!(shown(&syms)[1], "function go 3-3 [export] true");
    assert_eq!(syms[1].id, "sym:src/lib/Nav.svelte#function#go#3");
    assert_eq!(syms[1].language, Language::Svelte);
    let page = extract("src/routes/shop/+page.svelte", Language::Svelte, "<p/>\n");
    assert_eq!(page[0].name, "shop/+page");
    assert_eq!(page[0].full_name, "shop/+page (sveltekit page)");
    // A route at the top has no directory to be told apart by.
    let top = extract("+page.svelte", Language::Svelte, "<p/>\n");
    assert_eq!(top[0].name, "+page");
}

#[test]
fn data_files_give_their_top_keys() {
    let yaml = extract("a.yaml", Language::Yaml, "a: 1\nb:\n  c: &anchor 2\n");
    assert_eq!(
        shown(&yaml),
        vec!["key a 1-1 [] false", "key b 2-4 [] false", "key anchor 3-3 [anchor] false"]
    );
    let json = extract("a.json", Language::Json, "{\n  \"x\": {\"y\": 1},\n  \"z\": 2\n}\n");
    assert_eq!(shown(&json), vec!["key x 2-2 [] false", "key z 3-3 [] false"]);
}

#[test]
fn heading_text_is_cleaned() {
    let md = extract("a.md", Language::Markdown, "#   One   two  ##\n\n#\n\nThree\n=====\n");
    let names: Vec<(&str, &str)> = md.iter().map(|s| (s.name.as_str(), s.full_name.as_str())).collect();
    assert_eq!(names, vec![("One two", "h1 One two"), ("Three", "h1 Three")]);
}

#[test]
fn other_files_have_no_symbols() {
    assert!(extract("a.toml", Language::Other, "x = 1\n").is_empty());
    assert!(extract_imports("a.py", Language::Python, "import os\n").is_empty());
    assert!(extract_supertypes("a.sh", Language::Bash, "x\n").is_empty());
    assert!(extract_references("a.py", Language::Python, "def f():\n    g()\n").is_empty());
}

#[test]
fn imports_are_package_roots() {
    let text = "import a from '@s/p/deep';\nimport b from \"x/y\";\nimport c from '../z';\nimport d from '/abs';\nconst e = require('q/r');\nconst f = other('not-a-package');\nimport a2 from 'x';\n";
    assert_eq!(
        extract_imports("a.js", Language::JavaScript, text),
        vec!["@s/p".to_string(), "q".to_string(), "x".to_string()]
    );
    assert_eq!(
        extract_imports("a.cs", Language::CSharp, "using B.C;\nusing A;\nusing B.C;\n"),
        vec!["A".to_string(), "B.C".to_string()]
    );
}

#[test]
fn supertypes_are_bare_names() {
    let rs = "impl std::fmt::Display for crate::W<u8> {} trait A: B + x::C {}";
    assert_eq!(
        supers(&extract_supertypes("a.rs", Language::Rust, rs)),
        vec!["A inherits B", "A inherits C", "W implements Display"]
    );
    let ts = "interface A extends B, C<D> {} class E extends f.G implements H {}";
    assert_eq!(
        supers(&extract_supertypes("a.ts", Language::TypeScript, ts)),
        vec!["A inherits B", "A inherits C", "E inherits G", "E implements H"]
    );
    let go = "package p\ntype A struct {\n\tB\n\tc int\n}\ntype D interface {\n\tE\n\tM()\n}\n";
    assert_eq!(
        supers(&extract_supertypes("a.go", Language::Go, go)),
        vec!["A inherits B", "D inherits E"]
    );
    let py = "class A(m.B, object): pass\n";
    assert_eq!(supers(&extract_supertypes("a.py", Language::Python, py)), vec!["A inherits B"]);
    let cs = "class A : N.B<int>, IC {}";
    assert_eq!(
        supers(&extract_supertypes("a.cs", Language::CSharp, cs)),
        vec!["A unknown B", "A unknown IC"]
    );
}

#[test]
fn references_name_their_enclosing_declaration() {
    let rs = "fn a() { b(); W::new(); x.m(); let _ = S { y: 1 }; }\nconst K: u8 = top();\n";
    assert_eq!(
        refs(&extract_references("a.rs", Language::Rust, rs)),
        vec!["->top", "a->S", "a->W", "a->b", "a->m", "a->new"]
    );
    let ts = "class C { run(x: Foo) { new Bar(); this.go(); } }\ninit();\n";
    assert_eq!(
        refs(&extract_references("a.ts", Language::TypeScript, ts)),
        vec!["->init", "C->C", "run->Bar", "run->Foo", "run->go"]
    );
    let cs = "class C { Foo f; Bar P { get; } void M(Baz z) { new Qux(); Call(); L<Item>(); } }";
    assert_eq!(
        refs(&extract_references("a.cs", Language::CSharp, cs)),
        vec!["C->Bar", "C->Foo", "M->Baz", "M->Call", "M->Item", "M->L", "M->Qux"]
    );
}
