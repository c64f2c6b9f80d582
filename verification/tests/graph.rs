//! The in-memory store: what is read after a sequence of writes.

use synapse::graph::memory_store::MemoryGraphStore;
use synapse::graph::model::{
    FileSearchQuery, FileWrite, GraphEdge, IndexedFile, IndexedPackage, IndexedProject, IndexedSymbol, Language,
    RelatedItem, SymbolKind, SymbolSearchQuery,
};
use synapse::graph::store::GraphStore;
use synapse::indexer::{file_id, package_id, project_id, symbol_id};

fn file(path: &str, hash: &str) -> IndexedFile {
    IndexedFile {
        id: file_id(path),
        path: path.to_string(),
        language: Language::Rust,
        hash: hash.to_string(),
        size_bytes: 3,
        git_tracked: false,
        last_indexed_at: "2026-01-01T00:00:00+00:00".to_string(),
    }
}

fn symbol(path: &str, name: &str, line: u32) -> IndexedSymbol {
    IndexedSymbol {
        id: symbol_id(path, "function", name, line),
        name: name.to_string(),
        full_name: name.to_string(),
        kind: SymbolKind::Function,
        language: Language::Rust,
        file_path: path.to_string(),
        start_line: line,
        end_line: line,
        visibility: String::new(),
        exported: false,
    }
}

fn shown(items: &[RelatedItem]) -> Vec<String> {
    items.iter().map(|i| format!("{} {} {}", i.depth, i.path, i.reason)).collect()
}

#[test]
fn ids_are_spelled_out() {
    assert_eq!(file_id("a/b.rs"), "file:a/b.rs");
    assert_eq!(symbol_id("a.rs", "class", "Foo", 12), "sym:a.rs#class#Foo#12");
    assert_eq!(project_id("x/package.json"), "proj:x/package.json");
    assert_eq!(package_id("npm", "lodash"), "pkg:npm:lodash");
}

#[test]
fn files_come_in_path_order_and_once() {
    let mut s = MemoryGraphStore::default();
    for p in ["b.rs", "a.rs", "c.rs", "a.rs"] {
        s.upsert_file(file(p, "1")).unwrap();
    }
    s.upsert_file(file("b.rs", "2")).unwrap();
    let all = s.all_files().unwrap();
    let got: Vec<(&str, &str)> = all.iter().map(|f| (f.path.as_str(), f.hash.as_str())).collect();
    assert_eq!(got, vec![("a.rs", "1"), ("b.rs", "2"), ("c.rs", "1")]);
    assert_eq!(s.file_by_path("b.rs").unwrap().unwrap().hash, "2");
    assert!(s.file_by_path("d.rs").unwrap().is_none());
}

#[test]
fn writing_twice_is_writing_once() {
    let mut s = MemoryGraphStore::new();
    s.upsert_symbol(symbol("a.rs", "f", 1)).unwrap();
    s.upsert_symbol(symbol("a.rs", "f", 1)).unwrap();
    s.link_symbol_references("x", "y").unwrap();
    s.link_symbol_references("x", "y").unwrap();
    s.link_project_uses_package("p", "q").unwrap();
    s.link_project_uses_package("p", "q").unwrap();
    s.link_project_references_project("p", "r").unwrap();
    let st = s.stats().unwrap();
    assert_eq!((st.symbols, st.reference_edges, st.edges), (1, 1, 2));
}

#[test]
fn removing_a_file_removes_what_it_declares() {
    let mut s = MemoryGraphStore::new();
    s.upsert_file(file("a.rs", "1")).unwrap();
    s.upsert_file(file("ab.rs", "1")).unwrap();
    s.upsert_symbol(symbol("a.rs", "f", 1)).unwrap();
    s.upsert_symbol(symbol("ab.rs", "g", 1)).unwrap();
    // A symbol that is only linked to the file goes too.
    s.upsert_symbol(symbol("elsewhere.rs", "h", 1)).unwrap();
    s.link_file_declares_symbol("file:a.rs", "sym:elsewhere.rs#function#h#1").unwrap();
    s.link_symbol_references("sym:a.rs#function#f#1", "sym:ab.rs#function#g#1").unwrap();
    s.link_symbol_references("sym:ab.rs#function#g#1", "sym:a.rs#function#f#1").unwrap();
    s.upsert_package(IndexedPackage {
        id: package_id("npm", "x"),
        name: "x".to_string(),
        version: "1".to_string(),
        ecosystem: "npm".to_string(),
        dependency_kind: "dependency".to_string(),
    })
    .unwrap();
    s.link_file_imports_package("file:a.rs", "pkg:npm:x").unwrap();
    s.link_file_imports_package("file:ab.rs", "pkg:npm:x").unwrap();
    assert_eq!(s.files_importing_package("x").unwrap(), vec!["a.rs".to_string(), "ab.rs".to_string()]);
    s.remove_file("a.rs").unwrap();
    let names: Vec<String> =
        s.symbols_matching(&SymbolSearchQuery::default()).unwrap().iter().map(|x| x.name.clone()).collect();
    assert_eq!(names, vec!["g".to_string()]);
    // Only the edge that started in the file is gone.
    assert_eq!(s.stats().unwrap().reference_edges, 1);
    assert_eq!(s.files_importing_package("x").unwrap(), vec!["ab.rs".to_string()]);
    assert!(s.file_by_path("ab.rs").unwrap().is_some());
}

#[test]
fn searches_ignore_case_and_combine() {
    let mut s = MemoryGraphStore::new();
    s.upsert_symbol(symbol("b.rs", "LoadUser", 1)).unwrap();
    s.upsert_symbol(symbol("a.rs", "load_all", 1)).unwrap();
    s.upsert_symbol(symbol("a.rs", "save", 9)).unwrap();
    let query = |name: Option<&str>, kind: Option<SymbolKind>, language: Option<Language>, path: Option<&str>| {
        let q = SymbolSearchQuery {
            name: name.map(|x| x.to_string()),
            kind,
            language,
            file: path.map(|x| x.to_string()),
        };
        s.symbols_matching(&q).unwrap().iter().map(|x| x.name.clone()).collect::<Vec<String>>()
    };
    assert_eq!(query(Some("LOAD"), None, None, None), vec!["LoadUser".to_string(), "load_all".to_string()]);
    assert_eq!(query(Some("load"), None, None, Some("a.rs")), vec!["load_all".to_string()]);
    assert_eq!(query(None, Some(SymbolKind::Class), None, None), Vec::<String>::new());
    assert_eq!(query(None, None, Some(Language::Go), None), Vec::<String>::new());
    assert_eq!(query(None, None, None, None).len(), 3);
}

#[test]
fn file_searches_go_by_path_and_language() {
    let mut s = MemoryGraphStore::new();
    s.upsert_file(file("src/Main.rs", "1")).unwrap();
    s.upsert_file(file("lib/x.rs", "1")).unwrap();
    let paths = |q: FileSearchQuery| {
        s.files_matching(&q).unwrap().iter().map(|f| f.path.clone()).collect::<Vec<String>>()
    };
    assert_eq!(
        paths(FileSearchQuery { path_contains: Some("MAIN".to_string()), language: None }),
        vec!["src/Main.rs".to_string()]
    );
    assert_eq!(paths(FileSearchQuery { path_contains: None, language: Some(Language::Go) }), Vec::<String>::new());
    assert_eq!(paths(FileSearchQuery::default()), vec!["lib/x.rs".to_string(), "src/Main.rs".to_string()]);
}

#[test]
fn references_and_declarations_are_related() {
    let mut s = MemoryGraphStore::new();
    s.upsert_symbol(symbol("decl.rs", "f", 1)).unwrap();
    s.upsert_symbol(symbol("use.rs", "g", 1)).unwrap();
    s.upsert_symbol(symbol("decl.rs", "h", 5)).unwrap();
    s.link_symbol_references("sym:use.rs#function#g#1", "sym:decl.rs#function#f#1").unwrap();
    s.link_symbol_references("sym:decl.rs#function#h#5", "sym:decl.rs#function#f#1").unwrap();
    assert_eq!(
        shown(&s.related_to_symbol("f", 1).unwrap()),
        vec!["0 decl.rs exact symbol declaration", "1 use.rs references f"]
    );
    assert_eq!(
        shown(&s.symbol_references("f").unwrap()),
        vec!["1 decl.rs references f", "1 use.rs references f"]
    );
    assert!(s.symbol_references("nobody").unwrap().is_empty());
}

#[test]
fn type_relations_go_both_ways() {
    let mut s = MemoryGraphStore::new();
    for (p, n) in [("base.rs", "Base"), ("sub.rs", "Sub"), ("tr.rs", "Tr")] {
        s.upsert_symbol(symbol(p, n, 1)).unwrap();
    }
    s.link_symbol_inherits("sym:sub.rs#function#Sub#1", "sym:base.rs#function#Base#1").unwrap();
    s.link_symbol_implements("sym:sub.rs#function#Sub#1", "sym:tr.rs#function#Tr#1").unwrap();
    assert_eq!(
        shown(&s.symbol_type_relations("Sub").unwrap()),
        vec!["1 base.rs base type (inherits)", "1 tr.rs implemented interface/trait"]
    );
    assert_eq!(shown(&s.symbol_type_relations("Base").unwrap()), vec!["1 sub.rs subtype (inherits)"]);
    assert_eq!(shown(&s.symbol_type_relations("Tr").unwrap()), vec!["1 sub.rs implementor"]);
    assert!(s.symbol_type_relations("Other").unwrap().is_empty());
    // An interface in one file and two implementors in another are told once.
    s.upsert_symbol(symbol("sub.rs", "Sub2", 5)).unwrap();
    s.link_symbol_implements("sym:sub.rs#function#Sub2#5", "sym:tr.rs#function#Tr#1").unwrap();
    s.link_symbol_inherits("sym:sub.rs#function#Sub2#5", "sym:tr.rs#function#Tr#1").unwrap();
    assert_eq!(
        shown(&s.symbol_type_relations("Tr").unwrap()),
        vec!["1 sub.rs implementor", "1 sub.rs subtype (inherits)"]
    );
}

#[test]
fn a_removed_file_is_named_nowhere() {
    let mut s = MemoryGraphStore::new();
    for p in ["d/a.rs", "d/b.rs", "d/c.rs"] {
        s.upsert_file(file(p, "1")).unwrap();
        s.upsert_symbol(symbol(p, "f", 1)).unwrap();
        s.link_file_declares_symbol(&file_id(p), &symbol_id(p, "function", "f", 1)).unwrap();
        s.link_project_contains_file("proj:p", &file_id(p)).unwrap();
    }
    s.link_symbol_inherits("sym:d/b.rs#function#f#1", "sym:d/a.rs#function#f#1").unwrap();
    s.link_symbol_references("sym:d/a.rs#function#f#1", "sym:d/b.rs#function#f#1").unwrap();
    let before = s.file_by_path("d/b.rs").unwrap();
    s.remove_file("d/a.rs").unwrap();
    s.remove_file("d/a.rs").unwrap();
    assert!(s.file_by_path("d/a.rs").unwrap().is_none());
    assert_eq!(s.file_by_path("d/b.rs").unwrap(), before);
    assert_eq!(shown(&s.project_siblings("d/b.rs").unwrap()), vec!["1 d/c.rs same project (proj:p)"]);
    assert!(s.project_siblings("d/a.rs").unwrap().is_empty());
    assert_eq!(
        shown(&s.related_to_file("d/b.rs", 1).unwrap()),
        vec!["0 d/b.rs seed file", "1 d/c.rs same directory"]
    );
    assert_eq!(shown(&s.related_to_symbol("f", 1).unwrap()).len(), 2);
    // The edge from the symbol of another file to the removed one leads nowhere.
    assert!(s.symbol_type_relations("f").unwrap().is_empty());
    assert!(s.symbol_references("f").unwrap().is_empty());
}

#[test]
fn edges_are_a_set() {
    let link = |from: &str, to: &str| GraphEdge::SymbolReferences { from: from.to_string(), to: to.to_string() };
    let forward = vec![link("a", "b"), link("b", "c"), GraphEdge::SymbolInherits { from: "a".to_string(), to: "c".to_string() }];
    let backward =
        vec![GraphEdge::SymbolInherits { from: "a".to_string(), to: "c".to_string() }, link("b", "c"), link("a", "b")];
    let mut s = MemoryGraphStore::new();
    let mut t = MemoryGraphStore::new();
    for (id, path) in [("a", "a.rs"), ("b", "b.rs"), ("c", "c.rs")] {
        for store in [&mut s, &mut t] {
            let mut x = symbol(path, id, 1);
            x.id = id.to_string();
            store.upsert_symbol(x).unwrap();
        }
    }
    s.link_edges(&forward).unwrap();
    s.link_edges(&forward).unwrap();
    t.link_edges(&backward).unwrap();
    assert_eq!(s.stats().unwrap(), t.stats().unwrap());
    assert_eq!(s.stats().unwrap().reference_edges, 2);
    for name in ["a", "b", "c"] {
        assert_eq!(shown(&s.symbol_references(name).unwrap()), shown(&t.symbol_references(name).unwrap()));
        assert_eq!(shown(&s.symbol_type_relations(name).unwrap()), shown(&t.symbol_type_relations(name).unwrap()));
    }
}

#[test]
fn neighbours_of_a_file() {
    let mut s = MemoryGraphStore::new();
    for p in ["a/x.rs", "a/y.rs", "a/b/z.rs", "top.rs"] {
        s.upsert_file(file(p, "1")).unwrap();
    }
    assert_eq!(
        shown(&s.related_to_file("a/x.rs", 1).unwrap()),
        vec!["0 a/x.rs seed file", "1 a/y.rs same directory"]
    );
    assert_eq!(shown(&s.related_to_file("other.rs", 1).unwrap()), vec!["0 other.rs seed file", "1 top.rs same directory"]);
}

#[test]
fn siblings_without_a_recorded_project() {
    let mut s = MemoryGraphStore::new();
    s.link_project_contains_file("proj:p", "file:a.rs").unwrap();
    s.link_project_contains_file("proj:p", "file:b.rs").unwrap();
    s.link_project_contains_file("proj:p", "oddly-named").unwrap();
    assert_eq!(shown(&s.project_siblings("a.rs").unwrap()), vec!["1 b.rs same project (proj:p)"]);
    s.upsert_project(IndexedProject {
        id: "proj:p".to_string(),
        name: "P".to_string(),
        path: "p".to_string(),
        language: Language::CSharp,
        kind: "dotnet".to_string(),
    })
    .unwrap();
    assert_eq!(shown(&s.project_siblings("a.rs").unwrap()), vec!["1 b.rs same project (P)"]);
    assert_eq!(s.all_projects().unwrap().len(), 1);
}

#[test]
fn a_batch_is_read_back() {
    let of = |s: &MemoryGraphStore, path: &str| -> Vec<String> {
        let asked = SymbolSearchQuery { name: None, kind: None, language: None, file: Some(path.to_string()) };
        s.symbols_matching(&asked).unwrap().into_iter().map(|x| x.name).collect()
    };
    let mut s = MemoryGraphStore::new();
    s.write_files_batch(&vec![
        FileWrite { file: file("a.rs", "1"), symbols: vec![symbol("a.rs", "g", 2), symbol("a.rs", "f", 1)] },
        FileWrite { file: file("b.rs", "1"), symbols: vec![symbol("b.rs", "f", 1)] },
    ])
    .unwrap();
    assert_eq!(s.file_by_path("a.rs").unwrap(), Some(file("a.rs", "1")));
    assert_eq!(of(&s, "a.rs"), vec!["f", "g"]);
    s.write_files_batch(&vec![FileWrite { file: file("a.rs", "2"), symbols: vec![symbol("a.rs", "h", 1)] }]).unwrap();
    assert_eq!(s.file_by_path("a.rs").unwrap(), Some(file("a.rs", "2")));
    assert_eq!(of(&s, "a.rs"), vec!["h"]);
    assert_eq!(s.file_by_path("b.rs").unwrap(), Some(file("b.rs", "1")));
    assert_eq!(of(&s, "b.rs"), vec!["f"]);
    // Paths may go on with a `#`, as long as no id belongs to two files.
    s.write_files_batch(&vec![
        FileWrite { file: file("c#d", "1"), symbols: vec![symbol("c#d", "f", 1)] },
        FileWrite { file: file("c", "1"), symbols: vec![symbol("c", "f", 1)] },
    ])
    .unwrap();
    assert_eq!(s.file_by_path("c#d").unwrap(), Some(file("c#d", "1")));
    assert_eq!(of(&s, "c#d"), vec!["f"]);
    assert_eq!(of(&s, "c"), vec!["f"]);
    assert_eq!(of(&s, "a.rs"), vec!["h"]);
}

#[test]
fn batches_write_everything() {
    let mut s = MemoryGraphStore::new();
    s.upsert_symbol(symbol("a.rs", "stale", 7)).unwrap();
    s.write_files_batch(&vec![
        FileWrite { file: file("a.rs", "1"), symbols: vec![symbol("a.rs", "f", 1), symbol("a.rs", "g", 2)] },
        FileWrite { file: file("b.rs", "1"), symbols: vec![] },
    ])
    .unwrap();
    s.link_edges(&vec![
        GraphEdge::SymbolReferences { from: "sym:a.rs#function#g#2".to_string(), to: "sym:a.rs#function#f#1".to_string() },
        GraphEdge::SymbolInherits { from: "x".to_string(), to: "y".to_string() },
        GraphEdge::SymbolImplements { from: "x".to_string(), to: "y".to_string() },
        GraphEdge::FileImportsPackage { file: "file:a.rs".to_string(), package: "pkg".to_string() },
        GraphEdge::ProjectContainsFile { project: "p".to_string(), file: "file:a.rs".to_string() },
    ])
    .unwrap();
    let st = s.stats().unwrap();
    assert_eq!((st.files, st.symbols, st.reference_edges), (2, 2, 1));
    s.remove_file("a.rs").unwrap();
    let st = s.stats().unwrap();
    assert_eq!((st.files, st.symbols, st.reference_edges), (1, 0, 0));
}

#[test]
fn names_of_kinds_and_languages_round_trip() {
    for l in [
        Language::CSharp,
        Language::Rust,
        Language::Python,
        Language::Go,
        Language::JavaScript,
        Language::TypeScript,
        Language::Svelte,
        Language::Bash,
        Language::Yaml,
        Language::Json,
        Language::Markdown,
        Language::Other,
    ] {
        assert_eq!(Language::from_str_opt(l.as_str()), Some(l));
        assert_eq!(Language::from_str_opt(&l.as_str().to_uppercase()), Some(l));
    }
    assert_eq!(Language::from_str_opt("c#"), Some(Language::CSharp));
    assert_eq!(Language::from_str_opt("shell"), Some(Language::Bash));
    assert_eq!(Language::from_str_opt("cobol"), None);
    assert_eq!(Language::Other.fence(), "text");
    for k in [
        SymbolKind::Class,
        SymbolKind::Struct,
        SymbolKind::Record,
        SymbolKind::Interface,
        SymbolKind::Trait,
        SymbolKind::Enum,
        SymbolKind::Function,
        SymbolKind::Method,
        SymbolKind::Module,
        SymbolKind::TypeAlias,
        SymbolKind::Component,
        SymbolKind::Constructor,
        SymbolKind::Key,
    ] {
        assert_eq!(SymbolKind::from_str_opt(k.as_str()), Some(k));
    }
    assert_eq!(SymbolKind::from_str_opt("ctor"), Some(SymbolKind::Constructor));
    assert_eq!(SymbolKind::from_str_opt("TypeAlias"), Some(SymbolKind::TypeAlias));
    assert_eq!(SymbolKind::from_str_opt("union"), None);
}
