//! Statements for a Cypher database, and the rows that come back.

use synapse::graph::cypher::{
    contains_file_statements, count_edges_text, count_nodes_text, declares_statements, declaring_files_statement,
    edge_statements, file_of_row, files_statement, importers_statement, project_of_row, project_reference_statements,
    related_to_symbol_of, remove_file_statements, schema_statements, sibling_of, siblings_statement, stats_of,
    symbol_of_row, symbol_references_of, symbol_references_statement, symbols_statement, type_relation_statements,
    type_relations_of, upsert_file_statements, upsert_package_statements, upsert_project_statements,
    upsert_symbol_statements, uses_package_statements, CypherValue, FileRow, ProjectRow, Statement, SymbolRow,
    PACKAGES_QUERY, PROJECTS_QUERY,
};
use synapse::graph::model::{
    FileSearchQuery, GraphEdge, IndexedFile, IndexedPackage, IndexedProject, IndexedSymbol, Language, RelatedItem,
    SymbolKind, SymbolSearchQuery,
};

/// `name=value`, one per parameter.
fn params(s: &Statement) -> Vec<String> {
    s.params
        .iter()
        .map(|p| match &p.value {
            CypherValue::Text(t) => format!("{}={t}", p.name),
            CypherValue::Int(n) => format!("{}={n}", p.name),
            CypherValue::Flag(b) => format!("{}={b}", p.name),
        })
        .collect()
}

fn file() -> IndexedFile {
    IndexedFile {
        id: "file:a.rs".to_string(),
        path: "a.rs".to_string(),
        language: Language::Rust,
        hash: "ff".to_string(),
        size_bytes: 12,
        git_tracked: true,
        last_indexed_at: "now".to_string(),
    }
}

fn symbol() -> IndexedSymbol {
    IndexedSymbol {
        id: "sym".to_string(),
        name: "it's $name".to_string(),
        full_name: "full".to_string(),
        kind: SymbolKind::TypeAlias,
        language: Language::TypeScript,
        file_path: "a.ts".to_string(),
        start_line: 3,
        end_line: 9,
        visibility: "export".to_string(),
        exported: true,
    }
}

#[test]
fn the_schema_has_every_table() {
    let all = schema_statements();
    assert_eq!(all.len(), 15);
    assert!(all.iter().all(|s| s.contains(" TABLE IF NOT EXISTS ")));
    assert!(all[3].starts_with("CREATE NODE TABLE IF NOT EXISTS File("));
    assert_eq!(all[11], "CREATE REL TABLE IF NOT EXISTS REFERENCES(FROM Symbol TO Symbol)");
}

#[test]
fn upserts_pass_values_as_parameters() {
    let s = upsert_file_statements(&file());
    assert_eq!(s.len(), 1);
    assert!(s[0].text.starts_with("MERGE (f:File {id: $id}) SET f.path = $path"));
    assert_eq!(params(&s[0]), vec![
        "id=file:a.rs",
        "path=a.rs",
        "language=rust",
        "hash=ff",
        "size=12",
        "tracked=true",
        "ts=now",
    ]);
    let s = upsert_symbol_statements(&symbol());
    assert!(!s[0].text.contains("it's"));
    assert_eq!(params(&s[0])[1..4], ["name=it's $name", "full=full", "kind=type"]);
    assert_eq!(params(&s[0])[6..8], ["startln=3", "endln=9"]);
    let s = upsert_project_statements(&IndexedProject {
        id: "p".to_string(),
        name: "P".to_string(),
        path: "p.csproj".to_string(),
        language: Language::CSharp,
        kind: "dotnet".to_string(),
    });
    assert_eq!(params(&s[0]), vec!["id=p", "name=P", "path=p.csproj", "language=csharp", "kind=dotnet"]);
    let s = upsert_package_statements(&IndexedPackage {
        id: "k".to_string(),
        name: "K".to_string(),
        version: "1".to_string(),
        ecosystem: "npm".to_string(),
        dependency_kind: "dependency".to_string(),
    });
    assert_eq!(params(&s[0]), vec!["id=k", "name=K", "version=1", "eco=npm", "kind=dependency"]);
}

#[test]
fn removing_a_file_takes_three_statements() {
    let s = remove_file_statements("a.rs");
    let texts: Vec<&str> = s.iter().map(|x| x.text.as_str()).collect();
    assert_eq!(texts, vec![
        "MATCH (f:File {path: $path})-[:DECLARES]->(s:Symbol) DETACH DELETE s",
        "MATCH (s:Symbol {filePath: $path}) DETACH DELETE s",
        "MATCH (f:File {path: $path}) DETACH DELETE f",
    ]);
    assert!(s.iter().all(|x| params(x) == vec!["path=a.rs"]));
}

#[test]
fn edges_are_merged() {
    let s = project_reference_statements("a", "b");
    assert_eq!(s[0].text, "MERGE (t:Project {id: $t})");
    assert_eq!(params(&s[0]), vec!["t=b"]);
    assert_eq!(params(&s[1]), vec!["a=a", "b=b"]);
    assert_eq!(params(&contains_file_statements("p", "f")[0]), vec!["p=p", "f=f"]);
    assert_eq!(params(&declares_statements("f", "s")[0]), vec!["f=f", "s=s"]);
    assert_eq!(params(&uses_package_statements("p", "k")[0]), vec!["p=p", "k=k"]);
    let e = |e: GraphEdge| edge_statements(&e)[0].text.clone();
    let (x, y) = ("x".to_string(), "y".to_string());
    assert!(e(GraphEdge::SymbolReferences { from: x.clone(), to: y.clone() }).ends_with("MERGE (a)-[:REFERENCES]->(b)"));
    assert!(e(GraphEdge::SymbolInherits { from: x.clone(), to: y.clone() }).ends_with("MERGE (a)-[:INHERITS]->(b)"));
    assert!(e(GraphEdge::SymbolImplements { from: x.clone(), to: y.clone() }).ends_with("MERGE (a)-[:IMPLEMENTS]->(b)"));
    assert!(e(GraphEdge::FileImportsPackage { file: x.clone(), package: y.clone() })
        .ends_with("MERGE (f)-[:IMPORTS_PACKAGE]->(k)"));
    assert!(e(GraphEdge::ProjectContainsFile { project: x, file: y }).ends_with("MERGE (p)-[:CONTAINS_FILE]->(f)"));
}

#[test]
fn searches_state_their_conditions() {
    let s = symbols_statement(&SymbolSearchQuery::default());
    assert_eq!(
        s.text,
        "MATCH (s:Symbol)  RETURN s.id, s.name, s.fullName, s.kind, s.language, s.filePath, s.startLine, s.endLine, s.visibility, s.exported ORDER BY s.name, s.filePath"
    );
    assert!(s.params.is_empty());
    let s = symbols_statement(&SymbolSearchQuery {
        name: Some("FOO".to_string()),
        kind: Some(SymbolKind::Class),
        language: Some(Language::Go),
        file: Some("A.go".to_string()),
    });
    assert!(s.text.starts_with(
        "MATCH (s:Symbol) WHERE contains(lower(s.name), $name) AND s.kind = $kind AND s.language = $language AND s.filePath = $file RETURN"
    ));
    assert_eq!(params(&s), vec!["name=foo", "kind=class", "language=go", "file=A.go"]);
    let s = files_statement(&FileSearchQuery { path_contains: Some("SRC".to_string()), language: Some(Language::Rust) });
    assert!(s.text.starts_with("MATCH (f:File) WHERE contains(lower(f.path), $path) AND f.language = $language RETURN"));
    assert_eq!(params(&s), vec!["path=src", "language=rust"]);
    assert!(files_statement(&FileSearchQuery::default()).text.starts_with("MATCH (f:File)  RETURN f.id"));
    assert_eq!(params(&symbol_references_statement("Foo")), vec!["n=foo"]);
    assert_eq!(params(&declaring_files_statement("Foo")), vec!["name=foo"]);
    assert_eq!(params(&importers_statement("Foo")), vec!["name=Foo"]);
    assert_eq!(params(&siblings_statement("a.rs")), vec!["path=a.rs"]);
    let types = type_relation_statements("Foo");
    assert_eq!(types.len(), 4);
    assert!(types.iter().all(|t| params(t) == vec!["n=foo"]));
    assert_eq!(count_nodes_text("File"), "MATCH (n:File) RETURN count(n)");
    assert_eq!(count_edges_text("REFERENCES"), "MATCH ()-[r:REFERENCES]->() RETURN count(r)");
    assert!(PACKAGES_QUERY.ends_with("ORDER BY p.name, p.version") && PROJECTS_QUERY.ends_with("ORDER BY p.path"));
}

fn shown(items: &[RelatedItem]) -> Vec<String> {
    items.iter().map(|i| format!("{} {} {}", i.depth, i.path, i.reason)).collect()
}

#[test]
fn found_paths_become_items() {
    let v = |paths: &[&str]| -> Vec<String> { paths.iter().map(|p| p.to_string()).collect() };
    assert_eq!(
        shown(&type_relations_of(&vec![v(&["b", "a"]), v(&[]), v(&["a"]), v(&["a", "a"])])),
        vec![
            "1 a base type (inherits)",
            "1 a implemented interface/trait",
            "1 a implementor",
            "1 b base type (inherits)",
        ]
    );
    let refs = symbol_references_of("f", &v(&["z", "d", "z"]));
    assert_eq!(shown(&refs), vec!["1 d references f", "1 z references f"]);
    assert_eq!(
        shown(&related_to_symbol_of(&v(&["d", "c"]), refs)),
        vec!["0 d exact symbol declaration", "0 c exact symbol declaration", "1 z references f"]
    );
    assert_eq!(shown(&[sibling_of("a".to_string(), "P")]), vec!["1 a same project (P)"]);
    let st = stats_of(1, 2, 3, 4, 5, 6, 7);
    assert_eq!((st.files, st.symbols, st.projects, st.packages, st.edges, st.reference_edges), (1, 2, 3, 4, 11, 7));
}

#[test]
fn rows_become_records() {
    let f = file_of_row(FileRow {
        id: "file:a.rs".to_string(),
        path: "a.rs".to_string(),
        language: "rust".to_string(),
        hash: "ff".to_string(),
        size_bytes: 12,
        git_tracked: true,
        last_indexed_at: "now".to_string(),
    });
    assert_eq!(f, file());
    let s = symbol_of_row(SymbolRow {
        id: "sym".to_string(),
        name: "it's $name".to_string(),
        full_name: "full".to_string(),
        kind: "type".to_string(),
        language: "typescript".to_string(),
        file_path: "a.ts".to_string(),
        start_line: 3,
        end_line: 9,
        visibility: "export".to_string(),
        exported: true,
    });
    assert_eq!(s, symbol());
    let p = project_of_row(ProjectRow {
        id: String::new(),
        name: String::new(),
        path: String::new(),
        language: "klingon".to_string(),
        kind: "k".to_string(),
    });
    assert_eq!(p.language, Language::Other);
    let odd = symbol_of_row(SymbolRow {
        id: String::new(),
        name: String::new(),
        full_name: String::new(),
        kind: "oddity".to_string(),
        language: String::new(),
        file_path: String::new(),
        start_line: 0,
        end_line: 0,
        visibility: String::new(),
        exported: false,
    });
    assert_eq!(odd.kind, SymbolKind::Function);
}
