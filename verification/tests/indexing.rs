//! Whole indexing runs, and what they are made of.

use std::cell::RefCell;
use synapse::config::SynapseConfig;
use synapse::errors::SynapseError;
use synapse::graph::memory_store::MemoryGraphStore;
use synapse::graph::model::{GraphEdge, IndexedPackage, IndexedSymbol, Language, SymbolKind, SymbolSearchQuery};
use synapse::graph::store::GraphStore;
use synapse::indexer::facts::{FileImports, FileReferences, FileSupertypes, Reference, SuperHint, Supertype};
use synapse::indexer::index::{begin_index, collect_props, contains_edges, parse_all, IndexSetup};
use synapse::indexer::manifests::{
    is_central_props, manifest_owns, normalize_components, owning_manifest, parse_csproj_manifest,
    parse_package_json_manifest, resolve_rel, sorted_manifests, write_manifest, CentralVersions, ManifestOp, SourceText,
};
use synapse::indexer::resolve::{
    import_edges, nuget_prefix_match, reference_edges, report_due, same_project_dir, supertype_edges, SymbolIndex,
};
use synapse::indexer::work::{parse_file, FileWork, ParseContext};
use synapse::indexer::{index_repo, IndexOutcome, IndexProgress};

fn no_central() -> CentralVersions {
    CentralVersions::collect(&vec![])
}

fn context(store: &mut MemoryGraphStore) -> ParseContext {
    ParseContext {
        root: "/repo".to_string(),
        languages: SynapseConfig::default().index.languages,
        force: false,
        changed_only: false,
        changed: vec![],
        existing: begin_index(store).unwrap(),
        in_git: vec!["a.rs".to_string()],
        central: no_central(),
        now: "2026-06-01T00:00:00+00:00".to_string(),
    }
}

fn setup() -> IndexSetup {
    IndexSetup {
        root: "/repo".to_string(),
        languages: SynapseConfig::default().index.languages,
        force: false,
        changed_only: false,
        changed: vec![],
        in_git: vec!["a.rs".to_string()],
        now: "2026-06-01T00:00:00+00:00".to_string(),
    }
}

fn paths(files: &[(&str, Option<&str>)]) -> Vec<String> {
    files.iter().map(|f| f.0.to_string()).collect()
}

fn bytes(files: &[(&str, Option<&str>)]) -> Vec<Option<Vec<u8>>> {
    files.iter().map(|f| f.1.map(|t| t.as_bytes().to_vec())).collect()
}

fn run(store: &mut MemoryGraphStore, files: &[(&str, Option<&str>)]) -> Result<IndexOutcome, SynapseError> {
    index_repo(store, setup(), &paths(files), &bytes(files), &|_: &str, _: &IndexProgress| {})
}

#[test]
fn a_run_records_files_with_their_hash() {
    let mut store = MemoryGraphStore::new();
    let o = run(&mut store, &[("a.rs", Some("fn f() {}\n")), ("b.toml", Some("")), ("gone.rs", None)]).unwrap();
    assert_eq!((o.files_indexed, o.files_skipped_unchanged, o.files_removed, o.symbols), (2, 0, 0, 1));
    let a = store.file_by_path("a.rs").unwrap().unwrap();
    assert_eq!(a.hash, blake3::hash(b"fn f() {}\n").to_hex().to_string());
    assert_eq!(a.id, "file:a.rs");
    assert_eq!(a.size_bytes, 10);
    assert!(a.git_tracked);
    assert_eq!(a.last_indexed_at, "2026-06-01T00:00:00+00:00");
    let b = store.file_by_path("b.toml").unwrap().unwrap();
    assert_eq!(b.language, Language::Other);
    assert_eq!(b.hash, "af1349b9f5f9a1a6a0404dea36dcc9499bcb25c9adc112b7cc9a93cae41f3262");
    assert!(!b.git_tracked);
    assert!(store.file_by_path("gone.rs").unwrap().is_none());
}

#[test]
fn indexing_again_changes_nothing() {
    let files = [
        ("a.rs", Some("fn f() { g(); }\nfn g() {}\n")),
        ("web/package.json", Some(r#"{"name":"web","dependencies":{"lodash":"1"}}"#)),
        ("web/x.ts", Some("import 'lodash';\nexport function x() {}\n")),
    ];
    let mut store = MemoryGraphStore::new();
    let first = run(&mut store, &files).unwrap();
    assert_eq!(first.files_indexed, 3);
    // One package, one import, one reference.
    assert_eq!(first.edges, 3);
    let before = store.stats().unwrap();
    let again = run(&mut store, &files).unwrap();
    assert_eq!(
        again,
        IndexOutcome { files_indexed: 0, files_skipped_unchanged: 3, files_removed: 0, symbols: 0, edges: 0 }
    );
    assert_eq!(store.stats().unwrap(), before);
    assert_eq!(store.symbol_references("g").unwrap().len(), 1);
    assert_eq!(store.project_siblings("web/x.ts").unwrap().len(), 0);
    assert_eq!(store.files_importing_package("lodash").unwrap(), vec!["web/x.ts".to_string()]);
}

#[test]
fn a_changed_file_is_indexed_anew() {
    let mut store = MemoryGraphStore::new();
    run(&mut store, &[("a.rs", Some("fn old() {}\n")), ("b.rs", Some("fn b() {}\n"))]).unwrap();
    let o = run(&mut store, &[("a.rs", Some("fn new() {}\n")), ("b.rs", Some("fn b() {}\n"))]).unwrap();
    assert_eq!((o.files_indexed, o.files_skipped_unchanged), (1, 1));
    assert!(store.related_to_symbol("old", 1).unwrap().is_empty());
    assert_eq!(store.related_to_symbol("new", 1).unwrap().len(), 1);
}

fn symbols_of(store: &MemoryGraphStore, path: &str) -> Vec<String> {
    let asked = SymbolSearchQuery { name: None, kind: None, language: None, file: Some(path.to_string()) };
    store.symbols_matching(&asked).unwrap().into_iter().map(|s| s.id).collect()
}

#[test]
fn the_symbols_of_a_file_are_those_extracted() {
    let mut store = MemoryGraphStore::new();
    run(&mut store, &[("a.rs", Some("fn one() {}\nfn two() {}\n")), ("b.rs", Some("fn one() {}\n"))]).unwrap();
    assert_eq!(symbols_of(&store, "a.rs"), vec!["sym:a.rs#function#one#1", "sym:a.rs#function#two#2"]);
    run(&mut store, &[("a.rs", Some("\nfn two() {}\nstruct S;\n")), ("b.rs", Some("fn one() {}\n"))]).unwrap();
    assert_eq!(symbols_of(&store, "a.rs"), vec!["sym:a.rs#struct#S#3", "sym:a.rs#function#two#2"]);
    assert_eq!(symbols_of(&store, "b.rs"), vec!["sym:b.rs#function#one#1"]);
    assert!(symbols_of(&store, "c.rs").is_empty());
}

#[test]
fn deleted_files_are_forgotten() {
    let mut store = MemoryGraphStore::new();
    run(&mut store, &[("a.rs", Some("fn a() {}\n")), ("b.rs", Some("fn b() {}\n"))]).unwrap();
    let o = run(&mut store, &[("a.rs", Some("fn a() {}\n"))]).unwrap();
    assert_eq!(o.files_removed, 1);
    assert!(store.file_by_path("b.rs").unwrap().is_none());
    assert!(store.file_by_path("a.rs").unwrap().is_some());
}

#[test]
fn a_run_on_changed_files_removes_nothing() {
    let mut store = MemoryGraphStore::new();
    run(&mut store, &[("a.rs", Some("fn a() {}\n")), ("b.rs", Some("fn b() {}\n"))]).unwrap();
    let files = [("a.rs", Some("fn a2() {}\n")), ("c.rs", Some("fn c() {}\n"))];
    let mut asked = setup();
    asked.changed_only = true;
    asked.changed = vec!["c.rs".to_string()];
    let o = index_repo(&mut store, asked, &paths(&files), &bytes(&files), &|_: &str, _: &IndexProgress| {}).unwrap();
    // The changed a.rs is filtered out, as it is not among the changed files.
    assert_eq!((o.files_indexed, o.files_skipped_unchanged, o.files_removed), (1, 1, 0));
    assert!(store.file_by_path("b.rs").unwrap().is_some());
    assert_eq!(store.related_to_symbol("a", 1).unwrap().len(), 1);
    assert_eq!(store.related_to_symbol("c", 1).unwrap().len(), 1);
}

#[test]
fn forcing_indexes_everything() {
    let mut store = MemoryGraphStore::new();
    let files = [("a.rs", Some("fn a() {}\n"))];
    run(&mut store, &files).unwrap();
    let mut asked = setup();
    asked.force = true;
    let o = index_repo(&mut store, asked, &paths(&files), &bytes(&files), &|_: &str, _: &IndexProgress| {}).unwrap();
    assert_eq!((o.files_indexed, o.files_skipped_unchanged), (1, 0));
}

#[test]
fn a_broken_manifest_writes_nothing() {
    let mut store = MemoryGraphStore::new();
    let e = run(&mut store, &[("a.rs", Some("fn a() {}\n")), ("package.json", Some("{ not json"))]).unwrap_err();
    assert_eq!(e, SynapseError::Invalid("failed to parse package.json".to_string()));
    assert_eq!(store.stats().unwrap().files, 0);
    let e = run(&mut store, &[("x/A.csproj", Some("<Project><a b='"))]).unwrap_err();
    assert_eq!(e.message(), "failed reading MSBuild XML");
    // A manifest has to be UTF-8.
    let ctx = context(&mut store);
    let e = match parse_file(&ctx, "w/package.json", &Some(vec![0xff, 0xfe])) {
        Err(e) => e,
        Ok(_) => panic!("read"),
    };
    assert_eq!(e.message(), "reading /repo/w/package.json");
}

#[test]
fn the_first_broken_manifest_is_reported() {
    let mut store = MemoryGraphStore::new();
    let ctx = context(&mut store);
    let files = [("a.csproj", Some("<a b='")), ("package.json", Some("[")), ("x.rs", Some(""))];
    let quiet = |_: &str, _: &IndexProgress| {};
    match parse_all(&ctx, &paths(&files), &bytes(&files), &quiet) {
        Err(e) => assert_eq!(e.message(), "failed reading MSBuild XML"),
        Ok(_) => panic!("parsed"),
    }
    let good = [("x.rs", Some("fn x() {}")), ("y.rs", None)];
    match parse_all(&ctx, &paths(&good), &bytes(&good), &quiet) {
        Ok(v) => assert!(v.len() == 2 && matches!(v[0], FileWork::Indexed(_)) && matches!(v[1], FileWork::SkipUnreadable)),
        Err(e) => panic!("{}", e.message()),
    }
}

#[test]
fn props_are_collected_from_the_candidates() {
    let files = [
        ("Directory.Build.props", Some("<Project/>")),
        ("a/Directory.Packages.props", None),
        ("b/other.props", Some("<Project/>")),
    ];
    let mut contents = bytes(&files);
    let found = collect_props(&paths(&files), &contents);
    assert_eq!(found.len(), 1);
    assert_eq!((found[0].rel.as_str(), found[0].text.as_str()), ("Directory.Build.props", "<Project/>"));
    contents[0] = Some(vec![0xff]);
    assert!(collect_props(&paths(&files), &contents).is_empty());
}

#[test]
fn source_files_may_hold_bad_bytes() {
    let mut store = MemoryGraphStore::new();
    let ctx = context(&mut store);
    let mut text = b"fn good() {}\n// ".to_vec();
    text.push(0xff);
    match parse_file(&ctx, "a.rs", &Some(text)) {
        Ok(FileWork::Indexed(w)) => assert_eq!(w.symbols[0].name, "good"),
        _ => panic!("not indexed"),
    }
}

#[test]
fn disabled_languages_are_recorded_without_symbols() {
    let mut store = MemoryGraphStore::new();
    let mut ctx = context(&mut store);
    ctx.languages.rust = false;
    match parse_file(&ctx, "a.rs", &Some(b"fn f() { g(); }\nfn g() {}\n".to_vec())) {
        Ok(FileWork::Indexed(w)) => {
            assert!(w.symbols.is_empty() && w.references.is_empty());
            assert_eq!(w.file.language, Language::Rust);
        }
        _ => panic!("not indexed"),
    }
}

#[test]
fn progress_tells_files_and_phases() {
    let mut store = MemoryGraphStore::new();
    let files = [("a.rs", Some("fn f() { g(); }\nfn g() {}\n")), ("b.rs", Some("fn h() {}\n"))];
    let seen: RefCell<Vec<String>> = RefCell::new(vec![]);
    let note = |current: &str, p: &IndexProgress| {
        seen.borrow_mut().push(match p.phase {
            Some(phase) => format!("{phase} {}/{}", p.processed, p.total),
            None => format!("{current} {}/{} {} {}", p.processed, p.total, p.files_indexed, p.symbols),
        });
    };
    index_repo(&mut store, setup(), &paths(&files), &bytes(&files), &note).unwrap();
    assert_eq!(
        seen.into_inner(),
        vec![
            "a.rs 1/2 1 2",
            "b.rs 2/2 2 3",
            "writing graph 2/2",
            "resolving references 2/2",
            "resolving references 2/2",
            "linking project membership 2/2",
        ]
    );
}

#[test]
fn resolve_reports_about_every_percent() {
    assert!(report_due(0, 1000));
    assert!(!report_due(1, 1000));
    assert!(report_due(10, 1000));
    assert!(report_due(7, 50));
}

// --- names -----------------------------------------------------------------

fn symbol(path: &str, name: &str, line: u32, kind: SymbolKind) -> IndexedSymbol {
    IndexedSymbol {
        id: format!("sym:{path}#{}#{name}#{line}", kind.as_str()),
        name: name.to_string(),
        full_name: name.to_string(),
        kind,
        language: Language::CSharp,
        file_path: path.to_string(),
        start_line: line,
        end_line: line,
        visibility: String::new(),
        exported: false,
    }
}

fn targets(edges: &[GraphEdge]) -> Vec<String> {
    edges
        .iter()
        .map(|e| match e {
            GraphEdge::SymbolReferences { to, .. } => format!("ref {to}"),
            GraphEdge::SymbolInherits { to, .. } => format!("inh {to}"),
            GraphEdge::SymbolImplements { to, .. } => format!("imp {to}"),
            GraphEdge::FileImportsPackage { file, package } => format!("{file} {package}"),
            GraphEdge::ProjectContainsFile { project, file } => format!("{project} {file}"),
        })
        .collect()
}

fn usages(file: &str, from: &str, to: &str) -> Vec<FileReferences> {
    vec![FileReferences {
        file: file.to_string(),
        refs: vec![Reference { from: from.to_string(), to: to.to_string() }],
    }]
}

#[test]
fn nearer_declarations_are_meant() {
    let class = SymbolKind::Class;
    let index = SymbolIndex::of(vec![
        symbol("src/a.cs", "User", 1, class),
        symbol("src/a.cs", "Caller", 9, class),
        symbol("src/b.cs", "Caller", 3, class),
        symbol("src/sub/c.cs", "User", 1, class),
        symbol("src2/d.cs", "User", 1, class),
        symbol("other/e.cs", "Caller", 2, class),
    ]);
    let quiet = |_: usize| {};
    // The file itself declares it.
    assert_eq!(targets(&reference_edges(&index, &usages("src/a.cs", "Caller", "User"), &quiet)), vec![
        "ref sym:src/a.cs#class#User#1"
    ]);
    // The same directory tree declares it: `src2` is no part of `src`.
    assert_eq!(targets(&reference_edges(&index, &usages("src/b.cs", "Caller", "User"), &quiet)), vec![
        "ref sym:src/a.cs#class#User#1",
        "ref sym:src/sub/c.cs#class#User#1",
    ]);
    // Nothing is near: every declaration is linked.
    assert_eq!(targets(&reference_edges(&index, &usages("other/e.cs", "Caller", "User"), &quiet)).len(), 3);
    // No enclosing declaration, one that is not of the file, a name nobody
    // declares, and a name that only the user itself declares.
    for (file, from, to) in [
        ("src/a.cs", "", "User"),
        ("src/a.cs", "Nobody", "User"),
        ("src/a.cs", "Caller", "local"),
        ("src/a.cs", "Caller", "user"),
    ] {
        assert!(reference_edges(&index, &usages(file, from, to), &quiet).is_empty());
    }
    assert_eq!(index.decl_in_file("src/a.cs", "User").unwrap().start_line, 1);
    assert!(index.decl_in_file("src/a.cs", "Other").is_none());
    assert_eq!(index.by_name("User").len(), 3);
}

#[test]
fn supertypes_follow_hint_and_kind() {
    let index = SymbolIndex::of(vec![
        symbol("a.cs", "Impl", 1, SymbolKind::Class),
        symbol("b.cs", "Base", 1, SymbolKind::Class),
        symbol("b.cs", "IFoo", 2, SymbolKind::Interface),
        symbol("b.cs", "Tr", 3, SymbolKind::Trait),
    ]);
    let st = |supertype: &str, hint: SuperHint| Supertype {
        child: "Impl".to_string(),
        supertype: supertype.to_string(),
        hint,
    };
    let pending = vec![FileSupertypes {
        file: "a.cs".to_string(),
        supers: vec![
            st("Base", SuperHint::Unknown),
            st("IFoo", SuperHint::Unknown),
            st("Tr", SuperHint::Unknown),
            st("IFoo", SuperHint::Inherits),
            st("Base", SuperHint::Implements),
            st("Impl", SuperHint::Unknown),
        ],
    }];
    assert_eq!(targets(&supertype_edges(&index, &pending, &|_: usize| {})), vec![
        "inh sym:b.cs#class#Base#1",
        "imp sym:b.cs#interface#IFoo#2",
        "imp sym:b.cs#trait#Tr#3",
        "inh sym:b.cs#interface#IFoo#2",
        "imp sym:b.cs#class#Base#1",
    ]);
}

#[test]
fn project_directories_are_whole_segments() {
    assert!(same_project_dir("src/foo.cs", "src"));
    assert!(same_project_dir("src", "src"));
    assert!(!same_project_dir("src2/foo.cs", "src"));
    assert!(!same_project_dir("foo.cs", ""));
}

fn package(ecosystem: &str, name: &str) -> IndexedPackage {
    IndexedPackage {
        id: format!("pkg:{ecosystem}:{name}"),
        name: name.to_string(),
        version: String::new(),
        ecosystem: ecosystem.to_string(),
        dependency_kind: "package".to_string(),
    }
}

#[test]
fn imports_are_linked_to_declared_packages_only() {
    let packages = vec![
        package("nuget", "Serilog"),
        package("nuget", "Serilog.Sinks"),
        package("npm", "lodash"),
        package("npm", "Serilog"),
    ];
    let pending = vec![
        FileImports {
            file_id: "file:a.cs".to_string(),
            imports: vec![
                "Serilog".to_string(),
                "Serilog.Sinks.Console".to_string(),
                "Serilog.Other".to_string(),
                "SerilogX".to_string(),
                "lodash".to_string(),
            ],
            language: Language::CSharp,
        },
        FileImports {
            file_id: "file:b.ts".to_string(),
            imports: vec!["lodash".to_string(), "chalk".to_string()],
            language: Language::TypeScript,
        },
    ];
    assert_eq!(targets(&import_edges(&packages, &pending)), vec![
        "file:a.cs pkg:nuget:Serilog",
        "file:a.cs pkg:nuget:Serilog.Sinks",
        "file:b.ts pkg:npm:lodash",
    ]);
    let names = vec!["A".to_string(), "A.B".to_string(), "A.B.C".to_string()];
    assert_eq!(nuget_prefix_match("A.B.D", &names), Some("A.B".to_string()));
    assert_eq!(nuget_prefix_match("A.B.C", &names), Some("A.B.C".to_string()));
    assert_eq!(nuget_prefix_match("AB", &names), None);
}

// --- manifests ---------------------------------------------------------------

#[test]
fn paths_are_collapsed() {
    assert_eq!(normalize_components("a/./b//../c"), "a/c");
    assert_eq!(normalize_components("../../x"), "x");
    assert_eq!(normalize_components("a\\b\\..\\c"), "a/c");
    assert_eq!(resolve_rel("src/App/App.csproj", "..\\Core\\Core.csproj"), "src/Core/Core.csproj");
    assert_eq!(resolve_rel("App.csproj", "Core/Core.csproj"), "Core/Core.csproj");
}

#[test]
fn the_nearest_manifest_owns_a_file() {
    let candidates: Vec<String> =
        ["package.json", "web/package.json", "web/src/x.ts", "web/App.csproj", "webby/y.ts", "z.ts"]
            .iter()
            .map(|s| s.to_string())
            .collect();
    let manifests = sorted_manifests(&candidates);
    assert_eq!(manifests, vec!["web/package.json", "web/App.csproj", "package.json"]);
    assert_eq!(owning_manifest("web/src/x.ts", &manifests).unwrap(), "web/package.json");
    assert_eq!(owning_manifest("webby/y.ts", &manifests).unwrap(), "package.json");
    // A manifest never owns itself.
    assert_eq!(owning_manifest("web/package.json", &manifests).unwrap(), "web/App.csproj");
    assert!(owning_manifest("package.json", &manifests).is_none());
    assert!(manifest_owns("package.json", "anything"));
    assert!(!manifest_owns("web/package.json", "webby/y.ts"));
    assert_eq!(targets(&contains_edges(&candidates)), vec![
        "proj:web/App.csproj file:web/package.json",
        "proj:web/package.json file:web/src/x.ts",
        "proj:web/package.json file:web/App.csproj",
        "proj:package.json file:webby/y.ts",
        "proj:package.json file:z.ts",
    ]);
}

fn props(rel: &str, body: &str) -> SourceText {
    SourceText { rel: rel.to_string(), text: format!("<Project>{body}</Project>") }
}

#[test]
fn the_nearest_pin_wins() {
    assert!(is_central_props("a/Directory.Packages.props"));
    assert!(is_central_props("directory.build.PROPS"));
    assert!(!is_central_props("a/Other.props"));
    let central = CentralVersions::collect(&vec![
        props("src/Directory.Packages.props", r#"<PackageVersion Include="A" Version="2" />"#),
        props(
            "Directory.Packages.props",
            r#"<PackageVersion Include="A" Version="1" /><PackageVersion Include="B" Version="1" />
               <ManagedPackageVersionsCentrally>true</ManagedPackageVersionsCentrally>"#,
        ),
        props("srcs/Directory.Packages.props", r#"<PackageVersion Include="A" Version="9" />"#),
        props("src/x/Directory.Build.props", "<ManagedPackageVersionsCentrally> False </ManagedPackageVersionsCentrally>"),
        SourceText { rel: "bad/Directory.Build.props".to_string(), text: "<a b='".to_string() },
    ]);
    assert_eq!(central.version_for("src/x/X.csproj", "A"), Some("2".to_string()));
    assert_eq!(central.version_for("src/x/X.csproj", "B"), Some("1".to_string()));
    assert_eq!(central.version_for("lib/L.csproj", "A"), Some("1".to_string()));
    assert_eq!(central.version_for("lib/L.csproj", "C"), None);
    assert!(central.enabled_for("lib/L.csproj"));
    assert!(!central.enabled_for("src/x/X.csproj"));
    assert!(!no_central().enabled_for("lib/L.csproj"));
}

#[test]
fn manifests_become_projects_and_packages() {
    let central = CentralVersions::collect(&vec![props(
        "Directory.Packages.props",
        r#"<PackageVersion Include="B" Version="1" />"#,
    )]);
    let text = r#"<Project><ProjectReference Include="..\Core\Core.csproj" />
        <PackageReference Include="A" Version="3" /><PackageReference Include="B" /><PackageReference Include="C" /></Project>"#;
    let m = parse_csproj_manifest("src/App/App.Web.csproj", text, &central).unwrap();
    assert_eq!(m.project.id, "proj:src/App/App.Web.csproj");
    assert_eq!(m.project.name, "App.Web");
    assert_eq!(m.project.kind, "dotnet");
    let ops: Vec<String> = m
        .ops
        .iter()
        .map(|o| match o {
            ManifestOp::ProjectRef { target } => target.clone(),
            ManifestOp::Package(p) => format!("{} {} {} {}", p.id, p.version, p.ecosystem, p.dependency_kind),
        })
        .collect();
    assert_eq!(ops, vec![
        "proj:src/Core/Core.csproj",
        "pkg:nuget:A 3 nuget package",
        "pkg:nuget:B 1 nuget package",
        "pkg:nuget:C  nuget package",
    ]);
    let mut store = MemoryGraphStore::new();
    assert_eq!(write_manifest(&mut store, &m).unwrap(), 4);
    assert_eq!(store.stats().unwrap().edges, 4);
    // Pins of its own make a project centrally managed too.
    let own = parse_csproj_manifest("a.csproj", r#"<Project><PackageVersion Include="A" Version="1"/></Project>"#, &no_central());
    assert_eq!(own.unwrap().project.kind, "dotnet (cpm)");
    // An unnamed package is called after its directory.
    let web = parse_package_json_manifest("apps/web/package.json", r#"{"peerDependencies":{"react":"*"}}"#).unwrap();
    assert_eq!((web.project.name.as_str(), web.project.kind.as_str()), ("web", "node"));
    assert_eq!(web.ops.len(), 1);
    assert_eq!(parse_package_json_manifest("package.json", "{}").unwrap().project.name, "package");
    assert!(parse_package_json_manifest("package.json", "[").is_err());
}
