//! What the commands decide and print.

use synapse::cli::{
    CleanArgs, ExploreArgs, InitArgs, PackArgs, PackagesArgs, RelatedArgs, SymbolsArgs,
};
use synapse::commands::listing::{
    importer_listing, package_table, project_table, related, related_listing, select_packages, select_projects,
    symbol_table,
};
use synapse::commands::numbers::{fmt_num, truncate_middle};
use synapse::commands::requests::{count_included, explain_selection, pack_request, symbol_query};
use synapse::commands::status::{
    graph_origin_path, last_index, origin_commit, origin_stale, read_origin, report, scan, stale_origin_warning,
    status_json, status_lines, Scan,
};
use synapse::commands::workspace::{
    clean_choice, ensure_gitignored, explore_options, index_summary, may_init, progress_message,
};
use synapse::config::{config_path, synapse_dir, SynapseConfig};
use synapse::errors::SynapseError;
use synapse::explore::{docker_command_string, graph_dir, graph_file_path, ExploreOptions};
use synapse::git::GitInfo;
use synapse::graph::memory_store::MemoryGraphStore;
use synapse::graph::model::{
    IndexStats, IndexedFile, IndexedPackage, IndexedProject, IndexedSymbol, Language, RelatedItem, SymbolKind,
};
use synapse::graph::store::GraphStore;
use synapse::indexer::{IndexOutcome, IndexProgress};
use synapse::pack::{PackFormat, PackMode, SelectedFile};

fn file(path: &str, text: &str, at: &str) -> IndexedFile {
    IndexedFile {
        id: format!("file:{path}"),
        path: path.to_string(),
        language: Language::Rust,
        hash: blake3::hash(text.as_bytes()).to_hex().to_string(),
        size_bytes: text.len() as u64,
        git_tracked: true,
        last_indexed_at: at.to_string(),
    }
}

#[test]
fn numbers_are_grouped() {
    assert_eq!(fmt_num(0), "0");
    assert_eq!(fmt_num(999), "999");
    assert_eq!(fmt_num(1000), "1,000");
    assert_eq!(fmt_num(1234567), "1,234,567");
    assert_eq!(fmt_num(100000), "100,000");
}

#[test]
fn long_paths_lose_their_middle() {
    assert_eq!(truncate_middle("short", 5), "short");
    assert_eq!(truncate_middle("abcdefghij", 5), "ab…ij");
    assert_eq!(truncate_middle("abcdefghij", 6), "abc…ij");
    assert_eq!(truncate_middle("abc", 1), "…");
    assert_eq!(truncate_middle("abc", 0), "");
    assert_eq!(truncate_middle("", 0), "");
    assert_eq!(truncate_middle("abc", 2), "a…");
    assert_eq!(truncate_middle("äöüßéè", 4), "äö…è");
}

#[test]
fn a_config_is_not_overwritten() {
    let args = |force: bool| InitArgs { force, name: None };
    assert!(may_init("/r/.synapse/synapse.toml", false, &args(false)).is_ok());
    assert!(may_init("/r/.synapse/synapse.toml", true, &args(true)).is_ok());
    let e = may_init("/r/.synapse/synapse.toml", true, &args(false)).unwrap_err();
    assert_eq!(e, SynapseError::ConfigExists("/r/.synapse/synapse.toml".to_string()));
    assert_eq!(e.message(), "`/r/.synapse/synapse.toml` already exists; use --force to overwrite");
    assert_eq!(config_path("/r"), "/r/.synapse/synapse.toml");
    assert_eq!(synapse_dir("/r"), "/r/.synapse");
}

#[test]
fn the_graph_is_ignored_once() {
    let (entry, text) = ensure_gitignored("target", ".synapse/graph/").unwrap();
    assert_eq!(entry, ".synapse/graph/");
    assert_eq!(
        text,
        "target\n\n# SimCube Synapse local graph (share via `synapse push`, don't commit)\n.synapse/graph/\n"
    );
    // Now it is covered.
    assert!(ensure_gitignored(&text, ".synapse/graph").is_none());
    for line in [".synapse", " .synapse/ ", "**/synapse.lbug", ".synapse/graph"] {
        assert!(ensure_gitignored(&format!("x\n{line}\r\ny\n"), ".synapse/graph").is_none());
    }
    let (_, text) = ensure_gitignored("", "g").unwrap();
    assert!(text.starts_with("\n# SimCube") && text.ends_with("\ng/\n"));
}

#[test]
fn the_summary_of_a_run() {
    let o = IndexOutcome { files_indexed: 1200, files_skipped_unchanged: 0, files_removed: 3, symbols: 9, edges: 1 };
    let s = IndexStats { files: 1, symbols: 2000, projects: 3, packages: 4, edges: 5, reference_edges: 6 };
    assert_eq!(
        index_summary(&o, &s, "/r/g", 7, false),
        vec![
            "Indexed 1,200 files",
            "Found 2,000 symbols",
            "Found 5 project/package edges",
            "Removed 3 deleted files",
            "Graph stored at /r/g",
        ]
    );
    let detailed = index_summary(&o, &s, "/r/g", 7, true);
    assert_eq!(detailed[5..7], ["".to_string(), "Stats:".to_string()]);
    assert_eq!(detailed[12], "  candidates considered: 7");
    let o = IndexOutcome { files_skipped_unchanged: 2, files_removed: 0, ..o };
    assert_eq!(index_summary(&o, &s, "/r/g", 7, false)[3], "Skipped 2 unchanged files");
}

#[test]
fn progress_shows_file_or_phase() {
    let mut p = IndexProgress::default();
    p.files_indexed = 2;
    p.symbols = 30;
    assert_eq!(
        progress_message(&p, "src/a.rs"),
        "\x1b[36mfiles\x1b[0m 2 \x1b[36msymbols\x1b[0m 30 \x1b[36mprojects\x1b[0m 0\n  \x1b[2msrc/a.rs\x1b[0m"
    );
    p.phase = Some("resolving references");
    assert!(progress_message(&p, "").ends_with("\x1b[2mresolving references…\x1b[0m"));
    p.phase_progress = Some((3, 9));
    assert!(progress_message(&p, "").ends_with("\x1b[2mresolving references 3/9…\x1b[0m"));
}

#[test]
fn cleaning_has_to_name_something() {
    let args = |cache: bool, index: bool, packs: bool, all: bool| CleanArgs { cache, index, packs, all };
    assert_eq!(clean_choice(&args(false, false, false, true)).unwrap(), vec!["cache", "graph", "packs"]);
    assert_eq!(clean_choice(&args(false, true, false, false)).unwrap(), vec!["graph"]);
    let e = clean_choice(&args(false, false, false, false)).unwrap_err();
    assert_eq!(e.message(), "specify what to clean: --cache, --index, --packs, or --all");
}

#[test]
fn explorer_commands_are_copy_pasteable() {
    let opts: ExploreOptions = explore_options(&ExploreArgs {
        port: 8000,
        read_write: false,
        detach: false,
        in_memory: false,
        image: "img".to_string(),
        tag: "t".to_string(),
        print: true,
    });
    assert_eq!(
        docker_command_string(&opts, "/my repo/g"),
        "docker run --rm -p 8000:8000 -v \"/my repo/g:/database\" -e LBUG_FILE=synapse.lbug -e MODE=READ_ONLY img:t"
    );
    assert_eq!(graph_file_path("/r", ".synapse/graph"), "/r/.synapse/graph/synapse.lbug");
    assert_eq!(graph_dir("/r", "g", true), Ok("/r/g".to_string()));
    assert_eq!(
        graph_dir("/r", "g", false).unwrap_err().message(),
        "graph backend error: no graph found at /r/g/synapse.lbug — run `synapse index` first"
    );
}

// --- status ------------------------------------------------------------------

#[test]
fn stale_and_untracked_files() {
    let candidates = vec!["new.rs".to_string(), "b.rs".to_string(), "a.rs".to_string(), "lost.rs".to_string()];
    let contents = vec![Some(b"n".to_vec()), Some(b"changed".to_vec()), Some(b"same".to_vec()), None];
    let indexed = vec![
        file("a.rs", "same", "2026-01-02"),
        file("b.rs", "old", "2026-01-03"),
        file("lost.rs", "x", "2026-01-01"),
    ];
    let found = scan(&candidates, &contents, &indexed, &vec!["a.rs".to_string()]);
    assert_eq!(found.stale, vec!["b.rs", "new.rs"]);
    assert_eq!(found.untracked, vec!["b.rs", "lost.rs", "new.rs"]);
    assert_eq!(last_index(&indexed), "2026-01-03");
    assert_eq!(last_index(&vec![]), "");
}

#[test]
fn the_origin_of_a_graph() {
    assert!(read_origin(&None).is_none());
    assert!(read_origin(&Some("not json".to_string())).is_none());
    let o = read_origin(&Some(r#"{"commit":"abc","tag":7}"#.to_string()));
    assert_eq!(origin_commit(&o), Some("abc".to_string()));
    assert_eq!(origin_commit(&None), None);
    let s = |x: &str| Some(x.to_string());
    assert_eq!(origin_stale(&s("abc"), &s("abcdef")), Some(false));
    assert_eq!(origin_stale(&s("abcdef"), &s("abc")), Some(false));
    assert_eq!(origin_stale(&s("abc"), &s("abd")), Some(true));
    assert_eq!(origin_stale(&None, &s("abd")), None);
    assert_eq!(graph_origin_path("/r", "g"), "/r/g/origin.json");
}

#[test]
fn the_status_report() {
    let mut config = SynapseConfig::default();
    let stats = IndexStats { files: 1234, symbols: 5, projects: 1, packages: 2, edges: 3, reference_edges: 4 };
    let indexed = vec![file("a.rs", "x", "2026-01-02")];
    let found = Scan { stale: vec!["b".to_string()], untracked: vec![] };
    let origin = read_origin(&Some(r#"{"commit":"abc","registry":"r","repository":"p/q"}"#.to_string()));
    let git = GitInfo { branch: Some("main".to_string()), commit: Some("def".to_string()) };
    let r = report(&config, stats, &indexed, &found, git, &origin, &Some("def1".to_string()));
    assert_eq!(
        status_lines(&r, &origin),
        vec![
            "Repo: (unnamed)",
            "Index: ready",
            "Graph backend: ladybug",
            "Graph path: .synapse/graph",
            "Files indexed: 1,234",
            "Symbols indexed: 5",
            "Reference edges: 4",
            "Stale files: 1",
            "Untracked files: 0",
            "Last index: 2026-01-02",
            "Origin: r/p/q:? (commit abc)",
        ]
    );
    assert_eq!(
        stale_origin_warning(&r, &origin).unwrap(),
        "warning: pulled graph was indexed at commit abc, but local HEAD differs; run `synapse index` to refresh"
    );
    let doc: serde_json::Value = serde_json::from_str(&status_json(&r, origin)).unwrap();
    assert!(doc["repo"].is_null());
    assert_eq!(doc["index"], "ready");
    assert_eq!(doc["graphBackend"], "ladybug");
    assert_eq!(doc["filesIndexed"], 1234);
    assert_eq!(doc["referenceLanguages"][3], "javascript");
    assert_eq!(doc["staleFiles"], 1);
    assert_eq!(doc["branch"], "main");
    assert_eq!(doc["origin"]["registry"], "r");
    assert_eq!(doc["originStale"], true);
    // Nothing indexed, nothing pulled.
    config.repo.name = "demo".to_string();
    let none = Scan { stale: vec![], untracked: vec![] };
    let r = report(&config, stats, &vec![], &none, GitInfo::default(), &None, &None);
    let lines = status_lines(&r, &None);
    assert_eq!(lines[0..2], ["Repo: demo".to_string(), "Index: empty".to_string()]);
    assert_eq!(lines.len(), 9);
    assert_eq!(stale_origin_warning(&r, &None), None);
    let doc: serde_json::Value = serde_json::from_str(&status_json(&r, None)).unwrap();
    assert_eq!(doc["repo"], "demo");
    assert!(doc["origin"].is_null() && doc["originStale"].is_null() && doc["branch"].is_null());
    assert_eq!(doc["lastIndex"], "");
}

// --- lists -------------------------------------------------------------------

#[test]
fn symbols_are_listed() {
    let s = IndexedSymbol {
        id: "i".to_string(),
        name: "Alias".to_string(),
        full_name: "Alias".to_string(),
        kind: SymbolKind::TypeAlias,
        language: Language::TypeScript,
        file_path: "a.ts".to_string(),
        start_line: 1,
        end_line: 1,
        visibility: String::new(),
        exported: false,
    };
    assert_eq!(
        symbol_table(&vec![s]),
        "Symbol  Kind  Language    File\nAlias   type  typescript  a.ts\n"
    );
    let q = symbol_query(&SymbolsArgs {
        query: Some("al".to_string()),
        kind: Some("FN".to_string()),
        file: None,
        language: Some("nonsense".to_string()),
        json: false,
    });
    assert_eq!(q.name.as_deref(), Some("al"));
    assert_eq!(q.kind, Some(SymbolKind::Function));
    assert_eq!(q.language, None);
}

fn seed(symbol: Option<&str>, path: Option<&str>) -> RelatedArgs {
    RelatedArgs { symbol: symbol.map(|s| s.to_string()), file: path.map(|s| s.to_string()), depth: 1, json: false }
}

#[test]
fn related_files_are_listed() {
    let mut store = MemoryGraphStore::new();
    store.upsert_file(file("d/a.rs", "x", "now")).unwrap();
    store.upsert_file(file("d/b.rs", "x", "now")).unwrap();
    let (name, items) = related(&store, &seed(None, Some("d/a.rs"))).unwrap();
    assert_eq!(
        related_listing(&name, &items),
        vec![
            "Related to d/a.rs",
            "",
            "Direct:",
            "  d/a.rs",
            "    reason: seed file",
            "",
            "Related:",
            "  d/b.rs",
            "    reason: same directory",
        ]
    );
    // A symbol goes before a file.
    let (name, items) = related(&store, &seed(Some("nobody"), Some("d/a.rs"))).unwrap();
    assert_eq!(name, "nobody");
    assert!(items.is_empty());
    assert_eq!(
        related(&store, &seed(None, None)).unwrap_err().message(),
        "provide --symbol <name> or --file <path>"
    );
    let deep = |path: &str, depth: usize| RelatedItem { path: path.to_string(), reason: "r".to_string(), depth };
    let lines = related_listing("s", &vec![deep("a", 1), deep("b", 1), deep("c", 2)]);
    assert_eq!(lines[2], "Related:");
    assert_eq!(lines[7..9], ["".to_string(), "Related:".to_string()]);
}

fn wanted(query: Option<&str>, ecosystem: Option<&str>) -> PackagesArgs {
    PackagesArgs {
        query: query.map(|s| s.to_string()),
        ecosystem: ecosystem.map(|s| s.to_string()),
        projects: false,
        importers: None,
        json: false,
    }
}

fn package(name: &str, version: &str, ecosystem: &str) -> IndexedPackage {
    IndexedPackage {
        id: format!("pkg:{ecosystem}:{name}"),
        name: name.to_string(),
        version: version.to_string(),
        ecosystem: ecosystem.to_string(),
        dependency_kind: "dependency".to_string(),
    }
}

#[test]
fn packages_are_listed() {
    let all = || vec![package("b", "2", "npm"), package("a", "2", "nuget"), package("a", "1", "npm"), package("Ab", "", "npm")];
    let got = |args: PackagesArgs| -> Vec<String> {
        select_packages(&args, all()).iter().map(|p| format!("{}@{}", p.name, p.version)).collect()
    };
    assert_eq!(got(wanted(None, None)), vec!["Ab@", "a@1", "a@2", "b@2"]);
    assert_eq!(got(wanted(Some("AB"), None)), vec!["Ab@"]);
    assert_eq!(got(wanted(None, Some("NuGet"))), vec!["a@2"]);
    assert_eq!(
        package_table(&select_packages(&wanted(Some("ab"), None), all())),
        "Package  Version        Ecosystem  Kind\nAb       (unversioned)  npm        dependency\n"
    );
    assert_eq!(
        importer_listing("x", &vec!["a.ts".to_string()]),
        vec!["Files importing `x`:", "  a.ts"]
    );
    assert_eq!(importer_listing("x", &vec![]), vec!["No indexed files import `x`."]);
}

#[test]
fn projects_are_listed() {
    let project = |name: &str, path: &str| IndexedProject {
        id: format!("proj:{path}"),
        name: name.to_string(),
        path: path.to_string(),
        language: Language::CSharp,
        kind: "dotnet (cpm)".to_string(),
    };
    let all = vec![project("Zed", "b/Z.csproj"), project("Web", "a/W.csproj"), project("Core", "c/C.csproj")];
    let kept = select_projects(&wanted(Some("W"), None), all);
    assert_eq!(kept.len(), 1);
    assert_eq!(
        project_table(&kept),
        "Project  Language  Kind          Path\nWeb      csharp    dotnet (cpm)  a/W.csproj\n"
    );
    let all = vec![project("Zed", "b/Z.csproj"), project("Web", "a/W.csproj")];
    let paths: Vec<String> = select_projects(&wanted(Some("csproj"), None), all).iter().map(|p| p.path.clone()).collect();
    assert_eq!(paths, vec!["a/W.csproj", "b/Z.csproj"]);
}

// --- packs ---------------------------------------------------------------------

fn pack_args() -> PackArgs {
    PackArgs {
        changed: false,
        path: None,
        symbol: None,
        query: None,
        budget: None,
        depth: 1,
        output: None,
        format: None,
        include_tests: true,
        include_config: false,
        include_diff: true,
        dry_run: false,
        explain: false,
    }
}

#[test]
fn pack_arguments_make_a_request() {
    let config = SynapseConfig::default().pack;
    let mut args = pack_args();
    assert_eq!(
        pack_request(&args, &config).unwrap_err().message(),
        "provide one of --changed, --path, --symbol or --query"
    );
    args.query = Some("q".to_string());
    let r = pack_request(&args, &config).unwrap();
    assert_eq!(r.mode, PackMode::Query("q".to_string()));
    assert_eq!((r.budget, r.depth, r.format), (40000, 1, PackFormat::Markdown));
    assert!(r.include_tests && !r.include_config && r.include_diff && !r.dry_run && !r.explain);
    args.symbol = Some("s".to_string());
    args.budget = Some(7);
    args.format = Some("JSON".to_string());
    let r = pack_request(&args, &config).unwrap();
    assert_eq!(r.mode, PackMode::Symbol("s".to_string()));
    assert_eq!((r.budget, r.format), (7, PackFormat::Json));
    args.path = Some("p".to_string());
    assert_eq!(pack_request(&args, &config).unwrap().mode, PackMode::Path("p".to_string()));
    args.changed = true;
    assert_eq!(pack_request(&args, &config).unwrap().mode, PackMode::Changed);
    args.format = Some("xml".to_string());
    assert_eq!(
        pack_request(&args, &config).unwrap_err().message(),
        "unknown pack format `xml` (use markdown or json)"
    );
}

#[test]
fn selections_are_explained() {
    let pick = |path: &str, included: bool| SelectedFile {
        path: path.to_string(),
        reason: "why".to_string(),
        tier: 1,
        estimated_tokens: 12,
        included,
    };
    let sel = vec![pick("a", true), pick("b", false)];
    assert_eq!(
        explain_selection(&sel, 12),
        vec![
            "Selection (12 tokens):",
            "  [1] a (~12 tok)",
            "       why",
            "  [1] b (~12 tok) [trimmed]",
            "       why",
        ]
    );
    assert_eq!(count_included(&sel), 1);
}
