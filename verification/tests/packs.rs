//! Context packs: selection, budget, rendering, and related files.

use synapse::config::SynapseConfig;
use synapse::git::GitInfo;
use synapse::graph::memory_store::MemoryGraphStore;
use synapse::graph::model::{IndexedFile, IndexedSymbol, Language, RelatedItem, SymbolKind};
use synapse::graph::store::GraphStore;
use synapse::pack::budget::{file_text, fit, PER_FILE_OVERHEAD};
use synapse::pack::related::{
    file_stem, finalize_related, reason_specificity, related_for_file, related_for_symbol,
};
use synapse::pack::selector::{keep_candidate, parent_dir, path_under_prefix, select, Candidate};
use synapse::pack::{build_pack, PackFormat, PackMode, PackRequest, SelectedFile};

fn file(path: &str) -> IndexedFile {
    IndexedFile {
        id: format!("file:{path}"),
        path: path.to_string(),
        language: Language::Rust,
        hash: "h".to_string(),
        size_bytes: 1,
        git_tracked: true,
        last_indexed_at: "2026-01-01T00:00:00+00:00".to_string(),
    }
}

fn symbol(path: &str, name: &str, line: u32) -> IndexedSymbol {
    IndexedSymbol {
        id: format!("sym:{path}#function#{name}#{line}"),
        name: name.to_string(),
        full_name: name.to_string(),
        kind: SymbolKind::Function,
        language: Language::Rust,
        file_path: path.to_string(),
        start_line: line,
        end_line: line + 1,
        visibility: "pub".to_string(),
        exported: true,
    }
}

fn store() -> MemoryGraphStore {
    let mut s = MemoryGraphStore::new();
    for p in [
        "src/app.rs",
        "src/app_tests.rs",
        "src/config.toml",
        "src/lib.min.js",
        "src/package-lock.json",
        "src/util.rs",
        "docs/guide.md",
        "calls/caller.rs",
    ] {
        s.upsert_file(file(p)).unwrap();
    }
    s.upsert_symbol(symbol("src/app.rs", "run", 3)).unwrap();
    s.upsert_symbol(symbol("src/app.rs", "runner", 9)).unwrap();
    s.upsert_symbol(symbol("calls/caller.rs", "call", 1)).unwrap();
    s.link_symbol_references("sym:calls/caller.rs#function#call#1", "sym:src/app.rs#function#run#3").unwrap();
    s
}

fn request(mode: PackMode) -> PackRequest {
    PackRequest {
        mode,
        budget: 1000,
        depth: 1,
        include_tests: false,
        include_config: false,
        include_diff: false,
        dry_run: false,
        explain: false,
        format: PackFormat::Json,
    }
}

fn chosen(sel: &[SelectedFile]) -> Vec<String> {
    sel.iter().map(|f| format!("{} {} {}", f.tier, f.path, f.reason)).collect()
}

#[test]
fn a_symbol_selects_its_file_and_its_users() {
    let sel = select(&store(), &request(PackMode::Symbol("RUN".to_string())), &vec![]).unwrap();
    // The graph knows `run` by its exact name only.
    assert_eq!(
        chosen(&sel),
        vec!["0 src/app.rs declares `RUN`", "2 src/util.rs same directory as a seed file"]
    );
    let sel = select(&store(), &request(PackMode::Symbol("run".to_string())), &vec![]).unwrap();
    assert_eq!(
        chosen(&sel),
        vec![
            "0 src/app.rs declares `run`",
            "1 calls/caller.rs references run",
            "2 src/util.rs same directory as a seed file",
        ]
    );
    assert!(sel.iter().all(|f| f.included && f.estimated_tokens == 0));
}

#[test]
fn a_path_selects_what_is_under_it() {
    let sel = select(&store(), &request(PackMode::Path("src/".to_string())), &vec![]).unwrap();
    // Everything but the generated bundle, since the path asks for it.
    assert_eq!(
        chosen(&sel),
        vec![
            "1 src/app.rs under path `src`",
            "1 src/app_tests.rs under path `src`",
            "1 src/config.toml under path `src`",
            "1 src/package-lock.json under path `src`",
            "1 src/util.rs under path `src`",
        ]
    );
    let sel = select(&store(), &request(PackMode::Path("src/util.rs".to_string())), &vec![]).unwrap();
    assert_eq!(
        chosen(&sel),
        vec!["0 src/util.rs exact path match", "2 src/app.rs same directory as a seed file"]
    );
}

#[test]
fn flags_let_tests_and_config_in() {
    let mut req = request(PackMode::Path("src/util.rs".to_string()));
    req.include_tests = true;
    req.include_config = true;
    let sel = select(&store(), &req, &vec![]).unwrap();
    let paths: Vec<&str> = sel.iter().map(|f| f.path.as_str()).collect();
    // Neither generated files nor lockfiles come along.
    assert_eq!(paths, vec!["src/util.rs", "src/app.rs", "src/app_tests.rs", "src/config.toml"]);
}

#[test]
fn a_query_matches_paths_and_symbols() {
    let sel = select(&store(), &request(PackMode::Query("Run".to_string())), &vec![]).unwrap();
    assert_eq!(
        chosen(&sel),
        vec!["1 src/app.rs declares symbol matching `Run`", "2 src/util.rs same directory as a seed file"]
    );
    let sel = select(&store(), &request(PackMode::Query("GUIDE".to_string())), &vec![]).unwrap();
    assert_eq!(chosen(&sel), vec!["1 docs/guide.md path matches `GUIDE`"]);
}

#[test]
fn changed_files_come_first() {
    let changed = vec!["docs/guide.md".to_string(), "not/indexed.rs".to_string(), "src/app_tests.rs".to_string()];
    let sel = select(&store(), &request(PackMode::Changed), &changed).unwrap();
    assert_eq!(
        chosen(&sel),
        vec![
            "0 docs/guide.md changed file",
            "2 src/app.rs same directory as a seed file",
            "2 src/util.rs same directory as a seed file",
        ]
    );
}

#[test]
fn candidates_survive_by_rule() {
    let keep = |path: &str, explicit: bool, tests: bool, config: bool| {
        let c = Candidate { path: path.to_string(), reason: String::new(), tier: 1, explicit };
        let mut r = request(PackMode::Changed);
        r.include_tests = tests;
        r.include_config = config;
        keep_candidate(&c, &r)
    };
    assert!(!keep("a.min.js", true, true, true));
    assert!(!keep("yarn.lock", false, true, true));
    assert!(keep("yarn.lock", true, false, false));
    assert!(!keep("a_test.go", false, false, true));
    assert!(keep("a_test.go", false, true, false));
    assert!(keep("a_test.go", true, false, false));
    assert!(!keep("a.yaml", false, true, false));
    assert!(keep("a.yaml", false, false, true));
    assert!(keep("a.rs", false, false, false));
    assert!(path_under_prefix("a/b", "a") && path_under_prefix("a/b", "") && !path_under_prefix("ab", "a"));
    assert_eq!(parent_dir("a/b/c"), "a/b");
    assert_eq!(parent_dir("c"), "");
}

fn candidate(path: &str) -> SelectedFile {
    SelectedFile { path: path.to_string(), reason: "r".to_string(), tier: 1, estimated_tokens: 0, included: true }
}

#[test]
fn the_first_overflow_ends_the_pack() {
    let cands = vec![candidate("a"), candidate("b"), candidate("c"), candidate("d")];
    let texts = vec!["x".repeat(40), "y".repeat(400), "z".repeat(4), String::new()];
    let (sel, total) = fit(&cands, &texts, 50);
    let costs: Vec<usize> = sel.iter().map(|f| f.estimated_tokens).collect();
    assert_eq!(costs, vec![10 + PER_FILE_OVERHEAD, 100 + PER_FILE_OVERHEAD, 1 + PER_FILE_OVERHEAD, 0]);
    // `c` would fit, but it comes after `b`, which does not.
    let included: Vec<bool> = sel.iter().map(|f| f.included).collect();
    assert_eq!(included, vec![true, false, false, false]);
    assert_eq!(total, 18);
    let (sel, total) = fit(&cands, &texts, 135);
    assert_eq!(total, 135);
    assert!(sel.iter().all(|f| f.included));
    let (sel, total) = fit(&cands, &texts, 0);
    assert_eq!(total, 0);
    assert!(sel.iter().all(|f| !f.included));
}

#[test]
fn texts_are_decoded_leniently() {
    assert_eq!(file_text(&None), "");
    assert_eq!(file_text(&Some(b"a\xffb".to_vec())), "a\u{fffd}b");
    assert_eq!(file_text(&Some("café".as_bytes().to_vec())), "café");
}

fn git() -> GitInfo {
    GitInfo { branch: Some("main".to_string()), commit: None }
}

fn config(name: &str) -> SynapseConfig {
    let mut c = SynapseConfig::default();
    c.repo.name = name.to_string();
    c
}

#[test]
fn json_packs_hold_everything() {
    let s = store();
    let mut req = request(PackMode::Symbol("run".to_string()));
    req.include_diff = true;
    req.budget = 20;
    let cands = vec![candidate("src/app.rs"), candidate("src/util.rs")];
    let texts = vec!["fn run() {}".to_string(), "z".repeat(100)];
    let p = build_pack(&s, &config(""), &git(), &req, &cands, &texts, &Some("+x".to_string())).unwrap();
    assert_eq!(p.total_tokens, 10);
    let doc: serde_json::Value = serde_json::from_str(&p.rendered).unwrap();
    assert_eq!(doc["tool"], "synapse");
    assert_eq!(doc["request"]["mode"], "symbol");
    assert_eq!(doc["request"]["query"], "run");
    assert_eq!(doc["request"]["budget"], 20);
    assert_eq!(doc["request"]["dryRun"], false);
    assert!(doc["repository"]["name"].is_null());
    assert_eq!(doc["repository"]["branch"], "main");
    assert!(doc["repository"]["commit"].is_null());
    assert_eq!(doc["repository"]["changedFilesIncluded"], false);
    assert_eq!(doc["repository"]["graphBackend"], "LadybugDB");
    assert_eq!(doc["selection"][0]["estimatedTokens"], 10);
    assert_eq!(doc["selection"][1]["included"], false);
    // Only the included file contributes symbols and contents.
    assert_eq!(doc["symbols"].as_array().unwrap().len(), 2);
    assert_eq!(doc["symbols"][0]["name"], "run");
    assert_eq!(doc["symbols"][0]["startLine"], 3);
    assert_eq!(doc["symbols"][0]["kind"], "function");
    assert_eq!(doc["files"].as_array().unwrap().len(), 1);
    assert_eq!(doc["files"][0]["path"], "src/app.rs");
    assert_eq!(doc["files"][0]["language"], "rust");
    assert_eq!(doc["files"][0]["contents"], "fn run() {}");
    assert_eq!(doc["diff"], "+x");
    assert!(p.rendered.contains("\"name\": \"run\""));
    assert!(!p.rendered.contains("# SimCube Synapse Context Pack"));
}

#[test]
fn a_dry_run_shows_no_contents() {
    let s = store();
    let cands = vec![candidate("src/app.rs")];
    let texts = vec!["fn secret_body() {}".to_string()];
    for format in [PackFormat::Json, PackFormat::Markdown] {
        let mut req = request(PackMode::Changed);
        req.dry_run = true;
        req.format = format;
        let p = build_pack(&s, &config("demo"), &git(), &req, &cands, &texts, &Some("+x".to_string())).unwrap();
        assert!(!p.rendered.contains("secret_body"));
        assert!(p.rendered.contains("src/app.rs"));
        // Without --include-diff there is no diff either.
        assert!(!p.rendered.contains("+x"));
        assert!(p.selection[0].included);
    }
    let mut req = request(PackMode::Changed);
    req.dry_run = true;
    let p = build_pack(&s, &config("demo"), &git(), &req, &cands, &texts, &None).unwrap();
    assert!(p.rendered.contains("\"files\": []"));
    assert!(p.rendered.contains("\"changedFilesIncluded\": true"));
}

#[test]
fn markdown_packs_are_exact() {
    let s = store();
    let mut req = request(PackMode::Symbol("run".to_string()));
    req.format = PackFormat::Markdown;
    req.include_diff = true;
    req.budget = 20;
    let cands = vec![candidate("src/app.rs"), candidate("src/util.rs")];
    let texts = vec!["fn run() {}".to_string(), "z".repeat(100)];
    let mut c = config("demo");
    let p = build_pack(&s, &c, &git(), &req, &cands, &texts, &Some("+x".to_string())).unwrap();
    let expected = "\
# SimCube Synapse Context Pack

- Mode: symbol
- Query: run
- Repository: demo
- Branch: main
- Commit: -

## Selection Summary

- `src/app.rs` (tier 1, ~10 tokens): r
- `src/util.rs` (tier 1, ~33 tokens, trimmed): r

## Symbols

- `run` (function) src/app.rs:3
- `runner` (function) src/app.rs:9

## Files

### src/app.rs

```rust
fn run() {}
```

## Diff

```diff
+x
```
";
    assert_eq!(p.rendered, expected);
    c.pack.include_selection_reasons = false;
    let p = build_pack(&s, &c, &git(), &req, &cands, &texts, &None).unwrap();
    assert!(p.rendered.contains("- `src/app.rs` (tier 1, ~10 tokens)\n"));
    assert!(!p.rendered.contains("## Diff"));
}

#[test]
fn formats_and_modes_have_names() {
    assert_eq!(PackFormat::from_str_opt("MD"), Some(PackFormat::Markdown));
    assert_eq!(PackMode::Changed.label(), "changed");
    assert_eq!(PackMode::Changed.query_text(), "(changed files)");
    assert_eq!(PackMode::Path("p".to_string()).label(), "path");
    assert_eq!(PackMode::Query("q".to_string()).query_text(), "q");
}

fn shown(items: &[RelatedItem]) -> Vec<String> {
    items.iter().map(|i| format!("{} {} {}", i.depth, i.path, i.reason)).collect()
}

#[test]
fn related_files_of_a_symbol() {
    let s = store();
    assert_eq!(
        shown(&related_for_symbol(&s, "run", 1).unwrap()),
        vec![
            "0 src/app.rs declares `run`",
            "1 calls/caller.rs references run",
            "1 src/app_tests.rs test file in the same directory",
            "1 src/config.toml config/registration file in the area",
            "1 src/lib.min.js same directory as a declaring file",
            "1 src/package-lock.json config/registration file in the area",
            "1 src/util.rs same directory as a declaring file",
        ]
    );
    // With a ceiling of zero only the declaration is left.
    assert_eq!(shown(&related_for_symbol(&s, "run", 0).unwrap()), vec!["0 src/app.rs declares `run`"]);
    assert_eq!(
        shown(&related_for_symbol(&s, "util", 1).unwrap()),
        vec!["1 src/util.rs path contains `util`"]
    );
}

#[test]
fn related_files_of_a_file() {
    let s = store();
    assert_eq!(
        shown(&related_for_file(&s, "docs/guide.md", 1).unwrap()),
        vec!["0 docs/guide.md seed file"]
    );
    let mut s = store();
    s.upsert_file(file("other/guide_test.rs")).unwrap();
    assert_eq!(
        shown(&related_for_file(&s, "docs/guide.md", 1).unwrap()),
        vec!["0 docs/guide.md seed file", "1 other/guide_test.rs likely test for the seed file"]
    );
    assert_eq!(file_stem("a/Guide.test.ts"), "guide");
}

#[test]
fn the_most_specific_reason_is_kept() {
    assert_eq!(reason_specificity("declares `x`"), 4);
    assert_eq!(reason_specificity("references x"), 3);
    assert_eq!(reason_specificity("implementor"), 3);
    assert_eq!(reason_specificity("path contains `x`"), 2);
    assert_eq!(reason_specificity("same project (x)"), 1);
    let item = |path: &str, reason: &str, depth: usize| RelatedItem {
        path: path.to_string(),
        reason: reason.to_string(),
        depth,
    };
    let items = vec![
        item("a", "same project (p)", 1),
        item("a", "references x", 1),
        item("a", "same directory", 1),
        item("b", "references x", 2),
        item("b", "same directory", 1),
        item("c", "deep", 3),
        item("gone", "declares `x`", 0),
    ];
    let out = finalize_related(items, 2, &vec![file("a"), file("b"), file("c")]);
    assert_eq!(shown(&out), vec!["1 a references x", "1 b same directory"]);
}
