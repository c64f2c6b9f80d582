//! Repositories, git output, globs, paths and errors.

use synapse::config::{language_enabled, IndexConfig, SynapseConfig};
use synapse::errors::SynapseError;
use synapse::git::{changed_files, diff, full_commit, info, is_git_repo, output_text, tracked_files};
use synapse::graph::model::Language;
use synapse::indexer::languages::{detect, is_config_file, is_generated, is_jsx, is_lockfile, is_test_file};
use synapse::repo::{build_globset, normalize, path_matches, Ancestor, Repo};

fn dir(path: &str, has_synapse: bool, has_git: bool) -> Ancestor {
    Ancestor { path: path.to_string(), has_synapse, has_git }
}

#[test]
fn the_root_is_discovered() {
    let up = vec![dir("/a/b/c", false, false), dir("/a/b", false, true), dir("/a", true, false), dir("/", true, true)];
    // A workspace goes before a nearer git directory; the nearest of each counts.
    assert_eq!(Repo::discover("/a/b/c", &up).root, "/a");
    let up = vec![dir("/a/b", false, false), dir("/a", false, true), dir("/", false, true)];
    assert_eq!(Repo::discover("/a/b", &up).root, "/a");
    assert_eq!(Repo::discover("/a/b", &vec![dir("/a/b", false, false)]).root, "/a/b");
}

fn globs(includes: &[&str], excludes: &[&str]) -> IndexConfig {
    let mut c = SynapseConfig::default().index;
    c.includes = includes.iter().map(|s| s.to_string()).collect();
    c.excludes = excludes.iter().map(|s| s.to_string()).collect();
    c
}

#[test]
fn candidates_are_clean_and_sorted() {
    let repo = Repo { root: "/r".to_string() };
    let walked: Vec<String> =
        ["src\\b.rs", "src/a.rs", "src/b.rs", "target/x.rs", ".synapse/graph/y.rs", ".synapse", "notes.txt"]
            .iter()
            .map(|s| s.to_string())
            .collect();
    let c = globs(&["**/*.rs", ".synapse"], &["target/**"]);
    assert_eq!(repo.candidate_files(&c, walked).unwrap(), vec!["src/a.rs", "src/b.rs"]);
    let e = repo.candidate_files(&globs(&["**/*.rs", "a{b"], &["["]), vec![]).unwrap_err();
    assert_eq!(e, SynapseError::Invalid("invalid glob `a{b`".to_string()));
    let e = repo.candidate_files(&globs(&["**"], &["["]), vec![]).unwrap_err();
    assert_eq!(e.message(), "invalid glob `[`");
}

#[test]
fn exclusion_wins_over_inclusion() {
    let all = build_globset(&vec!["**/*.rs".to_string()]).unwrap();
    let none = build_globset(&vec![]).unwrap();
    assert!(path_matches(&all, &none, "a/b.rs"));
    assert!(!path_matches(&all, &all, "a/b.rs"));
    assert!(!path_matches(&none, &none, "a/b.rs"));
    assert!(build_globset(&vec!["x[".to_string()]).is_err());
}

#[test]
fn slashes_are_normalized() {
    assert_eq!(normalize("a\\b/c\\"), "a/b/c/");
    assert_eq!(normalize(&normalize("a\\b")), normalize("a\\b"));
}

#[test]
fn git_output_is_read() {
    let s = |x: &str| Some(x.to_string());
    assert_eq!(output_text(true, " main\n"), s("main"));
    assert_eq!(output_text(false, "main"), None);
    let i = info(s("main"), s(""));
    assert_eq!((i.branch, i.commit), (s("main"), None));
    assert_eq!(full_commit(s("abc")), s("abc"));
    assert_eq!(full_commit(None), None);
    assert!(is_git_repo(s("true")));
    assert!(!is_git_repo(s("false")));
    assert!(!is_git_repo(None));
    assert_eq!(tracked_files(&s("b\\x\r\na")), vec!["b/x", "a"]);
    assert!(tracked_files(&None).is_empty());
    assert_eq!(changed_files(&s("b\na"), &s(""), &s("c\\d\nb")), vec!["a", "b", "c/d"]);
    assert!(changed_files(&None, &None, &None).is_empty());
    assert_eq!(diff(s("")), None);
    assert_eq!(diff(s("+x")), s("+x"));
}

#[test]
fn paths_tell_the_language() {
    for (path, lang) in [
        ("A.CS", Language::CSharp),
        ("x.pyi", Language::Python),
        ("x.cjs", Language::JavaScript),
        ("a.b.ts", Language::TypeScript),
        ("x.zsh", Language::Bash),
        ("x.yml", Language::Yaml),
        ("Makefile", Language::Other),
        (".rs", Language::Other),
        ("dir.rs/file", Language::Other),
        ("main.go", Language::Go),
    ] {
        assert_eq!(detect(path), lang, "{path}");
    }
    assert!(is_jsx("a.TSX") && !is_jsx("a.ts"));
    assert!(is_test_file("a/test_x.py") && is_test_file("a/__tests__/x.js") && is_test_file("latest.rs"));
    assert!(!is_test_file("tests/x.py"));
    assert!(is_config_file("a.PROPS") && !is_config_file("a.cs"));
    assert!(is_generated("a.min.js") && !is_generated("a.js"));
    assert!(is_lockfile("x/Cargo.lock") && !is_lockfile("Cargo.toml"));
}

#[test]
fn languages_can_be_switched_off() {
    let mut l = SynapseConfig::default().index.languages;
    assert!(language_enabled(&l, Language::Go));
    l.go = false;
    assert!(!language_enabled(&l, Language::Go));
    assert!(!language_enabled(&l, Language::Other));
}

#[test]
fn defaults_are_documented_ones() {
    let c = SynapseConfig::default();
    assert_eq!(c.repo.root, ".");
    assert_eq!((c.graph.backend.as_str(), c.graph.path.as_str()), ("ladybug", ".synapse/graph"));
    assert_eq!((c.pack.default_budget, c.pack.default_format.as_str()), (40000, "markdown"));
    assert!(c.pack.include_selection_reasons);
    assert_eq!((c.index.includes.len(), c.index.excludes.len()), (29, 17));
    assert_eq!(c.share.moving_tag, "latest");
    assert_eq!(c, SynapseConfig::default());
}

#[test]
fn every_error_has_its_message() {
    let s = |x: &str| x.to_string();
    for (e, text) in [
        (
            SynapseError::NotInitialized,
            "no Synapse workspace found (looked for `.synapse/synapse.toml`); run `synapse init` first",
        ),
        (SynapseError::ConfigExists(s("c")), "`c` already exists; use --force to overwrite"),
        (SynapseError::Unsupported(s("x")), "graph operation not supported by the active backend: x"),
        (SynapseError::Backend(s("x")), "graph backend error: x"),
        (
            SynapseError::PushDisabled,
            "push is disabled; set `push_enabled = true` in the [share] section of .synapse/synapse.toml to allow it",
        ),
        (
            SynapseError::ShareNotConfigured,
            "share target not configured; set `registry` and `repository` in the [share] section (or pass --registry/--repository)",
        ),
        (
            SynapseError::DirtyTree(12),
            "working tree has uncommitted changes (12 file(s)); commit/stash or pass --allow-dirty (the graph is tagged by commit)",
        ),
        (
            SynapseError::PushNotConfirmed,
            "push not confirmed (interactive confirmation required, or pass --yes)",
        ),
        (SynapseError::RegistryNetwork(s("x")), "registry network error: x"),
        (SynapseError::RegistryAuth(s("x")), "registry authentication failed: x"),
        (
            SynapseError::IntegrityMismatch,
            "pulled graph failed integrity check (blake3 mismatch); the artifact may be corrupt",
        ),
        (SynapseError::Invalid(s("plain")), "plain"),
    ] {
        assert_eq!(e.message(), text);
    }
}
