//! Pushing and pulling: guards, tags, credentials, integrity.

use synapse::commands::status::{origin_commit, read_origin};
use synapse::config::ShareConfig;
use synapse::errors::SynapseError;
use synapse::share::{
    auth_sources, compare_commit, confirm_push, env_credentials, fetch_meta, freshness_note, origin_json, plan_push,
    pull_graph, pull_target, push_graph, push_tags, registry_error, resolve_share_coords, uses_plain_http, Annotations,
    AuthSource, Credentials, GraphArtifactMeta, GraphFreshness, PushFacts, ShareTarget, ANNOT_BLAKE3, ANNOT_CREATED,
    ANNOT_REVISION, ANNOT_TITLE, ANNOT_VERSION,
};

fn config() -> ShareConfig {
    let mut c = ShareConfig::default();
    c.registry = "ghcr.io".to_string();
    c.repository = "org/graph".to_string();
    c.push_enabled = true;
    c
}

fn facts() -> PushFacts {
    PushFacts {
        registry: None,
        repository: None,
        tag: None,
        allow_dirty: false,
        repo_name: "demo".to_string(),
        graph_path: "/r/.synapse/graph/synapse.lbug".to_string(),
        graph: Some(b"graph".to_vec()),
        changed: 0,
        full_commit: Some("abcdef1234".to_string()),
        short_commit: Some("abcdef1".to_string()),
        branch: Some("main".to_string()),
        version: "0.1.5".to_string(),
        now: "2026-06-01T00:00:00+00:00".to_string(),
    }
}

fn refused(c: &ShareConfig, f: PushFacts) -> SynapseError {
    match plan_push(c, f) {
        Ok(_) => panic!("not refused"),
        Err(e) => e,
    }
}

#[test]
fn a_push_that_passes_every_guard() {
    let p = match plan_push(&config(), facts()) {
        Ok(p) => p,
        Err(e) => panic!("{}", e.message()),
    };
    assert_eq!((p.registry.as_str(), p.repository.as_str()), ("ghcr.io", "org/graph"));
    assert_eq!(p.tags, vec!["abcdef1", "latest"]);
    assert_eq!(p.bytes, b"graph".to_vec());
    assert_eq!(p.meta.commit.as_deref(), Some("abcdef1234"));
    assert_eq!(p.meta.repo_name.as_deref(), Some("demo"));
    assert_eq!(p.meta.blob_blake3, Some(blake3::hash(b"graph").to_hex().to_string()));
    let mut f = facts();
    f.repo_name = String::new();
    f.changed = 3;
    f.allow_dirty = true;
    f.registry = Some("other.io".to_string());
    f.repository = Some(String::new());
    let p = match plan_push(&config(), f) {
        Ok(p) => p,
        Err(e) => panic!("{}", e.message()),
    };
    assert_eq!((p.registry.as_str(), p.repository.as_str()), ("other.io", "org/graph"));
    assert_eq!(p.meta.repo_name, None);
}

#[test]
fn each_guard_refuses_in_turn() {
    let mut f = facts();
    f.graph = None;
    f.changed = 2;
    f.full_commit = None;
    let mut off = config();
    off.push_enabled = false;
    off.registry = String::new();
    assert_eq!(refused(&off, f), SynapseError::PushDisabled);
    let mut f = facts();
    f.graph = None;
    f.changed = 2;
    f.full_commit = None;
    let mut bare = config();
    bare.repository = String::new();
    assert_eq!(refused(&bare, f), SynapseError::ShareNotConfigured);
    let mut f = facts();
    f.graph = None;
    f.changed = 2;
    assert_eq!(
        refused(&config(), f).message(),
        "no graph at /r/.synapse/graph/synapse.lbug — run `synapse index` first"
    );
    let mut f = facts();
    f.changed = 2;
    f.full_commit = None;
    assert_eq!(refused(&config(), f), SynapseError::DirtyTree(2));
    let mut f = facts();
    f.full_commit = None;
    assert_eq!(
        refused(&config(), f).message(),
        "cannot determine HEAD commit; not a git repo with commits"
    );
    assert_eq!(refused(&ShareConfig::default(), facts()), SynapseError::PushDisabled);
}

#[test]
fn a_push_has_to_be_confirmed() {
    let plan = match plan_push(&config(), facts()) {
        Ok(p) => p,
        Err(e) => panic!("{}", e.message()),
    };
    let right = format!(" {}\n", plan.repository);
    assert!(confirm_push(&plan, true, false, "").is_ok());
    assert!(confirm_push(&plan, false, true, &right).is_ok());
    assert_eq!(confirm_push(&plan, false, true, "yes"), Err(SynapseError::PushNotConfirmed));
    assert_eq!(confirm_push(&plan, false, false, &right), Err(SynapseError::PushNotConfirmed));
}

#[test]
fn what_is_pushed_is_accepted_on_pull() {
    let p = match plan_push(&config(), facts()) {
        Ok(p) => p,
        Err(e) => panic!("{}", e.message()),
    };
    let a = p.meta.to_annotations();
    let pulled = match pull_graph(Some(p.bytes), &Some(a)) {
        Ok(g) => g,
        Err(e) => panic!("{}", e.message()),
    };
    assert_eq!(pulled.bytes, b"graph".to_vec());
    assert_eq!(pulled.meta, p.meta);
    // One changed byte is found out.
    let a = p.meta.to_annotations();
    match pull_graph(Some(b"grapH".to_vec()), &Some(a)) {
        Ok(_) => panic!("accepted"),
        Err(e) => assert_eq!(e, SynapseError::IntegrityMismatch),
    }
    // Without an annotation there is nothing to hold it against.
    assert!(pull_graph(Some(b"x".to_vec()), &None).is_ok());
    match pull_graph(None, &None) {
        Ok(_) => panic!("accepted"),
        Err(e) => assert_eq!(e.message(), "pulled artifact has no layers"),
    }
}

#[test]
fn annotations_are_a_map() {
    let mut a = Annotations::new();
    assert!(!a.contains_key("k"));
    a.insert("k", "1");
    a.insert("k", "2");
    a.insert("b", "");
    assert_eq!(a.get("k").unwrap(), "2");
    assert_eq!(a.get("b").unwrap(), "");
    assert!(a.get("c").is_none());
    // The standard revision key is the fallback; empty values count as missing.
    let mut a = Annotations::new();
    a.insert(ANNOT_REVISION, "abc");
    a.insert(ANNOT_TITLE, "");
    a.insert(ANNOT_CREATED, "now");
    a.insert(ANNOT_VERSION, "1");
    a.insert(ANNOT_BLAKE3, "ff");
    let m = fetch_meta(&Some(a));
    assert_eq!(m.commit.as_deref(), Some("abc"));
    assert_eq!(m.repo_name, None);
    assert_eq!(m.created_at.as_deref(), Some("now"));
    assert_eq!(m.synapse_version.as_deref(), Some("1"));
    assert_eq!(m.blob_blake3.as_deref(), Some("ff"));
    assert_eq!(fetch_meta(&None), GraphArtifactMeta::default());
}

#[test]
fn the_config_blob_is_compact_json() {
    let mut m = GraphArtifactMeta::default();
    m.commit = Some("abc".to_string());
    let blob = String::from_utf8(m.to_config_blob()).unwrap();
    assert_eq!(
        blob,
        r#"{"blake3":null,"branch":null,"commit":"abc","createdAt":null,"repo":null,"schemaVersion":1,"synapseVersion":null,"tool":"synapse"}"#
    );
}

#[test]
fn coordinates_come_from_config_or_override() {
    let c = config();
    assert_eq!(
        resolve_share_coords(&c, &None, &Some("x/y".to_string())),
        Ok(("ghcr.io".to_string(), "x/y".to_string()))
    );
    assert_eq!(
        resolve_share_coords(&ShareConfig::default(), &Some("r".to_string()), &None),
        Err(SynapseError::ShareNotConfigured)
    );
    let t = pull_target(&c, &None, &None, None).unwrap();
    assert_eq!(t.display(), "ghcr.io/org/graph:latest");
    let t = pull_target(&c, &None, &None, Some("abc")).unwrap();
    assert_eq!(t.tag, "abc");
    assert_eq!(pull_target(&ShareConfig::default(), &None, &None, None), Err(SynapseError::ShareNotConfigured));
    assert_eq!(push_tags(Some(""), None, ""), Vec::<String>::new());
}

#[test]
fn credentials_are_asked_in_order() {
    let sources = |auth: &str| {
        let mut c = config();
        c.auth = auth.to_string();
        auth_sources(&c)
    };
    assert_eq!(sources("auto"), vec![AuthSource::Environment, AuthSource::Docker]);
    assert_eq!(sources("whatever"), vec![AuthSource::Environment, AuthSource::Docker]);
    assert_eq!(sources("env"), vec![AuthSource::Environment]);
    assert_eq!(sources("docker"), vec![AuthSource::Docker]);
    assert_eq!(sources("anonymous"), vec![]);
    let s = |x: &str| Some(x.to_string());
    assert_eq!(env_credentials(s("t"), s("u"), s("p")), Some(Credentials::Bearer("t".to_string())));
    assert_eq!(env_credentials(s(""), s("u"), s("")), Some(Credentials::Basic("u".to_string(), String::new())));
    assert_eq!(env_credentials(None, s(""), s("p")), None);
    assert_eq!(env_credentials(None, s("u"), None), None);
    assert!(!uses_plain_http(&config()));
    let mut c = config();
    c.protocol = "http".to_string();
    assert!(uses_plain_http(&c));
}

#[test]
fn registry_failures_are_told_apart() {
    assert_eq!(registry_error("Not Authorized".to_string()), SynapseError::RegistryAuth("Not Authorized".to_string()));
    assert_eq!(registry_error("status 401".to_string()), SynapseError::RegistryAuth("status 401".to_string()));
    assert_eq!(registry_error("timeout".to_string()), SynapseError::RegistryNetwork("timeout".to_string()));
}

#[test]
fn freshness_is_surfaced() {
    assert_eq!(freshness_note(&GraphFreshness::Unknown), None);
    assert_eq!(freshness_note(&GraphFreshness::Match), Some("Graph matches local HEAD commit.".to_string()));
    let stale = compare_commit(Some("aaa"), Some("bbb"));
    assert_eq!(
        freshness_note(&stale).unwrap(),
        "warning: pulled graph was indexed at commit aaa, but local HEAD is bbb; symbols/edges may not reflect your working tree — run `synapse index` to refresh"
    );
    // Hex digits match in either case; an empty commit tells nothing.
    assert_eq!(compare_commit(Some("ABC"), Some("abcd")), GraphFreshness::Match);
    assert_eq!(compare_commit(Some(""), Some("abcd")), GraphFreshness::Unknown);
}

#[test]
fn the_origin_is_recorded() {
    let target = ShareTarget {
        registry: "r".to_string(),
        repository: "p/q".to_string(),
        tag: "latest".to_string(),
    };
    let mut meta = GraphArtifactMeta::default();
    meta.commit = Some("abc".to_string());
    let text = origin_json(&target, &meta, "now");
    assert_eq!(origin_commit(&read_origin(&Some(text.clone()))), Some("abc".to_string()));
    let doc: serde_json::Value = serde_json::from_str(&text).unwrap();
    assert_eq!(doc["source"], "registry");
    assert_eq!(doc["registry"], "r");
    assert_eq!(doc["repository"], "p/q");
    assert_eq!(doc["tag"], "latest");
    assert_eq!(doc["commit"], "abc");
    assert!(doc["branch"].is_null());
    assert_eq!(doc["pulledAt"], "now");
}

#[test]
fn a_push_reports_the_last_reply() {
    let tags = vec!["a".to_string(), "latest".to_string()];
    let o = push_graph(&tags, &vec!["u1".to_string(), "u2".to_string()]);
    assert_eq!(o.references, tags);
    assert_eq!(o.digest, "u2");
    assert_eq!(push_graph(&vec![], &vec![]).digest, "");
}
