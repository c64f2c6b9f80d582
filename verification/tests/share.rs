//! Sharing a graph through a registry.

use synapse::config::ShareConfig;
use synapse::share::{
    compare_commit, push_tags, resolve_pull_tag, GraphArtifactMeta, GraphFreshness, ANNOT_BLAKE3, ANNOT_BRANCH, ANNOT_COMMIT,
    ANNOT_REVISION,
};

#[test]
fn compare_commit_matches_equal_and_prefixes() {
    assert_eq!(
        compare_commit(Some("abcdef123456"), Some("abcdef123456")),
        GraphFreshness::Match
    );
    // short tag vs full annotation: prefix match.
    assert_eq!(
        compare_commit(Some("abcdef1"), Some("abcdef123456")),
        GraphFreshness::Match
    );
    assert!(matches!(
        compare_commit(Some("abcdef1"), Some("999999123456")),
        GraphFreshness::Mismatch { .. }
    ));
    assert_eq!(compare_commit(None, Some("abc")), GraphFreshness::Unknown);
    assert_eq!(compare_commit(Some("abc"), None), GraphFreshness::Unknown);
}

#[test]
fn tag_resolution_precedence() {
    // explicit wins.
    assert_eq!(resolve_pull_tag(Some("v1"), "latest"), "v1");
    // otherwise the moving tag (NOT the local HEAD commit — that usually
    // wouldn't exist in the registry for a teammate on a different commit).
    assert_eq!(resolve_pull_tag(None, "latest"), "latest");
    assert_eq!(resolve_pull_tag(Some(""), "latest"), "latest");
}

#[test]
fn push_tags_include_commit_and_moving() {
    let tags = push_tags(None, Some("abc1234"), "latest");
    assert_eq!(tags, vec!["abc1234".to_string(), "latest".to_string()]);
    // explicit replaces the per-commit tag but moving tag still added.
    let tags = push_tags(Some("release"), Some("abc1234"), "latest");
    assert_eq!(tags, vec!["release".to_string(), "latest".to_string()]);
    // no duplicate when explicit == moving tag.
    let tags = push_tags(Some("latest"), Some("abc1234"), "latest");
    assert_eq!(tags, vec!["latest".to_string()]);
}

#[test]
fn annotations_roundtrip() {
    let meta = GraphArtifactMeta {
        commit: Some("abcdef123456".into()),
        branch: Some("main".into()),
        repo_name: Some("synapse".into()),
        synapse_version: Some("0.1.5".into()),
        blob_blake3: Some("deadbeef".into()),
        created_at: Some("2026-06-02T00:00:00+00:00".into()),
    };
    let a = meta.to_annotations();
    // Standard + namespaced commit keys both present.
    assert_eq!(a.get(ANNOT_REVISION).unwrap(), "abcdef123456");
    assert_eq!(a.get(ANNOT_COMMIT).unwrap(), "abcdef123456");
    assert_eq!(a.get(ANNOT_BLAKE3).unwrap(), "deadbeef");
    // Round-trips back to the same metadata.
    assert_eq!(GraphArtifactMeta::from_annotations(&a), meta);
}

#[test]
fn empty_fields_are_omitted_from_annotations() {
    let meta = GraphArtifactMeta {
        commit: Some("abc".into()),
        ..Default::default()
    };
    let a = meta.to_annotations();
    assert!(a.contains_key(ANNOT_COMMIT));
    assert!(!a.contains_key(ANNOT_BRANCH));
    assert!(!a.contains_key(ANNOT_BLAKE3));
}

#[test]
fn share_config_default_is_pull_only() {
    let c = ShareConfig::default();
    assert!(!c.push_enabled);
    assert_eq!(c.protocol, "https");
    assert_eq!(c.auth, "auto");
}
