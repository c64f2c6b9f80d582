//! npm package manifests.

use synapse::indexer::node::parse_package_json;

#[test]
fn parses_name_deps_and_scripts() {
    let json = r#"{
        "name": "my-pkg",
        "dependencies": { "react": "^18.0.0", "axios": "1.2.3" },
        "devDependencies": { "vitest": "^1.0.0" },
        "peerDependencies": { "react": ">=17" },
        "scripts": { "build": "tsc", "test": "vitest" }
    }"#;
    let d = parse_package_json(json).unwrap();
    assert_eq!(d.name.as_deref(), Some("my-pkg"));

    // Sorted by (kind, name): dependency < devDependency < peerDependency.
    let got: Vec<_> = d
        .dependencies
        .iter()
        .map(|x| (x.kind.as_str(), x.name.as_str(), x.version.as_str()))
        .collect();
    assert_eq!(
        got,
        vec![
            ("dependency", "axios", "1.2.3"),
            ("dependency", "react", "^18.0.0"),
            ("devDependency", "vitest", "^1.0.0"),
            ("peerDependency", "react", ">=17"),
        ]
    );

    assert_eq!(
        d.scripts,
        vec![
            ("build".to_string(), "tsc".to_string()),
            ("test".to_string(), "vitest".to_string()),
        ]
    );
}

#[test]
fn tolerates_missing_and_wrong_typed_fields() {
    let json = r#"{
        "name": 42,
        "dependencies": null,
        "devDependencies": ["not", "an", "object"],
        "scripts": { "build": 7, "ok": "echo hi" }
    }"#;
    let d = parse_package_json(json).unwrap();
    assert_eq!(d.name, None);
    assert!(d.dependencies.is_empty());
    assert_eq!(d.scripts, vec![("ok".to_string(), "echo hi".to_string())]);
}

#[test]
fn empty_object_is_ok() {
    let d = parse_package_json("{}").unwrap();
    assert_eq!(d.name, None);
    assert!(d.dependencies.is_empty());
    assert!(d.scripts.is_empty());
}

#[test]
fn invalid_json_errors() {
    assert!(parse_package_json("{ not json").is_err());
}
