use runner::error::RunError;
use runner::manifest::{merge_dependencies, synthesize_manifest};

fn names(list: &[&str]) -> Vec<String> {
    list.iter().map(|s| s.to_string()).collect()
}

const SKELETON: &str = "[package]\nname = \"demo\"\nversion = \"0.1.0\"\nedition = \"2021\"\n\n[dependencies]\n";

#[test]
fn empty_set_leaves_manifest_alone() {
    assert_eq!(synthesize_manifest(SKELETON, &names(&[])), Ok(None));
    assert_eq!(synthesize_manifest("not [valid", &names(&[])), Ok(None));
}

#[test]
fn existing_table_gets_wildcards() {
    let out = synthesize_manifest(SKELETON, &names(&["rand"])).unwrap().unwrap();
    let doc: toml_edit::DocumentMut = out.parse().unwrap();
    assert_eq!(doc["dependencies"]["rand"].as_str(), Some("*"));
    assert_eq!(doc["package"]["name"].as_str(), Some("demo"));
}

#[test]
fn other_entries_are_kept() {
    let text = "[package]\nname = \"demo\"\n\n[dependencies]\nserde = \"1.0\"\nrand = \"0.8\"\n";
    let out = synthesize_manifest(text, &names(&["rand", "tokio"])).unwrap().unwrap();
    let doc: toml_edit::DocumentMut = out.parse().unwrap();
    let deps = doc["dependencies"].as_table().unwrap();
    assert_eq!(deps.len(), 3);
    assert_eq!(deps["serde"].as_str(), Some("1.0"));
    assert_eq!(deps["rand"].as_str(), Some("*"));
    assert_eq!(deps["tokio"].as_str(), Some("*"));
}

#[test]
fn missing_table_is_created() {
    let text = "[package]\nname = \"demo\"\n";
    let out = synthesize_manifest(text, &names(&["rand"])).unwrap().unwrap();
    let doc: toml_edit::DocumentMut = out.parse().unwrap();
    let deps = doc["dependencies"].as_table().unwrap();
    assert_eq!(deps.len(), 1);
    assert_eq!(deps["rand"].as_str(), Some("*"));
}

#[test]
fn non_table_dependencies_is_replaced() {
    let text = "dependencies = \"oops\"\n";
    let out = synthesize_manifest(text, &names(&["rand"])).unwrap().unwrap();
    let doc: toml_edit::DocumentMut = out.parse().unwrap();
    let deps = doc["dependencies"].as_table().unwrap();
    assert_eq!(deps.len(), 1);
    assert_eq!(deps["rand"].as_str(), Some("*"));
}

#[test]
fn synthesis_is_idempotent() {
    let deps = names(&["rand", "tokio"]);
    let once = synthesize_manifest(SKELETON, &deps).unwrap().unwrap();
    let twice = synthesize_manifest(&once, &deps).unwrap().unwrap();
    assert_eq!(once, twice);
    let mut doc: toml_edit::DocumentMut = SKELETON.parse().unwrap();
    merge_dependencies(&mut doc, &deps);
    let first = doc["dependencies"].to_string();
    merge_dependencies(&mut doc, &deps);
    assert_eq!(doc["dependencies"].to_string(), first);
}

#[test]
fn malformed_manifest_fails() {
    let r = synthesize_manifest("[package\nname = ", &names(&["rand"]));
    assert!(matches!(r, Err(RunError::Manifest(m)) if !m.is_empty()));
}

#[test]
fn other_sections_are_untouched() {
    let text = "# demo manifest\n[package]\nname = \"demo\"\n\n[features]\nfast = []\n\n[dependencies]\nserde = { version = \"1\", features = [\"derive\"] }\n";
    let out = synthesize_manifest(text, &names(&["rand"])).unwrap().unwrap();
    let before: toml_edit::DocumentMut = text.parse().unwrap();
    let after: toml_edit::DocumentMut = out.parse().unwrap();
    assert_eq!(after["package"].to_string(), before["package"].to_string());
    assert_eq!(after["features"].to_string(), before["features"].to_string());
    assert_eq!(
        after["dependencies"]["serde"].to_string(),
        before["dependencies"]["serde"].to_string()
    );
    assert_eq!(after["dependencies"]["rand"].as_str(), Some("*"));
    assert!(out.starts_with("# demo manifest\n"));
}
