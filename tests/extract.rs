use runner::error::RunError;
use runner::source::extract_external_dependencies;
use std::collections::HashSet;

fn dependency_set(content: &str) -> HashSet<String> {
    let deps = extract_external_dependencies(content).unwrap();
    let set: HashSet<String> = deps.iter().cloned().collect();
    assert_eq!(set.len(), deps.len(), "names are listed once each");
    set
}

#[test]
fn extract_single_dependency() {
    let content = "use rand::Rng;\n\nfn main() {\n  let x: u32 = rand::thread_rng().gen_range(1..=100);\n  println!(\"Random number: {}\", x);\n}\n";

    let dependencies = dependency_set(content);

    assert_eq!(dependencies, HashSet::from(["rand".to_string()]));
}

#[test]
fn extract_multiple_dependencies() {
    let content = "use rand::Rng;\nuse serde_json::Value;\nuse reqwest::Client;\n\nfn main() {\n  // Some code using these dependencies\n}\n";

    let dependencies = dependency_set(content);

    assert_eq!(
        dependencies,
        HashSet::from([
            "rand".to_string(),
            "serde_json".to_string(),
            "reqwest".to_string()
        ])
    );
}

#[test]
fn ignore_std_dependencies() {
    let content = "use std::collections::HashMap;\nuse std::io::Read;\n\nfn main() {\n  // Some code using std\n}\n";

    let dependencies = dependency_set(content);

    assert!(dependencies.is_empty());
}

#[test]
fn nested_use_statements() {
    let content = "use tokio::{\n  io::{AsyncReadExt, AsyncWriteExt},\n  net::TcpStream,\n};\n\nfn main() {\n  // Some async code\n}\n";

    let dependencies = dependency_set(content);

    assert_eq!(dependencies, HashSet::from(["tokio".to_string()]));
}

#[test]
fn mixed_dependencies() {
    let content = "use std::collections::HashMap;\nuse rand::Rng;\nuse tokio::io::{AsyncReadExt, AsyncWriteExt};\nuse crate::some_module::SomeStruct;\n\nfn main() {\n  // Mixed dependencies\n}\n";

    let dependencies = dependency_set(content);

    assert_eq!(
        dependencies,
        HashSet::from(["rand".to_string(), "tokio".to_string()])
    );
}

#[test]
fn no_dependencies() {
    let content = "fn main() {\n  println!(\"Hello, world!\");\n}\n";

    let dependencies = dependency_set(content);

    assert!(dependencies.is_empty());
}

#[test]
fn single_import_with_empty_main() {
    assert_eq!(
        dependency_set("use rand::Rng; fn main(){}"),
        HashSet::from(["rand".to_string()])
    );
}

#[test]
fn nested_group_collapses_to_leading_name() {
    assert_eq!(
        dependency_set("use tokio::{io::{A,B}, net::C};"),
        HashSet::from(["tokio".to_string()])
    );
}

#[test]
fn mixed_with_crate_import() {
    assert_eq!(
        dependency_set("use rand::Rng; use tokio::io::{A,B}; use crate::m::S;"),
        HashSet::from(["rand".to_string(), "tokio".to_string()])
    );
}

#[test]
fn group_with_several_external_branches() {
    let deps = extract_external_dependencies("use {rand::Rng, serde::Serialize, rand::random};").unwrap();
    assert_eq!(deps.len(), 2);
    let set: HashSet<String> = deps.into_iter().collect();
    assert_eq!(set, HashSet::from(["rand".to_string(), "serde".to_string()]));
}

#[test]
fn reserved_roots_at_any_depth() {
    let content = "use {std::io, self::a::b, super::c, crate::{d, e::f}, {{std::fmt}}};";
    assert!(dependency_set(content).is_empty());
}

#[test]
fn repeated_import_listed_once() {
    let deps = extract_external_dependencies("use rand::Rng;\nuse rand::random;\nfn f() {}\n").unwrap();
    assert_eq!(deps, vec!["rand".to_string()]);
}

#[test]
fn malformed_source_fails() {
    assert_eq!(
        extract_external_dependencies("use rand::Rng\nfn main( {"),
        Err(RunError::Parse)
    );
}
