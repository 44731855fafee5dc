use runner::error::RunError;
use runner::runner::{
    build_outcome, cache_base, trim_end, classify_extension, exit_status, language_of, source_argument,
    Language, CACHE_DIR, REGISTRY_DIR, TARGET_DIR,
};

fn args(list: &[&str]) -> Vec<String> {
    list.iter().map(|s| s.to_string()).collect()
}

#[test]
fn exactly_one_argument_is_accepted() {
    assert_eq!(source_argument(&args(&["run", "a.rs"])), Ok("a.rs".to_string()));
    assert_eq!(source_argument(&args(&["run"])), Err(RunError::Usage));
    assert_eq!(source_argument(&args(&["run", "a.rs", "b.rs"])), Err(RunError::Usage));
    assert_eq!(source_argument(&args(&[])), Err(RunError::Usage));
}

#[test]
fn known_extensions_select_a_language() {
    assert_eq!(language_of("script.rs"), Ok(Language::Rust));
    assert_eq!(language_of("dir/tool.py"), Ok(Language::Python));
    assert_eq!(classify_extension("rs"), Ok(Language::Rust));
    assert_eq!(classify_extension("py"), Ok(Language::Python));
}

#[test]
fn unknown_extension_is_refused() {
    assert_eq!(
        language_of("notes.xyz"),
        Err(RunError::UnsupportedExtension("xyz".to_string()))
    );
    assert_eq!(
        language_of("Main.RS"),
        Err(RunError::UnsupportedExtension("RS".to_string()))
    );
    assert_eq!(
        language_of("archive.tar.gz"),
        Err(RunError::UnsupportedExtension("gz".to_string()))
    );
}

#[test]
fn missing_extension_is_refused() {
    assert_eq!(language_of("Makefile"), Err(RunError::UnsupportedExtension(String::new())));
    assert_eq!(language_of(".rs"), Err(RunError::UnsupportedExtension(String::new())));
}

#[test]
fn successful_build_prints_trimmed_output() {
    assert_eq!(build_outcome(true, "  hello\n\t \n", "warning"), Ok("  hello".to_string()));
    assert_eq!(build_outcome(true, "", ""), Ok(String::new()));
}

#[test]
fn failed_build_carries_error_text() {
    assert_eq!(
        build_outcome(false, "partial", "error[E0425]: cannot find value"),
        Err(RunError::Process("error[E0425]: cannot find value".to_string()))
    );
}

#[test]
fn exit_status_follows_outcome() {
    assert_eq!(exit_status(&Ok(())), 0);
    assert_eq!(exit_status(&Err(RunError::Usage)), 1);
    assert_eq!(exit_status(&Err(RunError::UnsupportedExtension("xyz".to_string()))), 1);
}

#[test]
fn cache_base_falls_back_to_current_directory() {
    assert_eq!(cache_base(Some("/home/u".to_string())), "/home/u");
    assert_eq!(cache_base(None), ".");
    assert_eq!((CACHE_DIR, REGISTRY_DIR, TARGET_DIR), (".run_cache", "registry", "target"));
}

#[test]
fn trailing_unicode_white_space_is_trimmed() {
    assert_eq!(trim_end("caf\u{e9} \u{3000}\u{a0}\r\n"), "caf\u{e9}");
    assert_eq!(trim_end(" \t\n"), "");
    assert_eq!(trim_end("a b"), "a b");
}
