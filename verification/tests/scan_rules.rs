use cargo_shed::scan::{
    contains_crate_suffix, contains_extern_crate, index_sources, is_rust_source, source_dirs,
    source_mentions_crate, SourceFile, SourceIndex,
};

#[test]
fn detects_crate_paths() {
    assert!(source_mentions_crate(
        "use serde_json::Value;",
        "serde_json"
    ));
}

#[test]
fn ignores_longer_identifier_prefixes() {
    assert!(!source_mentions_crate("extern crate serde_json;", "serde"));
}

#[test]
fn crate_path_after_identifier_is_skipped_until_a_boundary() {
    assert!(!contains_crate_suffix("my_serde::x", "serde", "::"));
    assert!(contains_crate_suffix("my_serde::x; (serde::y)", "serde", "::"));
    assert!(contains_crate_suffix("serde::x", "serde", "::"));
}

#[test]
fn extern_crate_needs_an_identifier_boundary() {
    assert!(contains_extern_crate("extern crate anyhow;", "anyhow"));
    assert!(contains_extern_crate("extern crate anyhow", "anyhow"));
    assert!(!contains_extern_crate("extern crate anyhow2;", "anyhow"));
    assert!(contains_extern_crate("extern crate anyhow2; extern crate anyhow as a;", "anyhow"));
}

#[test]
fn other_mention_forms_are_detected() {
    assert!(source_mentions_crate("println!(\"x\"); log!(x)", "log"));
    assert!(source_mentions_crate("use rand;", "rand"));
    assert!(source_mentions_crate("use rand as r;", "rand"));
    assert!(source_mentions_crate("#[tokio]\nfn f() {}", "tokio"));
    assert!(source_mentions_crate("#[tracing(level)]", "tracing"));
    assert!(!source_mentions_crate("fn main() {}", "chrono"));
}

#[test]
fn source_index_answers_for_every_file() {
    let index = SourceIndex {
        files: vec![
            SourceFile { path: "a.rs".to_string(), text: "fn a() {}".to_string() },
            SourceFile { path: "b.rs".to_string(), text: "macro_rules! m { () => {} }".to_string() },
        ],
    };
    assert!(index.contains_token("fn a"));
    assert!(!index.contains_token("fn c"));
    assert!(index.has_ambiguous_generation());
    assert!(!index.crate_appears_used("serde"));
    let plain = SourceIndex {
        files: vec![SourceFile { path: "a.rs".to_string(), text: "serde::x()".to_string() }],
    };
    assert!(!plain.has_ambiguous_generation());
    assert!(plain.crate_appears_used("serde"));
}

#[test]
fn crate_path_is_found_past_several_longer_identifiers() {
    assert!(contains_crate_suffix("aserde::x bserde::y (serde::z)", "serde", "::"));
    assert!(!contains_crate_suffix("aserde::x bserde::y", "serde", "::"));
    assert!(contains_crate_suffix("é serde!()", "serde", "!"));
}

#[test]
fn only_rust_files_are_scanned() {
    assert!(is_rust_source("/w/src/main.rs"));
    assert!(is_rust_source("lib.rs"));
    assert!(!is_rust_source("/w/src/notes.md"));
    assert!(!is_rust_source("/w/src/rs"));
    assert!(!is_rust_source("/w/src/.rs"));
}

#[test]
fn source_directories_are_src_and_tests() {
    assert_eq!(source_dirs("/w"), vec!["/w/src".to_string(), "/w/tests".to_string()]);
}

#[test]
fn sources_are_ordered_by_path_components() {
    let file = |p: &str| SourceFile { path: p.to_string(), text: String::new() };
    let index = index_sources(vec![
        file("/w/tests/a.rs"),
        file("/w/src/z.rs"),
        file("/w/src/a/b.rs"),
        file("/w/src/a.rs"),
        file("/w/src/a-b.rs"),
    ]);
    let paths: Vec<&str> = index.files.iter().map(|f| f.path.as_str()).collect();
    assert_eq!(
        paths,
        vec!["/w/src/a/b.rs", "/w/src/a-b.rs", "/w/src/a.rs", "/w/src/z.rs", "/w/tests/a.rs"]
    );
}
