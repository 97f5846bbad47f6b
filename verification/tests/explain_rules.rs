use cargo_shed::explain::rule;
use cargo_shed::rules::{registry, Rule};
use cargo_shed::lockfile::Lockfile;
use cargo_shed::manifest::Manifest;
use cargo_shed::project::Project;
use cargo_shed::scan::SourceIndex;
use cargo_shed::ShedError;

#[test]
fn every_registered_rule_is_explained() {
    for registered in registry() {
        let text = rule(registered.id()).unwrap();
        assert!(text.starts_with(registered.id()));
    }
}

#[test]
fn unknown_rule_is_an_error() {
    let error = rule("no-such-rule").unwrap_err();
    assert_eq!(
        error,
        ShedError::UnknownRule { rule_id: "no-such-rule".to_string() }
    );
    assert_eq!(error.message(), "unknown rule: no-such-rule");
}

#[test]
fn tokio_explanation_mentions_the_safe_fix() {
    let text = rule("tokio-full").unwrap();
    assert!(text.contains("The safe fix replaces full"));
}

#[test]
fn every_reported_issue_names_an_explained_rule() {
    let manifest = Manifest::parse(
        "/w/Cargo.toml",
        "[package]\nname = \"w\"\n[dependencies]\ntokio = { version = \"1\", features = [\"full\"] }\nreqwest = \"0.12\"\nchrono = \"0.4\"\nopenssl = \"0.10\"\n".to_string(),
    )
    .unwrap();
    let lock = Lockfile::parse(
        "/w/Cargo.lock",
        "version = 4\n[[package]]\nname = \"syn\"\nversion = \"1.0.0\"\n[[package]]\nname = \"syn\"\nversion = \"2.0.0\"\n",
    )
    .unwrap();
    let project = Project::new("/w".to_string(), "/w/Cargo.toml".to_string(), manifest, Some(lock), SourceIndex { files: Vec::new() });
    let report = cargo_shed::analyze(project);
    assert!(!report.issues.is_empty());
    for issue in &report.issues {
        assert!(rule(&issue.rule_id).is_ok());
    }
}
