use cargo_shed::fix::{Edit, FixSafety};
use cargo_shed::lockfile::Lockfile;
use cargo_shed::manifest::{DependencySection, Manifest};
use cargo_shed::project::Project;
use cargo_shed::rules::{
    format_features, infer_tokio_features, registry, run_all, sort_for_report,
    text_has_unknown_tokio_usage, Rule, TokioFullRule, UnusedDependencyRule,
};
use cargo_shed::scan::{SourceFile, SourceIndex};
use cargo_shed::{analyze, Issue, Report, Severity};

fn project(manifest: &str, lock: Option<&str>, files: &[(&str, &str)]) -> Project {
    let root = "/work/demo".to_string();
    let manifest_path = format!("{root}/Cargo.toml");
    let manifest = Manifest::parse(&manifest_path, manifest.to_string()).unwrap();
    let lockfile = lock.map(|raw| Lockfile::parse("/work/demo/Cargo.lock", raw).unwrap());
    let files = files
        .iter()
        .map(|(name, text)| SourceFile {
            path: format!("{root}/src/{name}"),
            text: text.to_string(),
        })
        .collect();
    Project::new(root, manifest_path, manifest, lockfile, SourceIndex { files })
}

fn analyze_project(manifest: &str, lock: Option<&str>, files: &[(&str, &str)]) -> Report {
    analyze(project(manifest, lock, files))
}

const PACKAGE: &str = r#"
            [package]
            name = "demo"
            version = "0.1.0"
            edition = "2024"
"#;

const SYN_LOCK: &str = r#"
            version = 4

            [[package]]
            name = "syn"
            version = "1.0.109"

            [[package]]
            name = "syn"
            version = "2.0.106"
            "#;

#[test]
fn registry_contains_mvp_rules() {
    let rule_ids = registry()
        .into_iter()
        .map(|rule| rule.id())
        .collect::<Vec<_>>();

    assert_eq!(
        rule_ids,
        vec![
            "tokio-full",
            "reqwest-default-features",
            "unused-dependency",
            "duplicate-versions",
            "heavy-crate",
        ]
    );
}

#[test]
fn tokio_full_reports_inferred_features() {
    let report = analyze_project(
        &format!(
            "{PACKAGE}\n[dependencies]\ntokio = {{ version = \"1\", features = [\"full\"] }}\n"
        ),
        None,
        &[(
            "main.rs",
            r#"
            #[tokio::main]
            async fn main() {
                tokio::time::sleep(std::time::Duration::from_secs(1)).await;
            }
            "#,
        )],
    );
    let issue = report
        .issues
        .iter()
        .find(|issue| issue.rule_id == "tokio-full")
        .unwrap();

    assert_eq!(issue.severity, Severity::High);
    assert!(
        issue
            .evidence
            .iter()
            .any(|evidence| evidence.value.contains("rt-multi-thread"))
    );
    assert!(
        issue
            .evidence
            .iter()
            .any(|evidence| evidence.value.contains("time"))
    );
}

#[test]
fn reqwest_default_features_reports_implicit_defaults() {
    let report = analyze_project(
        &format!(
            "{PACKAGE}\n[dependencies]\nreqwest = {{ version = \"0.12\", features = [\"json\"] }}\n"
        ),
        None,
        &[(
            "main.rs",
            r#"
            fn main() {
                let _client = reqwest::Client::new();
            }
            "#,
        )],
    );
    let issue = report
        .issues
        .iter()
        .find(|issue| issue.rule_id == "reqwest-default-features")
        .unwrap();

    assert_eq!(issue.severity, Severity::Medium);
    assert!(
        issue
            .evidence
            .iter()
            .any(|evidence| evidence.value == "implicit true")
    );
}

#[test]
fn unused_dependency_reports_missing_source_usage() {
    let report = analyze_project(
        &format!("{PACKAGE}\n[dependencies]\nchrono = \"0.4\"\n"),
        None,
        &[("main.rs", "fn main() {}")],
    );
    let issue = report
        .issues
        .iter()
        .find(|issue| issue.id == "unused-dependency:chrono")
        .unwrap();

    assert_eq!(issue.rule_id, "unused-dependency");
    assert_eq!(issue.severity, Severity::Medium);
}

#[test]
fn duplicate_versions_reports_lockfile_duplicates() {
    let report = analyze_project(PACKAGE, Some(SYN_LOCK), &[("main.rs", "fn main() {}")]);
    let issue = report
        .issues
        .iter()
        .find(|issue| issue.id == "duplicate-versions:syn")
        .unwrap();

    assert_eq!(issue.severity, Severity::High);
    assert!(
        issue
            .evidence
            .iter()
            .any(|evidence| evidence.value.contains("proc-macro stack"))
    );
}

#[test]
fn heavy_crate_reports_direct_heavy_dependency() {
    let report = analyze_project(
        &format!("{PACKAGE}\n[dependencies]\nopenssl = \"0.10\"\n"),
        None,
        &[(
            "main.rs",
            r#"
            fn main() {
                let _method = openssl::ssl::SslMethod::tls();
            }
            "#,
        )],
    );
    let issue = report
        .issues
        .iter()
        .find(|issue| issue.id == "heavy-crate:openssl")
        .unwrap();

    assert_eq!(issue.rule_id, "heavy-crate");
    assert_eq!(issue.severity, Severity::Low);
}

const FULL_MANIFEST: &str = r#"
            [package]
            name = "demo"
            version = "0.1.0"
            edition = "2024"

            [dependencies]
            chrono = "0.4"
            openssl = "0.10"
            reqwest = { version = "0.12", features = ["json"] }
            tokio = { version = "1", features = ["full"] }
            "#;

const FULL_MAIN: &str = r#"
            #[tokio::main]
            async fn main() {
                tokio::time::sleep(std::time::Duration::from_secs(1)).await;
                let _client = reqwest::Client::new();
                let _method = openssl::ssl::SslMethod::tls();
            }
            "#;

#[test]
fn full_project_scores_and_orders_issues() {
    let report = analyze_project(FULL_MANIFEST, Some(SYN_LOCK), &[("main.rs", FULL_MAIN)]);
    assert_eq!(report.score, 51);
    assert_eq!(report.summary().total, 5);
    let ids: Vec<&str> = report.issues.iter().map(|issue| issue.id.as_str()).collect();
    assert_eq!(
        ids,
        vec![
            "duplicate-versions:syn",
            "tokio-full",
            "reqwest-default-features",
            "unused-dependency:chrono",
            "heavy-crate:openssl",
        ]
    );
    assert_eq!(report.skipped_checks.len(), 0);
}

#[test]
fn tokio_fix_replaces_full_with_inferred_features() {
    let project = project(FULL_MANIFEST, None, &[("main.rs", FULL_MAIN)]);
    let issues = run_all(&project);
    let issue = issues.iter().find(|issue| issue.rule_id == "tokio-full").unwrap();
    assert_eq!(
        issue.suggestion.as_ref().unwrap().command.as_deref(),
        Some("cargo shed --fix tokio-full")
    );
    let fix = TokioFullRule.fix(&project, issue).unwrap();
    assert_eq!(fix.issue_id, "tokio-full");
    assert_eq!(fix.safety, FixSafety::Safe);
    assert_eq!(
        fix.edits,
        vec![Edit::ReplaceDependencyFeatures {
            section: DependencySection::Normal,
            name: "tokio".to_string(),
            features: vec![
                "macros".to_string(),
                "rt-multi-thread".to_string(),
                "time".to_string()
            ],
            default_features: None,
        }]
    );
}

#[test]
fn unused_fix_removes_a_plain_dependency() {
    let project = project(
        &format!("{PACKAGE}\n[dependencies]\nchrono = \"0.4\"\n"),
        None,
        &[("main.rs", "fn main() {}")],
    );
    let issues = run_all(&project);
    let issue = &issues[0];
    assert_eq!(
        issue.suggestion.as_ref().unwrap().command.as_deref(),
        Some("cargo shed --fix unused-dependency:chrono")
    );
    let fix = UnusedDependencyRule.fix(&project, issue).unwrap();
    assert_eq!(
        fix.edits,
        vec![Edit::RemoveDependency {
            section: DependencySection::Normal,
            name: "chrono".to_string(),
        }]
    );
    assert!(TokioFullRule.fix(&project, issue).is_none());
}

#[test]
fn allowlisted_unused_dependency_has_no_fix_command() {
    let project = project(
        &format!("{PACKAGE}\n[dependencies]\nserde = \"1\"\n"),
        None,
        &[("main.rs", "fn main() {}")],
    );
    let issues = run_all(&project);
    assert_eq!(issues[0].message, "serde may be unused, but it is commonly used indirectly");
    assert_eq!(issues[0].suggestion.as_ref().unwrap().command, None);
    assert!(UnusedDependencyRule.fix(&project, &issues[0]).is_none());
}

#[test]
fn unknown_tokio_usage_blocks_the_fix() {
    assert!(text_has_unknown_tokio_usage("tokio::io::stdout()"));
    assert!(text_has_unknown_tokio_usage("tokio::"));
    assert!(!text_has_unknown_tokio_usage("tokio::spawn(x); tokio::time::sleep(d)"));
    let project = project(
        &format!(
            "{PACKAGE}\n[dependencies]\ntokio = {{ version = \"1\", features = [\"full\"] }}\n"
        ),
        None,
        &[("main.rs", "#[tokio::main]\nasync fn main() { tokio::io::stdout(); }")],
    );
    let issues = run_all(&project);
    assert_eq!(issues[0].suggestion.as_ref().unwrap().command, None);
    assert!(TokioFullRule.fix(&project, &issues[0]).is_none());
}

#[test]
fn inferred_tokio_features_follow_the_sources() {
    let project = project(
        PACKAGE,
        None,
        &[
            ("lib.rs", "tokio::spawn(async {}); tokio::sync::Mutex::new(1); tokio::fs::read(p);"),
        ],
    );
    assert_eq!(
        infer_tokio_features(&project),
        vec!["rt".to_string(), "fs".to_string(), "sync".to_string()]
    );
}

#[test]
fn feature_lists_are_quoted() {
    assert_eq!(format_features(&Vec::new()), "[]");
    assert_eq!(
        format_features(&vec!["a".to_string(), "b".to_string()]),
        "[\"a\", \"b\"]"
    );
}

#[test]
fn reqwest_suggestion_adds_a_tls_backend() {
    let issues = run_all(&project(
        &format!(
            "{PACKAGE}\n[dev-dependencies]\nreqwest = {{ version = \"0.12\", default-features = true }}\n"
        ),
        None,
        &[("main.rs", "fn main() { reqwest::get(); }")],
    ));
    let issue = issues
        .iter()
        .find(|issue| issue.rule_id == "reqwest-default-features")
        .unwrap();
    assert_eq!(issue.severity, Severity::Low);
    assert_eq!(issue.evidence[1].value, "true");
    assert_eq!(
        issue.suggestion.as_ref().unwrap().summary,
        "Consider reqwest = { version = \"0.12\", default-features = false, features = [\"rustls-tls\"] } after choosing the intended TLS backend"
    );
}

#[test]
fn three_versions_of_any_crate_are_high() {
    let lock = r#"
        [[package]]
        name = "demo-lib"
        version = "1.0.0"

        [[package]]
        name = "demo-lib"
        version = "2.0.0"

        [[package]]
        name = "demo-lib"
        version = "3.0.0"

        [[package]]
        name = "other"
        version = "1.0.0"

        [[package]]
        name = "other"
        version = "1.1.0"
    "#;
    let issues = run_all(&project(PACKAGE, Some(lock), &[("main.rs", "fn main() {}")]));
    assert_eq!(issues.len(), 2);
    assert_eq!(issues[0].id, "duplicate-versions:demo-lib");
    assert_eq!(issues[0].severity, Severity::High);
    assert_eq!(issues[0].evidence[1].value, "1.0.0, 2.0.0, 3.0.0");
    assert_eq!(issues[1].id, "duplicate-versions:other");
    assert_eq!(issues[1].severity, Severity::Medium);
}

#[test]
fn human_report_is_stable() {
    let mut report = analyze_project(FULL_MANIFEST, Some(SYN_LOCK), &[("main.rs", FULL_MAIN)]);
    report.root = "[PROJECT]".to_string();
    let human = report.to_human();
    assert_eq!(human, report.to_human());
    assert!(human.starts_with(
        "cargo-shed report\n\nProject: [PROJECT]\nScore: 51/100\nIssues: 2 high, 2 medium, 1 low\n\nProblems found:\n\n[HIGH] duplicate-versions:syn\n"
    ));
    assert!(human.contains(
        "[HIGH] tokio-full\nReason: tokio uses the full feature set\nEvidence:\n- Dependency: dependencies.tokio\n- Current features: [\"full\"]\n- Inferred features: [\"macros\", \"rt-multi-thread\", \"time\"]\nSuggested: Replace \"full\" with the inferred feature set [\"macros\", \"rt-multi-thread\", \"time\"] after confirming it covers the project\nRun: cargo shed --fix tokio-full\n"
    ));
}

#[test]
fn report_order_keeps_equal_issues_in_rule_order() {
    let issue = |id: &str, severity: Severity, message: &str| {
        Issue::new(id.to_string(), "tokio-full".to_string(), severity, message.to_string())
    };
    let sorted = sort_for_report(vec![
        issue("tokio-full", Severity::High, "first"),
        issue("a", Severity::Low, "low"),
        issue("tokio-full", Severity::High, "second"),
        issue("b", Severity::High, "other"),
        issue("tokio-full", Severity::High, "third"),
    ]);
    let messages: Vec<&str> = sorted.iter().map(|i| i.message.as_str()).collect();
    assert_eq!(messages, vec!["other", "first", "second", "third", "low"]);
}

#[test]
fn only_tokio_and_unused_rules_offer_fixes() {
    let project = project(FULL_MANIFEST, Some(SYN_LOCK), &[("main.rs", FULL_MAIN)]);
    let issues = run_all(&project);
    for rule in registry() {
        for issue in &issues {
            if rule.fix(&project, issue).is_some() {
                assert!(rule.id() == "tokio-full" || rule.id() == "unused-dependency");
            }
        }
    }
    let offered = registry()
        .iter()
        .filter(|rule| issues.iter().any(|issue| rule.fix(&project, issue).is_some()))
        .count();
    assert_eq!(offered, 2);
}

#[test]
fn unknown_tokio_paths_are_found_wherever_they_stand() {
    assert!(!text_has_unknown_tokio_usage("tokio::spawn(x); tokio::time::sleep(d)"));
    assert!(text_has_unknown_tokio_usage("tokio::spawn(x); tokio::io::stdout()"));
    assert!(text_has_unknown_tokio_usage("use tokio::{spawn};"));
    assert!(text_has_unknown_tokio_usage("tokio::"));
    assert!(!text_has_unknown_tokio_usage("no paths here"));
    assert!(text_has_unknown_tokio_usage("tokio::test tokio::task tokio::sync tokio::x"));
}
