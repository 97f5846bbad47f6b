use cargo_shed::fix::{apply_fixes, backup_path, FixReport};
use cargo_shed::manifest::Manifest;
use cargo_shed::project::Project;
use cargo_shed::scan::{SourceFile, SourceIndex};
use cargo_shed::Config;

#[test]
fn fix_engine_is_conservative_in_the_skeleton() {
    let report = cargo_shed::fix::FixReport {
        applied: Vec::new(),
        skipped: Vec::new(),
        failed: false,
    };

    assert_eq!(report.to_human(), "No safe fixes are available yet.\n");
}

#[test]
fn fix_report_lists_applied_and_skipped() {
    let report = FixReport {
        applied: vec!["a".to_string()],
        skipped: vec!["b".to_string(), "c".to_string()],
        failed: false,
    };
    assert_eq!(report.to_human(), "Applied:\n- a\nSkipped:\n- b\n- c\n");
}

fn project(manifest: &str, main: &str) -> Project {
    let manifest = Manifest::parse("/w/Cargo.toml", manifest.to_string()).unwrap();
    let files = vec![SourceFile { path: "/w/src/main.rs".to_string(), text: main.to_string() }];
    Project::new("/w".to_string(), "/w/Cargo.toml".to_string(), manifest, None, SourceIndex { files })
}

fn fix_config(selected: Option<&str>) -> Config {
    Config { fix: true, selected_rule: selected.map(str::to_string), ..Config::default() }
}

const TOKIO_MAIN: &str = "#[tokio::main]\nasync fn main() {\n    tokio::time::sleep(d).await;\n}\n";

#[test]
fn tokio_fix_replaces_full_in_the_manifest_text() {
    let manifest = "[package]\nname = \"w\"\n\n[dependencies]\n# runtime\ntokio = { version = \"1\", features = [\"full\"] }\n";
    let p = project(manifest, TOKIO_MAIN);
    let (report, text) = apply_fixes(&p, &fix_config(Some("tokio-full")));
    assert_eq!(report.applied, vec!["tokio-full".to_string()]);
    assert!(report.skipped.is_empty());
    assert!(!report.failed);
    let text = text.unwrap();
    assert!(text.contains("# runtime\n"));
    assert!(text.contains("features = [\"macros\", \"rt-multi-thread\", \"time\"]"));
    assert!(!text.contains("\"full\""));
    assert_eq!(report.to_human(), "Applied:\n- tokio-full\n");
}

#[test]
fn tokio_fix_edits_a_dependency_table() {
    let manifest = "[package]\nname = \"w\"\n\n[dependencies.tokio]\nversion = \"1\"\nfeatures = [\"full\"]\n";
    let p = project(manifest, TOKIO_MAIN);
    let (report, text) = apply_fixes(&p, &fix_config(None));
    assert_eq!(report.applied, vec!["tokio-full".to_string()]);
    let text = text.unwrap();
    assert!(text.contains("[dependencies.tokio]"));
    assert!(text.contains("\"macros\", \"rt-multi-thread\", \"time\""));
    assert!(!text.contains("\"full\""));
}

#[test]
fn tokio_fix_applies_to_any_layout() {
    let layouts = [
        "[package]\r\nname = \"w\"\r\n\r\n[dependencies]\r\ntokio = { version = \"1\", features = [\"full\"] }\r\n",
        "[package]\nname = \"w\"\n\n[dependencies] # deps\n  tokio   =   { version = \"1\", features = [\"full\"] }\n",
        "[package]\nname = \"w\"\n\n[dependencies]\ntokio = { version = \"1\", features = [\n    \"full\",\n] }\n",
        "dependencies = { tokio = { version = \"1\", features = [\"full\"] } }\n[package]\nname = \"w\"\n",
    ];
    for manifest in layouts {
        let p = project(manifest, TOKIO_MAIN);
        let (report, text) = apply_fixes(&p, &fix_config(Some("tokio-full")));
        assert_eq!(report.applied, vec!["tokio-full".to_string()], "{manifest} {:?}", report.skipped);
        let text = text.unwrap();
        assert!(!text.contains("\"full\""), "{text}");
        assert!(text.contains("\"rt-multi-thread\""), "{text}");
    }
}

#[test]
fn unused_fix_removes_the_dependency_line() {
    let manifest = "[package]\nname = \"w\"\n\n[dependencies]\nchrono = \"0.4\"\nserde = \"1\"\n";
    let p = project(manifest, "fn main() { serde::x(); }\n");
    let (report, text) = apply_fixes(&p, &fix_config(Some("unused-dependency:chrono")));
    assert_eq!(report.applied, vec!["unused-dependency:chrono".to_string()]);
    assert_eq!(text.unwrap(), "[package]\nname = \"w\"\n\n[dependencies]\nserde = \"1\"\n");
}

#[test]
fn unused_fix_keeps_crlf_and_comments() {
    let manifest = "[package]\r\nname = \"w\"\r\n\r\n[dependencies] # all\r\nchrono   = \"0.4\"\r\nserde = \"1\" # used\r\n";
    let p = project(manifest, "fn main() { serde::x(); }\n");
    let (report, text) = apply_fixes(&p, &fix_config(None));
    assert_eq!(report.applied, vec!["unused-dependency:chrono".to_string()]);
    let text = text.unwrap();
    assert!(!text.contains("chrono"));
    assert!(text.contains("serde = \"1\" # used\n"), "{text:?}");
    assert!(text.contains("[dependencies] # all\n"));
}

#[test]
fn unfixable_and_unmatched_selections_leave_the_text() {
    let manifest = "[package]\nname = \"w\"\n\n[dependencies]\nopenssl = \"0.10\"\n";
    let p = project(manifest, "fn main() { openssl::x(); }\n");
    let (report, text) = apply_fixes(&p, &fix_config(Some("heavy-crate")));
    assert!(report.applied.is_empty());
    assert_eq!(report.skipped, vec!["heavy-crate:openssl: no safe fix is available".to_string()]);
    assert_eq!(text, None);
    let (report, text) = apply_fixes(&p, &fix_config(Some("tokio-full")));
    assert_eq!(report.skipped, vec!["tokio-full: no issue matches".to_string()]);
    assert_eq!(text, None);
}

#[test]
fn backup_sits_next_to_the_manifest() {
    assert_eq!(backup_path("/w/Cargo.toml"), "/w/Cargo.toml.shed.bak");
}
