use cargo_shed::cli::{config_from_options, fix_exit_code, human_output, normalized_args, report_exit_code};
use cargo_shed::fix::FixReport;
use cargo_shed::issue::{Issue, Severity};
use cargo_shed::report::Report;
use cargo_shed::project::resolve_manifest_path;
use cargo_shed::OutputFormat;

#[test]
fn bare_fix_selects_no_rule() {
    let config = config_from_options(None, false, Some(String::new()), OutputFormat::Json, true, false);
    assert!(config.fix);
    assert_eq!(config.selected_rule, None);
    assert_eq!(config.format, OutputFormat::Json);
    assert!(config.no_color);
    let named = config_from_options(None, true, Some("tokio-full".to_string()), OutputFormat::Human, false, true);
    assert_eq!(named.selected_rule.as_deref(), Some("tokio-full"));
    assert!(named.check);
    let plain = config_from_options(Some("x/Cargo.toml".to_string()), false, None, OutputFormat::Human, false, false);
    assert!(!plain.fix);
    assert_eq!(plain.manifest_path.as_deref(), Some("x/Cargo.toml"));
}

#[test]
fn check_exit_code_follows_blocking_issues() {
    let medium = Issue::new("a".to_string(), "r".to_string(), Severity::Medium, "m".to_string());
    let low = Issue::new("b".to_string(), "r".to_string(), Severity::Low, "m".to_string());
    let blocking = Report::new(".".to_string(), vec![medium], Vec::new());
    let clean = Report::new(".".to_string(), vec![low], Vec::new());
    assert_eq!(report_exit_code(true, &blocking), 1);
    assert_eq!(report_exit_code(false, &blocking), 0);
    assert_eq!(report_exit_code(true, &clean), 0);
    let failed = FixReport { applied: Vec::new(), skipped: Vec::new(), failed: true };
    assert_eq!(fix_exit_code(&failed), 1);
}

#[test]
fn removes_cargo_subcommand_name() {
    let args = normalized_args(vec!["cargo-shed".to_string(), "shed".to_string(), "--help".to_string()]);
    assert_eq!(args, vec!["cargo-shed".to_string(), "--help".to_string()]);
}

#[test]
fn keeps_direct_invocation() {
    let args = normalized_args(vec!["cargo-shed".to_string(), "--help".to_string()]);
    assert_eq!(args, vec!["cargo-shed".to_string(), "--help".to_string()]);
}

#[test]
fn subcommand_name_counts_only_in_second_place() {
    let later = normalized_args(vec!["cargo-shed".to_string(), "--check".to_string(), "shed".to_string()]);
    assert_eq!(later.len(), 3);
    assert_eq!(normalized_args(vec!["shed".to_string()]), vec!["shed".to_string()]);
}

#[test]
fn human_output_follows_check_mode() {
    let low = Issue::new("b".to_string(), "r".to_string(), Severity::Low, "m".to_string());
    let report = Report::new(".".to_string(), vec![low], Vec::new());
    assert_eq!(human_output(&report, true), "cargo-shed check passed\nScore: 97/100\n");
    assert_eq!(human_output(&report, false), report.to_human());
}

#[test]
fn check_output_says_passed_exactly_when_exit_code_is_zero() {
    let medium = Issue::new("a".to_string(), "r".to_string(), Severity::Medium, "m".to_string());
    let low = Issue::new("b".to_string(), "r".to_string(), Severity::Low, "m".to_string());
    for issues in [vec![medium.clone()], vec![low.clone()], vec![], vec![low, medium]] {
        let report = Report::new(".".to_string(), issues, Vec::new());
        let passed = report.to_check_human().starts_with("cargo-shed check passed\n");
        assert_eq!(passed, report_exit_code(true, &report) == 0);
    }
}

#[test]
fn manifest_path_of_a_directory_names_its_manifest() {
    assert_eq!(resolve_manifest_path("proj", true), "proj/Cargo.toml");
    assert_eq!(resolve_manifest_path("proj/Cargo.toml", false), "proj/Cargo.toml");
}
