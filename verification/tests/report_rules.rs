use cargo_shed::issue::{Evidence, Issue, Severity, Suggestion};
use cargo_shed::report::{IssueSummary, Report};

fn issue(severity: Severity) -> Issue {
    Issue::new(
        "test-issue".to_string(),
        "test-rule".to_string(),
        severity,
        "test message".to_string(),
    )
}

#[test]
fn score_saturates_at_zero() {
    let issues = (0..20).map(|_| issue(Severity::High)).collect();
    let report = Report::new(".".to_string(), issues, Vec::new());

    assert_eq!(report.score, 0);
}

#[test]
fn summary_counts_severities() {
    let report = Report::new(
        ".".to_string(),
        vec![
            issue(Severity::High),
            issue(Severity::Medium),
            issue(Severity::Medium),
            issue(Severity::Low),
        ],
        Vec::new(),
    );
    let summary = report.summary();

    assert_eq!(summary.total, 4);
    assert_eq!(summary.high, 1);
    assert_eq!(summary.medium, 2);
    assert_eq!(summary.low, 1);
}

#[test]
fn score_subtracts_each_penalty() {
    let report = Report::new(
        ".".to_string(),
        vec![issue(Severity::High), issue(Severity::Medium), issue(Severity::Low)],
        Vec::new(),
    );
    assert_eq!(report.score, 100 - 15 - 8 - 3);
    let empty = Report::new(".".to_string(), Vec::new(), Vec::new());
    assert_eq!(empty.score, 100);
}

#[test]
fn severity_penalties_and_names() {
    assert_eq!(Severity::Low.penalty(), 3);
    assert_eq!(Severity::Medium.penalty(), 8);
    assert_eq!(Severity::High.penalty(), 15);
    assert_eq!(Severity::Low.as_str(), "low");
    assert_eq!(Severity::Medium.as_str(), "medium");
    assert_eq!(Severity::High.as_str(), "high");
}

#[test]
fn summary_text_lists_nonzero_counts() {
    let summary = IssueSummary { total: 3, high: 1, medium: 0, low: 2 };
    assert_eq!(summary.to_human(), "1 high, 2 low");
    let none = IssueSummary { total: 0, high: 0, medium: 0, low: 0 };
    assert_eq!(none.to_human(), "0");
}

#[test]
fn human_report_prints_every_part() {
    let full = Issue::new(
        "demo".to_string(),
        "demo-rule".to_string(),
        Severity::Medium,
        "something".to_string(),
    )
    .with_evidence(Evidence::new("Label".to_string(), "value".to_string()))
    .with_suggestion(Suggestion::new("do it".to_string(), Some("run it".to_string())));
    let report = Report::new(
        "/p".to_string(),
        vec![full],
        vec!["lock skipped".to_string()],
    );
    assert_eq!(
        report.to_human(),
        "cargo-shed report\n\nProject: /p\nScore: 92/100\nIssues: 1 medium\n\nProblems found:\n\n[MEDIUM] demo\nReason: something\nEvidence:\n- Label: value\nSuggested: do it\nRun: run it\n\n\nSkipped checks:\n- lock skipped\n"
    );
    let clean = Report::new("/p".to_string(), Vec::new(), Vec::new());
    assert_eq!(
        clean.to_human(),
        "cargo-shed report\n\nProject: /p\nScore: 100/100\nIssues: 0\n\nNo issues found.\n"
    );
}

#[test]
fn check_report_passes_without_blocking_issues() {
    let report = Report::new(".".to_string(), vec![issue(Severity::Low)], Vec::new());
    assert!(!report.has_ci_failures());
    assert_eq!(report.to_check_human(), "cargo-shed check passed\nScore: 97/100\n");
}

#[test]
fn check_report_lists_blocking_issues() {
    let blocking = Issue::new(
        "unused-dependency:chrono".to_string(),
        "unused-dependency".to_string(),
        Severity::Medium,
        "chrono appears to be unused in scanned Rust sources".to_string(),
    )
    .with_suggestion(Suggestion::new(
        "Remove chrono".to_string(),
        Some("cargo shed --fix unused-dependency:chrono".to_string()),
    ));
    let report = Report::new(
        ".".to_string(),
        vec![blocking, issue(Severity::Low)],
        Vec::new(),
    );
    assert!(report.has_ci_failures());
    assert_eq!(
        report.to_check_human(),
        "cargo-shed check failed\n\nBlocking issues: 1 medium\n\nAction required:\n- [MEDIUM] unused-dependency:chrono: chrono appears to be unused in scanned Rust sources (cargo shed --fix unused-dependency:chrono)\n\nRun cargo shed for the full report.\n"
    );
}

#[test]
fn issue_builders_accumulate() {
    let built = issue(Severity::Low)
        .with_evidence(Evidence::new("a".to_string(), "1".to_string()))
        .with_evidence(Evidence::new("b".to_string(), "2".to_string()))
        .with_suggestion(Suggestion::new("s".to_string(), None));
    assert_eq!(built.evidence.len(), 2);
    assert_eq!(built.evidence[1].label, "b");
    assert_eq!(built.suggestion.unwrap().command, None);
}

#[test]
fn empty_report_scores_full_marks_and_more_issues_never_raise_it() {
    let empty = Report::new(".".to_string(), Vec::new(), Vec::new());
    assert_eq!(empty.score, 100);
    let one = Report::new(".".to_string(), vec![issue(Severity::Low)], Vec::new());
    assert_eq!(one.score, 97);
    let two = Report::new(".".to_string(), vec![issue(Severity::Low), issue(Severity::Medium)], Vec::new());
    assert_eq!(two.score, 89);
    let three = Report::new(
        ".".to_string(),
        vec![issue(Severity::Low), issue(Severity::Medium), issue(Severity::High)],
        Vec::new(),
    );
    assert_eq!(three.score, 74);
    assert!(three.score <= two.score && two.score <= one.score && one.score < empty.score);
}

#[test]
fn ci_failure_matches_blocking_counts() {
    for severities in [
        vec![Severity::Low, Severity::Low],
        vec![Severity::Low, Severity::Medium],
        vec![Severity::High],
        vec![],
    ] {
        let report = Report::new(
            ".".to_string(),
            severities.iter().map(|s| issue(*s)).collect(),
            Vec::new(),
        );
        let summary = report.summary();
        assert_eq!(report.has_ci_failures(), summary.high + summary.medium > 0);
    }
}
