//! Static dependency health checks for Cargo projects: the manifest, the
//! lockfile and the Rust sources are read, a fixed set of rules reports what
//! may slow the project down, and the reports say what to change.
pub mod cli;
pub mod edit;
pub mod error;
pub mod explain;
pub mod fix;
pub mod issue;
pub mod lockfile;
pub mod manifest;
pub mod project;
pub mod report;
pub mod rules;
pub mod scan;
pub mod text;
pub mod toml;

pub use error::ShedError;
pub use fix::{apply_fixes, FixReport};
pub use issue::{Evidence, Issue, Severity, Suggestion};
pub use project::Project;
pub use report::Report;

use crate::issue::issue_views;
use crate::rules::{issues_of, run_all, sort_issues, spec_registry};

use vstd::prelude::*;

verus! {

/// How a report is printed.
#[derive(Debug, Clone, Copy, PartialEq, Eq, Structural)]
pub enum OutputFormat {
    Human,
    Json,
}

/// What a run was asked to do.
#[derive(Debug, Clone, PartialEq, Eq)]
pub struct Config {
    pub manifest_path: Option<String>,
    pub fix: bool,
    pub check: bool,
    pub format: OutputFormat,
    pub selected_rule: Option<String>,
    pub no_color: bool,
    pub verbose: bool,
}

impl Default for Config {
    fn default() -> (r: Self)
        ensures
            r.manifest_path is None,
            !r.fix,
            !r.check,
            r.format == OutputFormat::Human,
            r.selected_rule is None,
            !r.no_color,
            !r.verbose,
    {
        Config {
            manifest_path: None,
            fix: false,
            check: false,
            format: OutputFormat::Human,
            selected_rule: None,
            no_color: false,
            verbose: false,
        }
    }
}

/// The report on a loaded project: every rule's issues in report order,
/// and the checks that were skipped.
pub fn analyze(project: Project) -> (r: Report)
    ensures
        issue_views(r.issues@) == sort_issues(issues_of(spec_registry(), project)),
        r.score == report::spec_score(issue_views(r.issues@)),
        crate::text::views(r.skipped_checks@) == project.spec_skipped_checks(),
        r.root == project.root,
{
    let issues = run_all(&project);
    let skipped_checks = project.skipped_checks();
    Report::new(project.root, issues, skipped_checks)
}

} // verus!
