//! The decisions of the command line: the run configuration its options
//! describe, and the exit code of a run.
use vstd::prelude::*;

use crate::fix::FixReport;
use crate::issue::issue_views;
use crate::report::{any_blocking, Report};
use crate::text::{owned, str_eq};
use crate::{Config, OutputFormat};

verus! {

/// The rule `--fix` names: none for a bare `--fix`.
pub open spec fn spec_selected_rule(fix: Option<Seq<char>>) -> Option<Seq<char>> {
    match fix {
        Some(rule) => if rule.len() == 0 {
            None
        } else {
            Some(rule)
        },
        None => None,
    }
}

/// The configuration of a report or fix run from the command-line options;
/// `fix` is the value of `--fix` (empty when no rule was named).
pub fn config_from_options(
    manifest_path: Option<String>,
    check: bool,
    fix: Option<String>,
    format: OutputFormat,
    no_color: bool,
    verbose: bool,
) -> (r: Config)
    ensures
        r.manifest_path == manifest_path,
        r.fix == fix is Some,
        r.check == check,
        r.format == format,
        crate::issue::opt_view(r.selected_rule) == spec_selected_rule(crate::issue::opt_view(fix)),
        r.no_color == no_color,
        r.verbose == verbose,
{
    let is_fix = fix.is_some();
    let selected_rule = match &fix {
        Some(rule) => if rule.as_str().is_empty() {
            None
        } else {
            Some(owned(rule.as_str()))
        },
        None => None,
    };
    Config {
        manifest_path,
        fix: is_fix,
        check,
        format,
        selected_rule,
        no_color,
        verbose,
    }
}

/// The human text of a report run: the short check output under `--check`,
/// else the full report.
pub fn human_output(report: &Report, check: bool) -> (r: String)
    ensures
        r@ == (if check {
            report.spec_to_check_human()
        } else {
            report.spec_to_human()
        }),
{
    if check {
        report.to_check_human()
    } else {
        report.to_human()
    }
}

/// 1 when a CI check finds a high or medium issue, else 0.
pub open spec fn spec_report_exit_code(check: bool, report: Report) -> u8 {
    if check && any_blocking(issue_views(report.issues@)) {
        1
    } else {
        0
    }
}

/// The exit code of a report run: 1 when a CI check finds a high or medium
/// issue, else 0.
pub fn report_exit_code(check: bool, report: &Report) -> (r: u8)
    ensures
        r == spec_report_exit_code(check, *report),
{
    if check && report.has_ci_failures() {
        1
    } else {
        0
    }
}

/// The exit code of a fix run: 1 when the run failed, else 0.
pub fn fix_exit_code(report: &FixReport) -> (r: u8)
    ensures
        r == (if report.failed {
            1u8
        } else {
            0u8
        }),
{
    if report.failed {
        1
    } else {
        0
    }
}

/// The arguments with the subcommand name removed: Cargo runs
/// `cargo-shed shed ...` for `cargo shed ...`, so a second argument `shed` is
/// dropped; a direct invocation is left as it is.
pub fn normalized_args(args: Vec<String>) -> (r: Vec<String>)
    ensures
        r@ == (if args@.len() > 1 && args@[1]@ == "shed"@ {
            args@.remove(1)
        } else {
            args@
        }),
{
    let mut args = args;
    if args.len() > 1 && str_eq(args[1].as_str(), "shed") {
        args.remove(1);
    }
    args
}

/// A CI check prints that it passed exactly when it exits with 0.
pub proof fn law_check_output_matches_exit_code(report: Report)
    ensures
        "cargo-shed check passed\n"@.is_prefix_of(report.spec_to_check_human())
            <==> spec_report_exit_code(true, report) == 0,
{
    let passed = "cargo-shed check passed\n"@;
    let failed = "cargo-shed check failed\n\n"@;
    reveal_strlit("cargo-shed check passed\n");
    reveal_strlit("cargo-shed check failed\n\n");
    let text = report.spec_to_check_human();
    if any_blocking(issue_views(report.issues@)) {
        assert(text.subrange(0, failed.len() as int) == failed);
        if passed.is_prefix_of(text) {
            assert(text[17] == passed[17]);
            assert(text[17] == failed[17]);
        }
    } else {
        assert(text.subrange(0, passed.len() as int) == passed);
    }
}

} // verus!
