//! The report of an analysis: its score, its issues, and the texts it prints.
use vstd::prelude::*;

use crate::issue::{issue_views, EvidenceView, Issue, IssueView, Severity};
use crate::text::{
    bullet_lines, decimal, join, join_strings, owned, push_bullet_lines, push_decimal, views,
};

verus! {

/// How many issues a report holds, by severity.
#[derive(Debug, Clone, Copy, Default, PartialEq, Eq, Structural)]
pub struct IssueSummary {
    pub total: usize,
    pub high: usize,
    pub medium: usize,
    pub low: usize,
}

/// The number of issues of severity `s`.
pub open spec fn count_severity(issues: Seq<IssueView>, s: Severity) -> nat
    decreases issues.len(),
{
    if issues.len() == 0 {
        0
    } else {
        count_severity(issues.drop_last(), s) + if issues.last().severity == s {
            1nat
        } else {
            0nat
        }
    }
}

pub proof fn lemma_counts_sum(issues: Seq<IssueView>)
    ensures
        count_severity(issues, Severity::High) + count_severity(issues, Severity::Medium)
            + count_severity(issues, Severity::Low) == issues.len(),
    decreases issues.len(),
{
    if issues.len() > 0 {
        lemma_counts_sum(issues.drop_last());
    }
}

/// The points all issues take off the score.
pub open spec fn total_penalty(issues: Seq<IssueView>) -> nat
    decreases issues.len(),
{
    if issues.len() == 0 {
        0
    } else {
        total_penalty(issues.drop_last()) + issues.last().severity.spec_penalty()
    }
}

/// The score of a report: 100 less the penalties, and never below zero.
pub open spec fn spec_score(issues: Seq<IssueView>) -> nat {
    if total_penalty(issues) >= 100 {
        0
    } else {
        (100 - total_penalty(issues)) as nat
    }
}

proof fn lemma_penalty_at_least_len(issues: Seq<IssueView>)
    ensures
        total_penalty(issues) >= issues.len(),
    decreases issues.len(),
{
    if issues.len() > 0 {
        lemma_penalty_at_least_len(issues.drop_last());
    }
}

proof fn lemma_penalty_concat(a: Seq<IssueView>, b: Seq<IssueView>)
    ensures
        total_penalty(a + b) == total_penalty(a) + total_penalty(b),
    decreases b.len(),
{
    if b.len() == 0 {
        assert(a + b == a);
    } else {
        lemma_penalty_concat(a, b.drop_last());
        assert((a + b).drop_last() == a + b.drop_last());
        assert((a + b).last() == b.last());
    }
}

/// A score lies between 0 and 100, and is 100 exactly when nothing was
/// found.
pub proof fn law_score_range(issues: Seq<IssueView>)
    ensures
        spec_score(issues) <= 100,
        spec_score(issues) == 100 <==> issues.len() == 0,
{
    lemma_penalty_at_least_len(issues);
}

/// More issues never raise the score: the issues `a` together with further
/// issues `b` score no more than `a` alone, nor than `b` alone.
pub proof fn law_more_issues_lower_score(a: Seq<IssueView>, b: Seq<IssueView>)
    ensures
        spec_score(a + b) <= spec_score(a),
        spec_score(a + b) <= spec_score(b),
{
    lemma_penalty_concat(a, b);
}

/// An issue fails a CI check exactly when the summary counts a high or a
/// medium issue.
pub proof fn law_blocking_iff_counted(issues: Seq<IssueView>)
    ensures
        any_blocking(issues) <==> count_severity(issues, Severity::High) + count_severity(
            issues,
            Severity::Medium,
        ) > 0,
    decreases issues.len(),
{
    if issues.len() > 0 {
        let rest = issues.drop_last();
        law_blocking_iff_counted(rest);
        if any_blocking(rest) {
            let i = choose|i: int| 0 <= i < rest.len() && (#[trigger] rest[i]).severity.blocks_ci();
            assert(issues[i] == rest[i]);
        }
        if issues.last().severity.blocks_ci() {
            assert(issues[issues.len() - 1].severity.blocks_ci());
        }
        if any_blocking(issues) {
            let i = choose|i: int|
                0 <= i < issues.len() && (#[trigger] issues[i]).severity.blocks_ci();
            if i < issues.len() - 1 {
                assert(rest[i] == issues[i]);
            }
        }
    } else {
        assert(!any_blocking(issues));
    }
}

/// `<n> <label>` when `n` is not zero.
pub open spec fn count_part(n: nat, label: Seq<char>) -> Seq<Seq<char>> {
    if n > 0 {
        seq![decimal(n) + " "@ + label]
    } else {
        Seq::empty()
    }
}

/// `1 high, 2 medium`, or `0` when there is no issue.
pub open spec fn summary_text(s: IssueSummary) -> Seq<char> {
    if s.total == 0 {
        "0"@
    } else {
        join(
            count_part(s.high as nat, "high"@) + count_part(s.medium as nat, "medium"@) + count_part(
                s.low as nat,
                "low"@,
            ),
            ", "@,
        )
    }
}

fn push_count(parts: &mut Vec<String>, count: usize, label: &str)
    ensures
        views(final(parts)@) == views(old(parts)@) + count_part(count as nat, label@),
{
    if count > 0 {
        let mut part = String::new();
        push_decimal(&mut part, count as u64);
        part.append(" ");
        part.append(label);
        let ghost before = parts@;
        parts.push(part);
        assert(views(parts@) =~= views(before) + count_part(count as nat, label@));
    } else {
        assert(views(parts@) =~= views(parts@) + count_part(count as nat, label@));
    }
}

impl IssueSummary {
    /// The counts of `issues` by severity.
    pub fn from_issues(issues: &Vec<Issue>) -> (r: IssueSummary)
        ensures
            r.total == issues@.len(),
            r.high == count_severity(issue_views(issues@), Severity::High),
            r.medium == count_severity(issue_views(issues@), Severity::Medium),
            r.low == count_severity(issue_views(issues@), Severity::Low),
    {
        let ghost all = issue_views(issues@);
        let mut high: usize = 0;
        let mut medium: usize = 0;
        let mut low: usize = 0;
        for i in 0..issues.len()
            invariant
                all == issue_views(issues@),
                high == count_severity(all.take(i as int), Severity::High),
                medium == count_severity(all.take(i as int), Severity::Medium),
                low == count_severity(all.take(i as int), Severity::Low),
                high + medium + low == i,
        {
            assert(all.take(i + 1).drop_last() == all.take(i as int));
            assert(all.take(i + 1).last() == issues@[i as int]@);
            proof {
                lemma_counts_sum(all.take(i as int));
            }
            match issues[i].severity {
                Severity::High => high = high + 1,
                Severity::Medium => medium = medium + 1,
                Severity::Low => low = low + 1,
            }
        }
        assert(all.take(issues@.len() as int) == all);
        IssueSummary { total: issues.len(), high, medium, low }
    }

    /// `1 high, 2 medium`, or `0` when there is no issue.
    pub fn to_human(self) -> (r: String)
        ensures
            r@ == summary_text(self),
    {
        if self.total == 0 {
            return owned("0");
        }
        let mut parts: Vec<String> = Vec::new();
        assert(views(parts@) =~= Seq::empty());
        push_count(&mut parts, self.high, "high");
        push_count(&mut parts, self.medium, "medium");
        push_count(&mut parts, self.low, "low");
        assert(views(parts@) =~= count_part(self.high as nat, "high"@) + count_part(
            self.medium as nat,
            "medium"@,
        ) + count_part(self.low as nat, "low"@));
        join_strings(&parts, ", ")
    }
}

/// The outcome of an analysis.
#[derive(Debug, Clone, PartialEq, Eq)]
pub struct Report {
    pub root: String,
    pub score: u8,
    pub issues: Vec<Issue>,
    pub skipped_checks: Vec<String>,
}

/// One `- label: value` line per piece of evidence.
pub open spec fn evidence_lines(evidence: Seq<EvidenceView>) -> Seq<char>
    decreases evidence.len(),
{
    if evidence.len() == 0 {
        Seq::empty()
    } else {
        evidence_lines(evidence.drop_last()) + "- "@ + evidence.last().label + ": "@
            + evidence.last().value + "\n"@
    }
}

pub open spec fn block_head(issue: IssueView) -> Seq<char> {
    "["@ + issue.severity.upper_text() + "] "@ + issue.id + "\n"@ + "Reason: "@ + issue.message
        + "\n"@
}

pub open spec fn block_evidence(issue: IssueView) -> Seq<char> {
    if issue.evidence.len() > 0 {
        "Evidence:\n"@ + evidence_lines(issue.evidence)
    } else {
        Seq::empty()
    }
}

pub open spec fn block_suggestion(issue: IssueView) -> Seq<char> {
    match issue.suggestion {
        Some(s) => "Suggested: "@ + s.summary + "\n"@ + match s.command {
            Some(c) => "Run: "@ + c + "\n"@,
            None => Seq::empty(),
        },
        None => Seq::empty(),
    }
}

/// The block a human report prints for one issue.
pub open spec fn issue_block(issue: IssueView) -> Seq<char> {
    block_head(issue) + block_evidence(issue) + block_suggestion(issue) + "\n"@
}

pub open spec fn issue_blocks(issues: Seq<IssueView>) -> Seq<char>
    decreases issues.len(),
{
    if issues.len() == 0 {
        Seq::empty()
    } else {
        issue_blocks(issues.drop_last()) + issue_block(issues.last())
    }
}

/// The line a check report prints for one blocking issue.
pub open spec fn action_line(issue: IssueView) -> Seq<char> {
    "- ["@ + issue.severity.upper_text() + "] "@ + issue.id + ": "@ + issue.message + (
    match issue.suggestion {
        Some(s) => match s.command {
            Some(c) => " ("@ + c + ")"@,
            None => Seq::empty(),
        },
        None => Seq::empty(),
    }) + "\n"@
}

pub open spec fn action_lines(issues: Seq<IssueView>) -> Seq<char>
    decreases issues.len(),
{
    if issues.len() == 0 {
        Seq::empty()
    } else {
        action_lines(issues.drop_last()) + if issues.last().severity.blocks_ci() {
            action_line(issues.last())
        } else {
            Seq::empty()
        }
    }
}

fn push_evidence_lines(out: &mut String, issue: &Issue)
    ensures
        final(out)@ == old(out)@ + evidence_lines(issue@.evidence),
{
    let ghost start = out@;
    let ghost all = issue@.evidence;
    for i in 0..issue.evidence.len()
        invariant
            all == issue@.evidence,
            out@ == start + evidence_lines(all.take(i as int)),
    {
        assert(all.take(i + 1).drop_last() == all.take(i as int));
        assert(all.take(i + 1).last() == issue.evidence@[i as int]@);
        let e = &issue.evidence[i];
        out.append("- ");
        out.append(e.label.as_str());
        out.append(": ");
        out.append(e.value.as_str());
        out.append("\n");
    }
    assert(all.take(issue.evidence@.len() as int) == all);
}

fn push_block_head(out: &mut String, issue: &Issue)
    ensures
        final(out)@ == old(out)@ + block_head(issue@),
{
    let ghost start = out@;
    out.append("[");
    out.append(issue.severity.upper());
    out.append("] ");
    out.append(issue.id.as_str());
    out.append("\n");
    out.append("Reason: ");
    out.append(issue.message.as_str());
    out.append("\n");
    assert(out@ =~= start + block_head(issue@));
}

fn push_block_evidence(out: &mut String, issue: &Issue)
    ensures
        final(out)@ == old(out)@ + block_evidence(issue@),
{
    let ghost start = out@;
    if issue.evidence.len() > 0 {
        out.append("Evidence:\n");
        push_evidence_lines(out, issue);
    }
    assert(out@ =~= start + block_evidence(issue@));
}

fn push_block_suggestion(out: &mut String, issue: &Issue)
    ensures
        final(out)@ == old(out)@ + block_suggestion(issue@),
{
    let ghost start = out@;
    if let Some(suggestion) = &issue.suggestion {
        out.append("Suggested: ");
        out.append(suggestion.summary.as_str());
        out.append("\n");
        if let Some(command) = &suggestion.command {
            out.append("Run: ");
            out.append(command.as_str());
            out.append("\n");
        }
    }
    assert(out@ =~= start + block_suggestion(issue@));
}

fn push_issue_block(out: &mut String, issue: &Issue)
    ensures
        final(out)@ == old(out)@ + issue_block(issue@),
{
    let ghost start = out@;
    push_block_head(out, issue);
    push_block_evidence(out, issue);
    push_block_suggestion(out, issue);
    out.append("\n");
    assert(out@ =~= start + issue_block(issue@));
}

fn push_action_line(out: &mut String, issue: &Issue)
    ensures
        final(out)@ == old(out)@ + action_line(issue@),
{
    let ghost start = out@;
    out.append("- [");
    out.append(issue.severity.upper());
    out.append("] ");
    out.append(issue.id.as_str());
    out.append(": ");
    out.append(issue.message.as_str());
    let ghost head = out@;
    if let Some(suggestion) = &issue.suggestion {
        if let Some(command) = &suggestion.command {
            out.append(" (");
            out.append(command.as_str());
            out.append(")");
        }
    }
    out.append("\n");
    assert(out@ =~= start + action_line(issue@));
}

pub open spec fn any_blocking(issues: Seq<IssueView>) -> bool {
    exists|i: int| 0 <= i < issues.len() && (#[trigger] issues[i]).severity.blocks_ci()
}

impl Report {
    /// A report of `issues`, scored by their penalties.
    pub fn new(root: String, issues: Vec<Issue>, skipped_checks: Vec<String>) -> (r: Report)
        ensures
            r.root == root,
            r.issues == issues,
            r.skipped_checks == skipped_checks,
            r.score == spec_score(issue_views(issues@)),
    {
        let ghost all = issue_views(issues@);
        let mut penalty: u64 = 0;
        for i in 0..issues.len()
            invariant
                all == issue_views(issues@),
                penalty == if total_penalty(all.take(i as int)) >= 100 {
                    100
                } else {
                    total_penalty(all.take(i as int))
                },
        {
            assert(all.take(i + 1).drop_last() == all.take(i as int));
            assert(all.take(i + 1).last() == issues@[i as int]@);
            let p = issues[i].severity.penalty() as u64;
            penalty = if penalty + p >= 100 {
                100
            } else {
                penalty + p
            };
        }
        assert(all.take(issues@.len() as int) == all);
        let score = (100 - penalty) as u8;
        Report { root, score, issues, skipped_checks }
    }

    /// Some issue is of high or medium severity.
    pub fn has_ci_failures(&self) -> (r: bool)
        ensures
            r == any_blocking(issue_views(self.issues@)),
    {
        for i in 0..self.issues.len()
            invariant
                forall|j: int| 0 <= j < i ==> !(#[trigger] self.issues@[j]).severity.blocks_ci(),
        {
            match self.issues[i].severity {
                Severity::High => {
                    assert(issue_views(self.issues@)[i as int].severity.blocks_ci());
                    return true;
                },
                Severity::Medium => {
                    assert(issue_views(self.issues@)[i as int].severity.blocks_ci());
                    return true;
                },
                Severity::Low => {},
            }
        }
        assert forall|j: int|
            0 <= j < issue_views(self.issues@).len() implies !(
            #[trigger] issue_views(self.issues@)[j]).severity.blocks_ci() by {
            assert(issue_views(self.issues@)[j] == self.issues@[j]@);
        }
        false
    }

    pub open spec fn spec_summary(&self) -> IssueSummary {
        IssueSummary {
            total: self.issues@.len() as usize,
            high: count_severity(issue_views(self.issues@), Severity::High) as usize,
            medium: count_severity(issue_views(self.issues@), Severity::Medium) as usize,
            low: count_severity(issue_views(self.issues@), Severity::Low) as usize,
        }
    }

    /// The counts of the report's issues by severity.
    pub fn summary(&self) -> (r: IssueSummary)
        ensures
            r == self.spec_summary(),
            r.total == r.high + r.medium + r.low,
    {
        proof {
            lemma_counts_sum(issue_views(self.issues@));
        }
        IssueSummary::from_issues(&self.issues)
    }

    pub open spec fn spec_to_human(&self) -> Seq<char> {
        let issues = issue_views(self.issues@);
        "cargo-shed report\n\n"@ + "Project: "@ + self.root@ + "\n"@ + "Score: "@ + decimal(
            self.score as nat,
        ) + "/100\n"@ + "Issues: "@ + summary_text(self.spec_summary()) + "\n\n"@ + (
        if issues.len() == 0 {
            "No issues found.\n"@
        } else {
            "Problems found:\n\n"@ + issue_blocks(issues)
        }) + (if self.skipped_checks@.len() > 0 {
            "\n"@ + "Skipped checks:\n"@ + bullet_lines(views(self.skipped_checks@))
        } else {
            Seq::empty()
        })
    }

    /// The full human report.
    pub fn to_human(&self) -> (r: String)
        ensures
            r@ == self.spec_to_human(),
    {
        let mut out = owned("cargo-shed report\n\n");
        let summary = self.summary();
        out.append("Project: ");
        out.append(self.root.as_str());
        out.append("\n");
        out.append("Score: ");
        push_decimal(&mut out, self.score as u64);
        out.append("/100\n");
        out.append("Issues: ");
        let counts = summary.to_human();
        out.append(counts.as_str());
        out.append("\n\n");
        let ghost head = out@;
        if self.issues.len() == 0 {
            out.append("No issues found.\n");
        } else {
            out.append("Problems found:\n\n");
            let ghost blocks_start = out@;
            let ghost all = issue_views(self.issues@);
            for i in 0..self.issues.len()
                invariant
                    all == issue_views(self.issues@),
                    out@ == blocks_start + issue_blocks(all.take(i as int)),
            {
                assert(all.take(i + 1).drop_last() == all.take(i as int));
                assert(all.take(i + 1).last() == self.issues@[i as int]@);
                push_issue_block(&mut out, &self.issues[i]);
            }
            assert(all.take(self.issues@.len() as int) == all);
        }
        let ghost body = out@;
        if self.skipped_checks.len() > 0 {
            out.append("\n");
            out.append("Skipped checks:\n");
            push_bullet_lines(&mut out, &self.skipped_checks);
        }
        assert(out@ =~= self.spec_to_human());
        out
    }

    pub open spec fn spec_to_check_human(&self) -> Seq<char> {
        let issues = issue_views(self.issues@);
        if !any_blocking(issues) {
            "cargo-shed check passed\n"@ + "Score: "@ + decimal(self.score as nat) + "/100\n"@
        } else {
            let s = self.spec_summary();
            let blocking = IssueSummary {
                total: (s.high + s.medium) as usize,
                high: s.high,
                medium: s.medium,
                low: 0,
            };
            "cargo-shed check failed\n\n"@ + "Blocking issues: "@ + summary_text(blocking) + "\n"@
                + "\nAction required:\n"@ + action_lines(issues)
                + "\nRun cargo shed for the full report.\n"@
        }
    }

    /// The short report of a CI check: passed with the score, or the
    /// blocking issues and what to run.
    pub fn to_check_human(&self) -> (r: String)
        ensures
            r@ == self.spec_to_check_human(),
    {
        let mut out = String::new();
        if !self.has_ci_failures() {
            out.append("cargo-shed check passed\n");
            out.append("Score: ");
            push_decimal(&mut out, self.score as u64);
            out.append("/100\n");
            assert(out@ =~= self.spec_to_check_human());
            return out;
        }
        out.append("cargo-shed check failed\n\n");
        let summary = self.summary();
        let blocking = IssueSummary {
            total: summary.high + summary.medium,
            high: summary.high,
            medium: summary.medium,
            low: 0,
        };
        out.append("Blocking issues: ");
        let counts = blocking.to_human();
        out.append(counts.as_str());
        out.append("\n");
        out.append("\nAction required:\n");
        let ghost lines_start = out@;
        let ghost all = issue_views(self.issues@);
        for i in 0..self.issues.len()
            invariant
                all == issue_views(self.issues@),
                out@ == lines_start + action_lines(all.take(i as int)),
        {
            assert(all.take(i + 1).drop_last() == all.take(i as int));
            assert(all.take(i + 1).last() == self.issues@[i as int]@);
            let issue = &self.issues[i];
            let blocks = match issue.severity {
                Severity::High => true,
                Severity::Medium => true,
                Severity::Low => false,
            };
            if blocks {
                push_action_line(&mut out, issue);
            }
        }
        assert(all.take(self.issues@.len() as int) == all);
        out.append("\nRun cargo shed for the full report.\n");
        assert(out@ =~= self.spec_to_check_human());
        out
    }
}

} // verus!
