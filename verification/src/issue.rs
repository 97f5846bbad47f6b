//! What a rule reports: an issue, its severity, the evidence behind it and a
//! suggested change.
use vstd::prelude::*;

verus! {

/// How much an issue matters; `High` is the most severe.
#[derive(Debug, Clone, Copy, PartialEq, Eq, Structural, PartialOrd, Ord)]
pub enum Severity {
    Low,
    Medium,
    High,
}

impl Severity {
    /// The position of the severity in the order `Low < Medium < High`.
    pub open spec fn rank(self) -> nat {
        match self {
            Severity::Low => 0,
            Severity::Medium => 1,
            Severity::High => 2,
        }
    }

    pub open spec fn spec_penalty(self) -> nat {
        match self {
            Severity::Low => 3,
            Severity::Medium => 8,
            Severity::High => 15,
        }
    }

    pub open spec fn text(self) -> Seq<char> {
        match self {
            Severity::Low => "low"@,
            Severity::Medium => "medium"@,
            Severity::High => "high"@,
        }
    }

    /// The upper-case label the human reports print.
    pub open spec fn upper_text(self) -> Seq<char> {
        match self {
            Severity::Low => "LOW"@,
            Severity::Medium => "MEDIUM"@,
            Severity::High => "HIGH"@,
        }
    }

    /// Whether an issue of this severity fails a CI check.
    pub open spec fn blocks_ci(self) -> bool {
        self is High || self is Medium
    }

    /// The points an issue of this severity takes off the score.
    pub fn penalty(self) -> (r: u8)
        ensures
            r == self.spec_penalty(),
    {
        match self {
            Severity::Low => 3,
            Severity::Medium => 8,
            Severity::High => 15,
        }
    }

    pub fn as_str(self) -> (r: &'static str)
        ensures
            r@ == self.text(),
    {
        match self {
            Severity::Low => "low",
            Severity::Medium => "medium",
            Severity::High => "high",
        }
    }

    /// `self.as_str().to_uppercase()`.
    pub fn upper(self) -> (r: &'static str)
        ensures
            r@ == self.upper_text(),
    {
        match self {
            Severity::Low => "LOW",
            Severity::Medium => "MEDIUM",
            Severity::High => "HIGH",
        }
    }

    /// `self > other` in the severity order.
    pub fn more_severe_than(self, other: Severity) -> (r: bool)
        ensures
            r == (self.rank() > other.rank()),
    {
        match (self, other) {
            (Severity::High, Severity::Medium) => true,
            (Severity::High, Severity::Low) => true,
            (Severity::Medium, Severity::Low) => true,
            _ => false,
        }
    }
}

pub struct EvidenceView {
    pub label: Seq<char>,
    pub value: Seq<char>,
}

/// One labelled fact behind an issue.
#[derive(Debug, Clone, PartialEq, Eq)]
pub struct Evidence {
    pub label: String,
    pub value: String,
}

impl View for Evidence {
    type V = EvidenceView;

    open spec fn view(&self) -> EvidenceView {
        EvidenceView { label: self.label@, value: self.value@ }
    }
}

impl Evidence {
    pub fn new(label: String, value: String) -> (r: Self)
        ensures
            r.label@ == label@,
            r.value@ == value@,
    {
        Evidence { label, value }
    }
}

pub open spec fn evidence(label: Seq<char>, value: Seq<char>) -> EvidenceView {
    EvidenceView { label, value }
}

pub struct SuggestionView {
    pub summary: Seq<char>,
    pub command: Option<Seq<char>>,
}

/// A suggested change, with the command that makes it where there is one.
#[derive(Debug, Clone, PartialEq, Eq)]
pub struct Suggestion {
    pub summary: String,
    pub command: Option<String>,
}

pub open spec fn opt_view(o: Option<String>) -> Option<Seq<char>> {
    match o {
        Some(s) => Some(s@),
        None => None,
    }
}

impl View for Suggestion {
    type V = SuggestionView;

    open spec fn view(&self) -> SuggestionView {
        SuggestionView { summary: self.summary@, command: opt_view(self.command) }
    }
}

impl Suggestion {
    pub fn new(summary: String, command: Option<String>) -> (r: Self)
        ensures
            r.summary@ == summary@,
            opt_view(r.command) == opt_view(command),
    {
        Suggestion { summary, command }
    }
}

pub struct IssueView {
    pub id: Seq<char>,
    pub rule_id: Seq<char>,
    pub severity: Severity,
    pub message: Seq<char>,
    pub evidence: Seq<EvidenceView>,
    pub suggestion: Option<SuggestionView>,
}

/// A problem that a rule found.
#[derive(Debug, Clone, PartialEq, Eq)]
pub struct Issue {
    pub id: String,
    pub rule_id: String,
    pub severity: Severity,
    pub message: String,
    pub evidence: Vec<Evidence>,
    pub suggestion: Option<Suggestion>,
}

pub open spec fn evidence_views(v: Seq<Evidence>) -> Seq<EvidenceView> {
    v.map_values(|e: Evidence| e@)
}

pub open spec fn suggestion_view(s: Option<Suggestion>) -> Option<SuggestionView> {
    match s {
        Some(s) => Some(s@),
        None => None,
    }
}

impl View for Issue {
    type V = IssueView;

    open spec fn view(&self) -> IssueView {
        IssueView {
            id: self.id@,
            rule_id: self.rule_id@,
            severity: self.severity,
            message: self.message@,
            evidence: evidence_views(self.evidence@),
            suggestion: suggestion_view(self.suggestion),
        }
    }
}

pub open spec fn issue_views(v: Seq<Issue>) -> Seq<IssueView> {
    v.map_values(|i: Issue| i@)
}

impl Issue {
    /// An issue with no evidence and no suggestion yet.
    pub fn new(id: String, rule_id: String, severity: Severity, message: String) -> (r: Self)
        ensures
            r@ == (IssueView {
                id: id@,
                rule_id: rule_id@,
                severity,
                message: message@,
                evidence: Seq::empty(),
                suggestion: None,
            }),
    {
        let r = Issue {
            id,
            rule_id,
            severity,
            message,
            evidence: Vec::new(),
            suggestion: None,
        };
        assert(evidence_views(r.evidence@) =~= Seq::empty());
        r
    }

    /// The issue with `evidence` appended to its evidence.
    pub fn with_evidence(self, evidence: Evidence) -> (r: Self)
        ensures
            r@ == (IssueView { evidence: self@.evidence.push(evidence@), ..self@ }),
    {
        let mut r = self;
        r.evidence.push(evidence);
        assert(evidence_views(r.evidence@) =~= evidence_views(self.evidence@).push(evidence@));
        r
    }

    /// The issue with `suggestion` as its suggestion.
    pub fn with_suggestion(self, suggestion: Suggestion) -> (r: Self)
        ensures
            r@ == (IssueView { suggestion: Some(suggestion@), ..self@ }),
    {
        let mut r = self;
        r.suggestion = Some(suggestion);
        r
    }
}

} // verus!
