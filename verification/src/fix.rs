//! Fixes: the manifest edits a rule proposes, and the report of a fix run.
use vstd::prelude::*;

use crate::edit::{apply_edits, spec_edits_data};
use crate::edit::{section_root_key, spec_edit_data};
use crate::manifest::spec_dependency_item;
use crate::rules::{
    first_where, lemma_first_where_holds, project_dependencies, spec_tokio_replacement,
    tokio_fix_target, unused_fix_target,
};
use crate::toml::{
    data_find, data_get, document_data, document_rendering, document_text, entries_get,
    item_reads, parse_document_mut, table_reads, toml_accepts, toml_document, TomlData, TomlEntry,
    TomlItem, TomlTable, MAX_DEPTH,
};
use crate::issue::{issue_views, opt_view, Issue, IssueView};
use crate::manifest::DependencySection;
use crate::project::Project;
use crate::rules::{
    fix_view, issues_of, run_all, sort_issues, spec_registry, spec_tokio_fix, spec_unused_fix,
    Rule, TokioFullRule, UnusedDependencyRule,
};
use crate::text::{bullet_lines, owned, push_bullet_lines, str_eq, views};
use crate::Config;

verus! {

/// One change to the manifest.
#[derive(Debug, Clone, PartialEq, Eq)]
pub enum Edit {
    RemoveDependency { section: DependencySection, name: String },
    ReplaceDependencyFeatures {
        section: DependencySection,
        name: String,
        features: Vec<String>,
        default_features: Option<bool>,
    },
    SetDefaultFeatures { section: DependencySection, name: String, value: bool },
}

/// Whether a fix may be applied without review.
#[derive(Debug, Clone, Copy, PartialEq, Eq, Structural)]
pub enum FixSafety {
    Safe,
    Risky,
}

/// The edits that resolve one issue.
#[derive(Debug, Clone, PartialEq, Eq)]
pub struct Fix {
    pub issue_id: String,
    pub edits: Vec<Edit>,
    pub safety: FixSafety,
}

pub enum EditView {
    RemoveDependency { section: DependencySection, name: Seq<char> },
    ReplaceDependencyFeatures {
        section: DependencySection,
        name: Seq<char>,
        features: Seq<Seq<char>>,
        default_features: Option<bool>,
    },
    SetDefaultFeatures { section: DependencySection, name: Seq<char>, value: bool },
}

impl View for Edit {
    type V = EditView;

    open spec fn view(&self) -> EditView {
        match self {
            Edit::RemoveDependency { section, name } => EditView::RemoveDependency {
                section: *section,
                name: name@,
            },
            Edit::ReplaceDependencyFeatures { section, name, features, default_features } =>
                EditView::ReplaceDependencyFeatures {
                section: *section,
                name: name@,
                features: views(features@),
                default_features: *default_features,
            },
            Edit::SetDefaultFeatures { section, name, value } => EditView::SetDefaultFeatures {
                section: *section,
                name: name@,
                value: *value,
            },
        }
    }
}

pub struct FixView {
    pub issue_id: Seq<char>,
    pub edits: Seq<EditView>,
    pub safety: FixSafety,
}

impl View for Fix {
    type V = FixView;

    open spec fn view(&self) -> FixView {
        FixView {
            issue_id: self.issue_id@,
            edits: self.edits@.map_values(|e: Edit| e@),
            safety: self.safety,
        }
    }
}

/// What a fix run did.
#[derive(Debug, Clone, PartialEq, Eq)]
pub struct FixReport {
    pub applied: Vec<String>,
    pub skipped: Vec<String>,
    pub failed: bool,
}

impl FixReport {
    pub open spec fn spec_to_human(&self) -> Seq<char> {
        if self.applied@.len() == 0 && self.skipped@.len() == 0 {
            "No safe fixes are available yet.\n"@
        } else {
            (if self.applied@.len() > 0 {
                "Applied:\n"@ + bullet_lines(views(self.applied@))
            } else {
                Seq::empty()
            }) + (if self.skipped@.len() > 0 {
                "Skipped:\n"@ + bullet_lines(views(self.skipped@))
            } else {
                Seq::empty()
            })
        }
    }

    /// The text a fix run prints.
    pub fn to_human(&self) -> (r: String)
        ensures
            r@ == self.spec_to_human(),
    {
        let mut out = String::new();
        if self.applied.len() == 0 && self.skipped.len() == 0 {
            out.append("No safe fixes are available yet.\n");
            return out;
        }
        if self.applied.len() > 0 {
            out.append("Applied:\n");
            push_bullet_lines(&mut out, &self.applied);
        }
        let ghost middle = out@;
        if self.skipped.len() > 0 {
            out.append("Skipped:\n");
            push_bullet_lines(&mut out, &self.skipped);
        }
        assert(out@ =~= self.spec_to_human());
        out
    }
}

/// An issue the fix run takes up: every issue when no rule was named,
/// else the issues of that rule and the issue of that id.
pub open spec fn selects(selected: Option<Seq<char>>, issue: IssueView) -> bool {
    match selected {
        Some(s) => issue.rule_id == s || issue.id == s,
        None => true,
    }
}

/// The fix the issue's own rule offers for it.
pub open spec fn spec_fix_of(p: Project, issue: IssueView) -> Option<FixView> {
    if issue.rule_id == "tokio-full"@ {
        spec_tokio_fix(p, issue)
    } else if issue.rule_id == "unused-dependency"@ {
        spec_unused_fix(p, issue)
    } else {
        None
    }
}

/// The note for a selected issue that no rule can fix.
pub open spec fn no_fix_note(id: Seq<char>) -> Seq<char> {
    id + ": no safe fix is available"@
}

/// The note for a fix the manifest does not hold what to change for.
pub open spec fn not_editable_note(id: Seq<char>) -> Seq<char> {
    id + ": the manifest does not hold what the fix changes"@
}

/// The note for a named rule or issue that the report does not hold.
pub open spec fn no_match_note(selected: Seq<char>) -> Seq<char> {
    selected + ": no issue matches"@
}

/// What a fix run has done so far: the issues fixed, the notes on those
/// left alone, and the data of the manifest with the fixes made (`None`
/// when its text is not TOML).
pub struct FixRunView {
    pub applied: Seq<Seq<char>>,
    pub skipped: Seq<Seq<char>>,
    pub data: Option<Seq<(Seq<char>, TomlData)>>,
}

/// The data of the manifest text as `toml_edit` parses it, if it parses.
pub open spec fn manifest_data(p: Project) -> Option<Seq<(Seq<char>, TomlData)>> {
    if toml_accepts(p.manifest.raw@) {
        Some(toml_document(p.manifest.raw@))
    } else {
        None
    }
}

/// The fix run over `issues`, in order: each issue taken up gets its rule's
/// fix, whose edits are made on the parsed manifest when it holds what they
/// change; otherwise the manifest stays and the issue is noted.
pub open spec fn fix_run(p: Project, issues: Seq<IssueView>, selected: Option<Seq<char>>) -> FixRunView
    decreases issues.len(),
{
    if issues.len() == 0 {
        FixRunView { applied: Seq::empty(), skipped: Seq::empty(), data: manifest_data(p) }
    } else {
        let prev = fix_run(p, issues.drop_last(), selected);
        let issue = issues.last();
        if !selects(selected, issue) {
            prev
        } else {
            match spec_fix_of(p, issue) {
                None => FixRunView { skipped: prev.skipped.push(no_fix_note(issue.id)), ..prev },
                Some(f) => match prev.data {
                    Some(d) => match spec_edits_data(d, f.edits) {
                        Some(nd) => FixRunView {
                            applied: prev.applied.push(issue.id),
                            data: Some(nd),
                            ..prev
                        },
                        None => FixRunView {
                            skipped: prev.skipped.push(not_editable_note(issue.id)),
                            ..prev
                        },
                    },
                    None => FixRunView {
                        skipped: prev.skipped.push(not_editable_note(issue.id)),
                        ..prev
                    },
                },
            }
        }
    }
}

/// Some issue is taken up.
pub open spec fn any_selected(issues: Seq<IssueView>, selected: Option<Seq<char>>) -> bool {
    exists|i: int| 0 <= i < issues.len() && selects(selected, #[trigger] issues[i])
}

/// The fix run over a project's report: its issues in report order; a named
/// rule or issue that matches nothing is noted.
pub open spec fn spec_apply_fixes(p: Project, selected: Option<Seq<char>>) -> FixRunView {
    let issues = sort_issues(issues_of(spec_registry(), p));
    let run = fix_run(p, issues, selected);
    match selected {
        Some(s) => if any_selected(issues, selected) {
            run
        } else {
            FixRunView { skipped: run.skipped.push(no_match_note(s)), ..run }
        },
        None => run,
    }
}

fn selects_exec(selected: &Option<String>, issue: &Issue) -> (r: bool)
    ensures
        r == selects(opt_view(*selected), issue@),
{
    match selected {
        Some(s) => str_eq(issue.rule_id.as_str(), s.as_str()) || str_eq(
            issue.id.as_str(),
            s.as_str(),
        ),
        None => true,
    }
}

/// The fix the issue's own rule offers for it.
pub fn fix_of(project: &Project, issue: &Issue) -> (r: Option<Fix>)
    ensures
        fix_view(r) == spec_fix_of(*project, issue@),
{
    if str_eq(issue.rule_id.as_str(), "tokio-full") {
        TokioFullRule.fix(project, issue)
    } else if str_eq(issue.rule_id.as_str(), "unused-dependency") {
        UnusedDependencyRule.fix(project, issue)
    } else {
        None
    }
}

fn note(id: &str, tail: &str) -> (r: String)
    ensures
        r@ == id@ + tail@,
{
    let mut out = owned(id);
    out.append(tail);
    out
}

/// The fix run of `--fix`: the report's issues that the named rule or issue
/// selects (all of them when none is named) get their rules' safe fixes,
/// made with `toml_edit` on the parsed manifest in report order. Returns
/// what was done and, when some fix was applied, the new manifest text:
/// the manifest as written, with the fixes' changes.
pub fn apply_fixes(project: &Project, config: &Config) -> (r: (FixReport, Option<String>))
    ensures
        views(r.0.applied@) == spec_apply_fixes(*project, opt_view(config.selected_rule)).applied,
        views(r.0.skipped@) == spec_apply_fixes(*project, opt_view(config.selected_rule)).skipped,
        r.1 is Some <==> r.0.applied@.len() > 0,
        r.1 matches Some(t) ==> exists|d: toml_edit::DocumentMut|
            Some(#[trigger] document_data(d)) == spec_apply_fixes(
                *project,
                opt_view(config.selected_rule),
            ).data && t@ == document_rendering(d),
        project.manifest.read_from_raw() && (exists|i: int|
            0 <= i < sort_issues(issues_of(spec_registry(), *project)).len() && selects(
                opt_view(config.selected_rule),
                #[trigger] sort_issues(issues_of(spec_registry(), *project))[i],
            ) && spec_fix_of(*project, sort_issues(issues_of(spec_registry(), *project))[i]) is Some)
            ==> r.0.applied@.len() > 0,
        !r.0.failed,
{
    proof {
        if project.manifest.read_from_raw() {
            law_offered_fix_is_applied(*project, opt_view(config.selected_rule));
        }
    }
    let issues = run_all(project);
    let ghost sel = opt_view(config.selected_rule);
    let ghost all = issue_views(issues@);
    let mut applied: Vec<String> = Vec::new();
    let mut skipped: Vec<String> = Vec::new();
    let mut document = parse_document_mut(project.manifest.raw.as_str());
    let mut matched = false;
    for i in 0..issues.len()
        invariant
            all == issue_views(issues@),
            all == sort_issues(issues_of(spec_registry(), *project)),
            sel == opt_view(config.selected_rule),
            views(applied@) == fix_run(*project, all.take(i as int), sel).applied,
            views(skipped@) == fix_run(*project, all.take(i as int), sel).skipped,
            match document {
                Some(d) => fix_run(*project, all.take(i as int), sel).data == Some(document_data(d)),
                None => fix_run(*project, all.take(i as int), sel).data is None,
            },
            applied@.len() > 0 ==> document is Some,
            matched == any_selected(all.take(i as int), sel),
    {
        let issue = &issues[i];
        proof {
            assert(all.take(i + 1).drop_last() == all.take(i as int));
            assert(all.take(i + 1).last() == issue@);
            assert(all.take(i + 1)[i as int] == issue@);
            if any_selected(all.take(i as int), sel) {
                let k = choose|k: int|
                    0 <= k < all.take(i as int).len() && selects(sel, #[trigger] all.take(i as int)[k]);
                assert(all.take(i + 1)[k] == all.take(i as int)[k]);
            }
            if any_selected(all.take(i + 1), sel) {
                let k = choose|k: int|
                    0 <= k < all.take(i + 1).len() && selects(sel, #[trigger] all.take(i + 1)[k]);
                if k < i {
                    assert(all.take(i as int)[k] == all.take(i + 1)[k]);
                }
            }
        }
        if selects_exec(&config.selected_rule, issue) {
            matched = true;
            match fix_of(project, issue) {
                None => {
                    let ghost before = skipped@;
                    skipped.push(note(issue.id.as_str(), ": no safe fix is available"));
                    assert(views(skipped@) =~= views(before).push(no_fix_note(issue@.id)));
                },
                Some(f) => {
                    let made = match &mut document {
                        Some(d) => apply_edits(d, &f.edits),
                        None => false,
                    };
                    if made {
                        let ghost before = applied@;
                        applied.push(owned(issue.id.as_str()));
                        assert(views(applied@) =~= views(before).push(issue@.id));
                    } else {
                        let ghost before = skipped@;
                        skipped.push(
                            note(issue.id.as_str(), ": the manifest does not hold what the fix changes"),
                        );
                        assert(views(skipped@) =~= views(before).push(not_editable_note(issue@.id)));
                    }
                },
            }
        }
    }
    assert(all.take(issues@.len() as int) == all);
    if !matched {
        if let Some(s) = &config.selected_rule {
            let ghost before = skipped@;
            skipped.push(note(s.as_str(), ": no issue matches"));
            assert(views(skipped@) =~= views(before).push(no_match_note(s@)));
        }
    }
    let text = if applied.len() > 0 {
        match &document {
            Some(d) => Some(document_text(d)),
            None => None,
        }
    } else {
        None
    };
    (FixReport { applied, skipped, failed: false }, text)
}

proof fn lemma_data_kept_without_applied(p: Project, issues: Seq<IssueView>, selected: Option<Seq<char>>)
    ensures
        fix_run(p, issues, selected).applied.len() == 0 ==> fix_run(p, issues, selected).data
            == manifest_data(p),
        issues.len() > 0 ==> fix_run(p, issues.drop_last(), selected).applied.len() <= fix_run(
            p,
            issues,
            selected,
        ).applied.len(),
    decreases issues.len(),
{
    if issues.len() > 0 {
        lemma_data_kept_without_applied(p, issues.drop_last(), selected);
    }
}

/// A fix run that applies nothing changes nothing: a fix that cannot be
/// made is reported, never half-made, and no new text is written.
pub proof fn law_nothing_applied_nothing_changed(p: Project, selected: Option<Seq<char>>)
    ensures
        spec_apply_fixes(p, selected).applied.len() == 0 ==> spec_apply_fixes(p, selected).data
            == manifest_data(p),
{
    lemma_data_kept_without_applied(p, sort_issues(issues_of(spec_registry(), p)), selected);
}

/// The entries of a table as the reader made them are those of `entries`:
/// the same keys, each item read `depth` levels deep.
pub open spec fn entries_read(t: Seq<TomlEntry>, entries: Seq<(Seq<char>, TomlData)>, depth: int) -> bool {
    &&& t.len() == entries.len()
    &&& forall|k: int|
        0 <= k < entries.len() ==> (#[trigger] t[k]).key@ == entries[k].0 && item_reads(
            t[k].item,
            entries[k].1,
            depth,
        )
}

/// The entries a table or an inline table holds.
pub open spec fn table_entries_of(d: TomlData) -> Option<Seq<(Seq<char>, TomlData)>> {
    match d {
        TomlData::Table(es) => Some(es),
        TomlData::InlineTable(es) => Some(es),
        _ => None,
    }
}

proof fn lemma_data_find_range(entries: Seq<(Seq<char>, TomlData)>, key: Seq<char>)
    ensures
        data_find(entries, key) matches Some(i) ==> 0 <= i < entries.len() && entries[i].0 == key,
    decreases entries.len(),
{
    if entries.len() > 0 && entries[0].0 != key {
        lemma_data_find_range(entries.drop_first(), key);
    }
}

proof fn lemma_get_reads(t: Seq<TomlEntry>, entries: Seq<(Seq<char>, TomlData)>, depth: int, key: Seq<char>)
    requires
        entries_read(t, entries, depth),
    ensures
        entries_get(t, key) matches Some(item) ==> (data_get(entries, key) matches Some(d)
            && item_reads(item, d, depth)),
    decreases t.len(),
{
    if t.len() > 0 {
        assert(t[0].key@ == entries[0].0 && item_reads(t[0].item, entries[0].1, depth));
        if t[0].key@ != key {
            let rest = t.drop_first();
            let es = entries.drop_first();
            assert forall|k: int| 0 <= k < es.len() implies (#[trigger] rest[k]).key@ == es[k].0
                && item_reads(rest[k].item, es[k].1, depth) by {
                assert(rest[k] == t[k + 1] && es[k] == entries[k + 1]);
            }
            lemma_get_reads(rest, es, depth, key);
            lemma_data_find_range(es, key);
            if let Some(i) = data_find(es, key) {
                assert(entries[i + 1] == es[i]);
            }
        }
    }
}

proof fn lemma_table_reads_entries(item: TomlItem, d: TomlData, depth: int)
    requires
        depth >= 1,
        item_reads(item, d, depth),
        item is Table,
    ensures
        table_entries_of(d) matches Some(es) && (entries_read(item->Table_0.entries@, es, depth - 2)
            || entries_read(item->Table_0.entries@, es, depth - 1)),
{
    match d {
        TomlData::Table(es) => {
            assert(entries_read(item->Table_0.entries@, es, depth - 2));
        },
        TomlData::InlineTable(es) => {
            assert(entries_read(item->Table_0.entries@, es, depth - 1));
        },
        _ => {},
    }
}

/// The dependency entry `name` of the section `section` in the data `root`
/// when the document read from it holds it as `item`, with the depth it
/// was read to.
proof fn lemma_dependency_data(
    document: TomlTable,
    root: Seq<(Seq<char>, TomlData)>,
    section: DependencySection,
    name: Seq<char>,
) -> (r: (TomlData, TomlData, int))
    requires
        table_reads(document, root, MAX_DEPTH as int),
        section != DependencySection::Workspace,
        spec_dependency_item(document, section, name) is Some,
    ensures
        section_root_key(section) matches Some(k) && data_get(root, k) == Some(r.0),
        table_entries_of(r.0) matches Some(es) && data_get(es, name) == Some(r.1),
        r.2 >= MAX_DEPTH - 3,
        item_reads(spec_dependency_item(document, section, name)->0, r.1, r.2),
{
    let k = section_root_key(section)->0;
    assert(entries_read(document.entries@, root, MAX_DEPTH - 1));
    lemma_get_reads(document.entries@, root, MAX_DEPTH - 1, k);
    let sec_item = document.spec_get(k)->0;
    let sd = data_get(root, k)->0;
    lemma_table_reads_entries(sec_item, sd, MAX_DEPTH - 1);
    let es = table_entries_of(sd)->0;
    let st = sec_item->Table_0;
    let dd = if entries_read(st.entries@, es, MAX_DEPTH - 3) {
        MAX_DEPTH - 3
    } else {
        MAX_DEPTH - 2
    };
    lemma_get_reads(st.entries@, es, dd, name);
    (sd, data_get(es, name)->0, dd)
}

/// On a manifest parsed from its text, every edit of a fix a rule offers
/// can be made: the fix's dependency and what it changes are there.
pub proof fn lemma_offered_fix_applies(p: Project, issue: IssueView)
    requires
        p.manifest.read_from_raw(),
    ensures
        spec_fix_of(p, issue) matches Some(f) ==> spec_edits_data(
            toml_document(p.manifest.raw@),
            f.edits,
        ) is Some,
{
    let root = toml_document(p.manifest.raw@);
    let deps = project_dependencies(p);
    if issue.rule_id == "tokio-full"@ {
        lemma_first_where_holds(deps, tokio_fix_target(issue));
        if let Some(i) = first_where(deps, tokio_fix_target(issue)) {
            let d = deps[i];
            if let Some(fs) = spec_tokio_replacement(p, d) {
                let (sd, dd, depth) = lemma_dependency_data(p.manifest.document, root, d.section, d.name);
                let item = spec_dependency_item(p.manifest.document, d.section, d.name)->0;
                lemma_table_reads_entries(item, dd, depth);
                let ds = table_entries_of(dd)->0;
                let t = item->Table_0;
                if entries_read(t.entries@, ds, depth - 2) {
                    lemma_get_reads(t.entries@, ds, depth - 2, "features"@);
                } else {
                    lemma_get_reads(t.entries@, ds, depth - 1, "features"@);
                }
                let e = EditView::ReplaceDependencyFeatures {
                    section: d.section,
                    name: d.name,
                    features: fs,
                    default_features: None,
                };
                assert(spec_edit_data(root, e) is Some);
                assert(seq![e].drop_last() == Seq::<EditView>::empty());
                assert(seq![e].last() == e);
                assert(spec_edits_data(root, Seq::<EditView>::empty()) == Some(root));
                assert(spec_edits_data(root, seq![e]) is Some);
            }
        }
    } else if issue.rule_id == "unused-dependency"@ {
        lemma_first_where_holds(deps, unused_fix_target(p, issue));
        if let Some(i) = first_where(deps, unused_fix_target(p, issue)) {
            let d = deps[i];
            let (sd, dd, depth) = lemma_dependency_data(p.manifest.document, root, d.section, d.name);
            let e = EditView::RemoveDependency { section: d.section, name: d.name };
            assert(spec_edit_data(root, e) is Some);
            assert(seq![e].drop_last() == Seq::<EditView>::empty());
            assert(seq![e].last() == e);
            assert(spec_edits_data(root, Seq::<EditView>::empty()) == Some(root));
            assert(spec_edits_data(root, seq![e]) is Some);
        }
    }
}

proof fn lemma_run_applies(p: Project, issues: Seq<IssueView>, selected: Option<Seq<char>>)
    requires
        p.manifest.read_from_raw(),
    ensures
        (exists|i: int|
            0 <= i < issues.len() && selects(selected, #[trigger] issues[i]) && spec_fix_of(
                p,
                issues[i],
            ) is Some) ==> fix_run(p, issues, selected).applied.len() > 0,
    decreases issues.len(),
{
    if issues.len() > 0 {
        let prev = issues.drop_last();
        lemma_run_applies(p, prev, selected);
        lemma_data_kept_without_applied(p, issues, selected);
        lemma_data_kept_without_applied(p, prev, selected);
        if exists|i: int|
            0 <= i < issues.len() && selects(selected, #[trigger] issues[i]) && spec_fix_of(
                p,
                issues[i],
            ) is Some {
            let i = choose|i: int|
                0 <= i < issues.len() && selects(selected, #[trigger] issues[i]) && spec_fix_of(
                    p,
                    issues[i],
                ) is Some;
            if i < prev.len() {
                assert(prev[i] == issues[i]);
            } else if fix_run(p, prev, selected).applied.len() == 0 {
                let last = issues.last();
                assert(issues[issues.len() - 1] == last);
                lemma_offered_fix_applies(p, last);
            }
        }
    }
}

/// On a manifest parsed from its text, a fix run applies something whenever
/// it takes up an issue whose rule offers a fix: an offered fix is never
/// refused for how the manifest is written.
pub proof fn law_offered_fix_is_applied(p: Project, selected: Option<Seq<char>>)
    requires
        p.manifest.read_from_raw(),
    ensures
        (exists|i: int|
            0 <= i < sort_issues(issues_of(spec_registry(), p)).len() && selects(
                selected,
                #[trigger] sort_issues(issues_of(spec_registry(), p))[i],
            ) && spec_fix_of(p, sort_issues(issues_of(spec_registry(), p))[i]) is Some)
            ==> spec_apply_fixes(p, selected).applied.len() > 0,
{
    lemma_run_applies(p, sort_issues(issues_of(spec_registry(), p)), selected);
}

/// The issue is taken up and its rule offers a safe fix for it.
pub open spec fn safely_fixable(p: Project, selected: Option<Seq<char>>, issue: IssueView) -> bool {
    selects(selected, issue) && (spec_fix_of(p, issue) matches Some(f) && f.safety
        == FixSafety::Safe)
}

/// Every id of `applied` is that of an issue of `issues` that the selection
/// takes up and whose rule offers a safe fix for it.
pub open spec fn applied_safely(
    p: Project,
    selected: Option<Seq<char>>,
    issues: Seq<IssueView>,
    applied: Seq<Seq<char>>,
) -> bool {
    forall|k: int|
        #![trigger applied[k]]
        0 <= k < applied.len() ==> exists|i: int|
            0 <= i < issues.len() && safely_fixable(p, selected, #[trigger] issues[i])
                && issues[i].id == applied[k]
}

proof fn lemma_applied_are_safe(p: Project, issues: Seq<IssueView>, selected: Option<Seq<char>>)
    ensures
        applied_safely(p, selected, issues, fix_run(p, issues, selected).applied),
    decreases issues.len(),
{
    if issues.len() > 0 {
        let prev = issues.drop_last();
        lemma_applied_are_safe(p, prev, selected);
        let run = fix_run(p, issues, selected);
        let before = fix_run(p, prev, selected);
        let last = issues.last();
        assert(issues[issues.len() - 1] == last);
        let grew = selects(selected, last) && (spec_fix_of(p, last) matches Some(f)
            && (before.data matches Some(d) && spec_edits_data(d, f.edits) is Some));
        if grew {
            assert(run.applied == before.applied.push(last.id));
            assert(safely_fixable(p, selected, last));
        } else {
            assert(run.applied == before.applied);
        }
        assert forall|k: int|
            #![trigger run.applied[k]]
            0 <= k < run.applied.len() implies exists|i: int|
                0 <= i < issues.len() && safely_fixable(p, selected, #[trigger] issues[i])
                    && issues[i].id == run.applied[k] by {
            if k < before.applied.len() {
                assert(run.applied[k] == before.applied[k]);
                let i = choose|i: int|
                    0 <= i < prev.len() && safely_fixable(p, selected, #[trigger] prev[i])
                        && prev[i].id == before.applied[k];
                assert(issues[i] == prev[i]);
            } else {
                assert(run.applied[k] == last.id);
                assert(safely_fixable(p, selected, issues[issues.len() - 1]));
            }
        }
        assert(applied_safely(p, selected, issues, run.applied));
    } else {
        assert(fix_run(p, issues, selected).applied.len() == 0);
    }
}

/// `--fix` applies only safe fixes: every issue it reports as applied is one
/// of the report's issues, taken up by the selection, whose rule offers a
/// fix marked safe.
pub proof fn law_only_safe_fixes_applied(p: Project, selected: Option<Seq<char>>)
    ensures
        applied_safely(
            p,
            selected,
            sort_issues(issues_of(spec_registry(), p)),
            spec_apply_fixes(p, selected).applied,
        ),
{
    lemma_applied_are_safe(p, sort_issues(issues_of(spec_registry(), p)), selected);
    assert(spec_apply_fixes(p, selected).applied == fix_run(
        p,
        sort_issues(issues_of(spec_registry(), p)),
        selected,
    ).applied);
}

/// Where the manifest is copied before a fix run rewrites it.
pub fn backup_path(manifest_path: &str) -> (r: String)
    ensures
        r@ == manifest_path@ + ".shed.bak"@,
{
    note(manifest_path, ".shed.bak")
}

} // verus!
