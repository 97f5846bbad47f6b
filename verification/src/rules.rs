//! The rules: what each one reports about a project, and the fixes it offers.
use vstd::prelude::*;

use crate::fix::{Edit, EditView, Fix, FixSafety, FixView};
use crate::issue::{
    evidence, issue_views, Evidence, Issue, IssueView, Severity, Suggestion, SuggestionView,
};
use crate::lockfile::{canonical_groups, crate_versions_views, several_versions, CrateVersionsView};
use crate::manifest::{
    dependency_views, spec_dependency_item, Dependency, DependencySection, DependencyView,
    underscored,
};
use crate::project::Project;
use crate::scan::{any_file_contains, SourceFile, SourceIndex};
use crate::text::{
    bool_text, chars_of, decimal, ident_char, is_ident_char, join, join_strings, occurs_at,
    owned, seq_contains, seq_less, str_contains, str_eq, usize_to_string, views,
};

verus! {

// ---------------------------------------------------------------------------
// Describing dependencies
// ---------------------------------------------------------------------------

/// The package a dependency resolves to: its `package` key, else its name.
pub open spec fn dep_package(d: DependencyView) -> Seq<char> {
    match d.package {
        Some(p) => p,
        None => d.name,
    }
}

pub open spec fn spec_dependency_label(d: DependencyView) -> Seq<char> {
    match d.package {
        Some(p) => d.name + " (package "@ + p + ")"@,
        None => d.name,
    }
}

/// Where the dependency is declared, as `section.name`.
pub open spec fn spec_dependency_path(d: DependencyView) -> Seq<char> {
    d.section.key() + "."@ + spec_dependency_label(d)
}

pub fn package_name(dependency: &Dependency) -> (r: &str)
    ensures
        r@ == dep_package(dependency@),
{
    match &dependency.package {
        Some(p) => p.as_str(),
        None => dependency.name.as_str(),
    }
}

fn dependency_matches_package(dependency: &Dependency, package: &str) -> (r: bool)
    ensures
        r == (dep_package(dependency@) == package@),
{
    str_eq(package_name(dependency), package)
}

fn dependency_label(dependency: &Dependency) -> (r: String)
    ensures
        r@ == spec_dependency_label(dependency@),
{
    match &dependency.package {
        Some(p) => {
            let mut out = owned(dependency.name.as_str());
            out.append(" (package ");
            out.append(p.as_str());
            out.append(")");
            out
        },
        None => owned(dependency.name.as_str()),
    }
}

/// `section.name` of a dependency, for evidence and for matching issues to
/// dependencies.
pub fn dependency_path(dependency: &Dependency) -> (r: String)
    ensures
        r@ == spec_dependency_path(dependency@),
{
    let mut out = owned(dependency.section.manifest_key());
    out.append(".");
    let label = dependency_label(dependency);
    out.append(label.as_str());
    out
}

/// The issue carries `Dependency` evidence that names `d`.
pub open spec fn spec_issue_matches_dependency(issue: IssueView, d: DependencyView) -> bool {
    exists|i: int|
        0 <= i < issue.evidence.len() && #[trigger] issue.evidence[i] == evidence(
            "Dependency"@,
            spec_dependency_path(d),
        )
}

fn issue_matches_dependency(issue: &Issue, dependency: &Dependency) -> (r: bool)
    ensures
        r == spec_issue_matches_dependency(issue@, dependency@),
{
    let path = dependency_path(dependency);
    for i in 0..issue.evidence.len()
        invariant
            path@ == spec_dependency_path(dependency@),
            forall|j: int|
                0 <= j < i ==> #[trigger] issue@.evidence[j] != evidence(
                    "Dependency"@,
                    spec_dependency_path(dependency@),
                ),
    {
        let e = &issue.evidence[i];
        assert(issue@.evidence[i as int] == e@);
        if str_eq(e.label.as_str(), "Dependency") && str_eq(e.value.as_str(), path.as_str()) {
            return true;
        }
    }
    false
}

pub open spec fn quoted(features: Seq<Seq<char>>) -> Seq<Seq<char>> {
    features.map_values(|f: Seq<char>| "\""@ + f + "\""@)
}

/// `["a", "b"]`, or `[]` for no features.
pub open spec fn spec_format_features(features: Seq<Seq<char>>) -> Seq<char> {
    if features.len() == 0 {
        "[]"@
    } else {
        "["@ + join(quoted(features), ", "@) + "]"@
    }
}

/// The features as a bracketed list of quoted names.
pub fn format_features(features: &Vec<String>) -> (r: String)
    ensures
        r@ == spec_format_features(views(features@)),
{
    if features.len() == 0 {
        return owned("[]");
    }
    let ghost all = views(features@);
    let mut out = owned("[");
    for i in 0..features.len()
        invariant
            all == views(features@),
            out@ == "["@ + join(quoted(all.take(i as int)), ", "@),
    {
        assert(quoted(all.take(i + 1)).drop_last() =~= quoted(all.take(i as int)));
        if i > 0 {
            out.append(", ");
        }
        out.append("\"");
        out.append(features[i].as_str());
        out.append("\"");
        assert(quoted(all.take(i + 1)).last() == "\""@ + features@[i as int]@ + "\""@);
        if i == 0 {
            assert(quoted(all.take(1)) =~= seq!["\""@ + features@[0]@ + "\""@]);
        }
    }
    assert(all.take(features@.len() as int) == all);
    out.append("]");
    out
}

// ---------------------------------------------------------------------------
// Tokio feature inference
// ---------------------------------------------------------------------------

/// `features` with `feature` appended when `condition` holds and it is not
/// there yet.
pub open spec fn push_if(features: Seq<Seq<char>>, feature: Seq<char>, condition: bool) -> Seq<
    Seq<char>,
> {
    if condition && !features.contains(feature) {
        features.push(feature)
    } else {
        features
    }
}

pub fn push_feature_if(features: &mut Vec<String>, feature: &str, condition: bool)
    ensures
        views(final(features)@) == push_if(views(old(features)@), feature@, condition),
{
    if !condition {
        return ;
    }
    for i in 0..features.len()
        invariant
            forall|j: int| 0 <= j < i ==> views(features@)[j] != feature@,
    {
        if str_eq(features[i].as_str(), feature) {
            assert(views(features@)[i as int] == feature@);
            return ;
        }
    }
    let ghost before = features@;
    features.push(owned(feature));
    assert(views(features@) =~= views(before).push(feature@));
}

/// Whether `ends_with(path, child)` holds for the paths, component by
/// component, as `camino::Utf8Path::ends_with` decides it.
pub uninterp spec fn path_ends_with(path: Seq<char>, child: Seq<char>) -> bool;

/// `camino::Utf8Path::ends_with`: the trailing components of `path` are
/// those of `child`. Depends on the two texts alone.
#[verifier::external_body]
fn ends_with_path(path: &str, child: &str) -> (r: bool)
    ensures
        r == path_ends_with(path@, child@),
{
    camino::Utf8Path::new(path).ends_with(child)
}

/// Some file is `src/main.rs` of a crate and declares a Tokio main.
pub open spec fn has_tokio_main_binary(files: Seq<SourceFile>) -> bool {
    exists|i: int|
        0 <= i < files.len() && path_ends_with(files[i].path@, "src/main.rs"@) && seq_contains(
            #[trigger] files[i].text@,
            "#[tokio::main"@,
        )
}

/// The Tokio features the sources appear to use, in a fixed order.
pub open spec fn spec_infer_tokio_features(index: SourceIndex) -> Seq<Seq<char>> {
    let f0 = Seq::<Seq<char>>::empty();
    let f1 = push_if(
        f0,
        "macros"@,
        index.spec_contains_token("#[tokio::main"@) || index.spec_contains_token(
            "#[tokio::test"@,
        ) || index.spec_contains_token("tokio::select!"@) || index.spec_contains_token(
            "tokio::join!"@,
        ) || index.spec_contains_token("tokio::try_join!"@) || index.spec_contains_token(
            "tokio::pin!"@,
        ),
    );
    let f2 = push_if(
        f1,
        "rt"@,
        index.spec_contains_token("tokio::spawn"@) || index.spec_contains_token("tokio::task"@)
            || index.spec_contains_token("tokio::runtime::Runtime"@),
    );
    let f3 = push_if(f2, "rt-multi-thread"@, has_tokio_main_binary(index.files@));
    let f4 = push_if(f3, "fs"@, index.spec_contains_token("tokio::fs"@));
    let f5 = push_if(f4, "net"@, index.spec_contains_token("tokio::net"@));
    let f6 = push_if(f5, "process"@, index.spec_contains_token("tokio::process"@));
    let f7 = push_if(f6, "signal"@, index.spec_contains_token("tokio::signal"@));
    let f8 = push_if(f7, "sync"@, index.spec_contains_token("tokio::sync"@));
    push_if(f8, "time"@, index.spec_contains_token("tokio::time"@))
}

fn has_tokio_main_file(index: &SourceIndex) -> (r: bool)
    ensures
        r == has_tokio_main_binary(index.files@),
{
    for i in 0..index.files.len()
        invariant
            forall|j: int|
                0 <= j < i ==> !(path_ends_with(index.files@[j].path@, "src/main.rs"@)
                    && seq_contains(#[trigger] index.files@[j].text@, "#[tokio::main"@)),
    {
        let file = &index.files[i];
        if ends_with_path(file.path.as_str(), "src/main.rs") && str_contains(
            file.text.as_str(),
            "#[tokio::main",
        ) {
            return true;
        }
    }
    false
}

/// The Tokio features the sources appear to use.
pub fn infer_tokio_features(project: &Project) -> (r: Vec<String>)
    ensures
        views(r@) == spec_infer_tokio_features(project.source_index),
{
    let index = &project.source_index;
    let mut features: Vec<String> = Vec::new();
    assert(views(features@) =~= Seq::empty());
    let macros = index.contains_token("#[tokio::main") || index.contains_token("#[tokio::test")
        || index.contains_token("tokio::select!") || index.contains_token("tokio::join!")
        || index.contains_token("tokio::try_join!") || index.contains_token("tokio::pin!");
    push_feature_if(&mut features, "macros", macros);
    let rt = index.contains_token("tokio::spawn") || index.contains_token("tokio::task")
        || index.contains_token("tokio::runtime::Runtime");
    push_feature_if(&mut features, "rt", rt);
    let multi = has_tokio_main_file(index);
    push_feature_if(&mut features, "rt-multi-thread", multi);
    let c = index.contains_token("tokio::fs");
    push_feature_if(&mut features, "fs", c);
    let c = index.contains_token("tokio::net");
    push_feature_if(&mut features, "net", c);
    let c = index.contains_token("tokio::process");
    push_feature_if(&mut features, "process", c);
    let c = index.contains_token("tokio::signal");
    push_feature_if(&mut features, "signal", c);
    let c = index.contains_token("tokio::sync");
    push_feature_if(&mut features, "sync", c);
    let c = index.contains_token("tokio::time");
    push_feature_if(&mut features, "time", c);
    features
}

/// The `tokio::` path segments the inference understands.
pub open spec fn is_known_tokio_segment(s: Seq<char>) -> bool {
    ||| s == "main"@
    ||| s == "test"@
    ||| s == "select"@
    ||| s == "join"@
    ||| s == "try_join"@
    ||| s == "pin"@
    ||| s == "spawn"@
    ||| s == "task"@
    ||| s == "runtime"@
    ||| s == "fs"@
    ||| s == "net"@
    ||| s == "process"@
    ||| s == "signal"@
    ||| s == "sync"@
    ||| s == "time"@
}

pub fn known_tokio_segment(s: &str) -> (r: bool)
    ensures
        r == is_known_tokio_segment(s@),
{
    str_eq(s, "main") || str_eq(s, "test") || str_eq(s, "select") || str_eq(s, "join") || str_eq(
        s,
        "try_join",
    ) || str_eq(s, "pin") || str_eq(s, "spawn") || str_eq(s, "task") || str_eq(s, "runtime")
        || str_eq(s, "fs") || str_eq(s, "net") || str_eq(s, "process") || str_eq(s, "signal")
        || str_eq(s, "sync") || str_eq(s, "time")
}

/// The end of the run of identifier characters that starts at `pos`.
pub open spec fn ident_end(text: Seq<char>, pos: int) -> int
    decreases text.len() - pos,
{
    if 0 <= pos < text.len() && is_ident_char(text[pos]) {
        ident_end(text, pos + 1)
    } else {
        pos
    }
}

/// The scan for `tokio::` paths from `pos`: true at the first path whose
/// next segment is empty or unknown; after a known segment the scan
/// resumes past it.
pub open spec fn tokio_scan(text: Seq<char>, pos: int) -> bool
    decreases text.len() + 1 - pos,
{
    if pos < 0 || pos + "tokio::"@.len() > text.len() {
        false
    } else if occurs_at(text, "tokio::"@, pos) {
        let start = pos + "tokio::"@.len();
        let end = ident_end(text, start);
        if end == start || !is_known_tokio_segment(text.subrange(start, end)) {
            true
        } else if end <= pos || end > text.len() {
            false
        } else {
            tokio_scan(text, end)
        }
    } else {
        tokio_scan(text, pos + 1)
    }
}

proof fn lemma_tokio_skip(text: Seq<char>, a: int, b: int)
    requires
        0 <= a <= b,
        forall|j: int| a <= j < b ==> !occurs_at(text, "tokio::"@, j),
        b <= text.len() + 1,
    ensures
        tokio_scan(text, a) == tokio_scan(text, b),
    decreases b - a,
{
    if a < b {
        lemma_tokio_skip(text, a + 1, b);
    }
}

proof fn lemma_ident_end(text: Seq<char>, pos: int)
    requires
        0 <= pos <= text.len(),
    ensures
        pos <= ident_end(text, pos) <= text.len(),
        forall|k: int| pos <= k < ident_end(text, pos) ==> is_ident_char(#[trigger] text[k]),
        ident_end(text, pos) < text.len() ==> !is_ident_char(text[ident_end(text, pos)]),
    decreases text.len() - pos,
{
    if pos < text.len() && is_ident_char(text[pos]) {
        lemma_ident_end(text, pos + 1);
    }
}

proof fn lemma_known_segment_shape(seg: Seq<char>)
    requires
        is_known_tokio_segment(seg),
    ensures
        seg.len() > 0,
        seg.last() != 'o',
{
    reveal_strlit("main");
    reveal_strlit("test");
    reveal_strlit("select");
    reveal_strlit("join");
    reveal_strlit("try_join");
    reveal_strlit("pin");
    reveal_strlit("spawn");
    reveal_strlit("task");
    reveal_strlit("runtime");
    reveal_strlit("fs");
    reveal_strlit("net");
    reveal_strlit("process");
    reveal_strlit("signal");
    reveal_strlit("sync");
    reveal_strlit("time");
}

/// A `tokio::` path stands at `p` and its next segment is missing or is not
/// one the feature inference understands.
pub open spec fn unknown_tokio_path_at(text: Seq<char>, p: int) -> bool {
    &&& occurs_at(text, "tokio::"@, p)
    &&& {
        let start = p + "tokio::"@.len();
        let end = ident_end(text, start);
        end == start || !is_known_tokio_segment(text.subrange(start, end))
    }
}

proof fn lemma_tokio_scan_from(text: Seq<char>, pos: int)
    requires
        0 <= pos <= text.len() + 1,
    ensures
        tokio_scan(text, pos) <==> exists|p: int| pos <= p && #[trigger] unknown_tokio_path_at(text, p),
    decreases text.len() + 1 - pos,
{
    let needle = "tokio::"@;
    reveal_strlit("tokio::");
    assert(needle.len() == 7);
    if pos + 7 > text.len() {
        assert forall|p: int| pos <= p implies !#[trigger] unknown_tokio_path_at(text, p) by {}
    } else if occurs_at(text, needle, pos) {
        let start = pos + 7;
        let end = ident_end(text, start);
        lemma_ident_end(text, start);
        if end == start || !is_known_tokio_segment(text.subrange(start, end)) {
            assert(unknown_tokio_path_at(text, pos));
        } else {
            lemma_known_segment_shape(text.subrange(start, end));
            // No `tokio::` path starts between this one and the end of its
            // known segment.
            assert forall|q: int| pos < q < end implies !occurs_at(text, needle, q) by {
                if occurs_at(text, needle, q) {
                    assert(text.subrange(q, q + 7)[0] == needle[0]);
                    assert(text[q] == 't');
                    if q < start {
                        assert(text.subrange(pos, pos + 7)[q - pos] == needle[q - pos]);
                        assert(text[q] == needle[q - pos]);
                    } else {
                        let l = end - q;
                        if l <= 4 {
                            assert(text.subrange(q, q + 7)[l] == needle[l]);
                            assert(is_ident_char(text[end]));
                        } else if l == 5 {
                            assert(text.subrange(q, q + 7)[4] == needle[4]);
                            assert(text.subrange(start, end).last() == text[end - 1]);
                        } else {
                            assert(text.subrange(q, q + 7)[5] == needle[5]);
                            assert(is_ident_char(text[q + 5]));
                        }
                    }
                }
            }
            lemma_tokio_scan_from(text, end);
            if exists|p: int| pos <= p && #[trigger] unknown_tokio_path_at(text, p) {
                let p = choose|p: int| pos <= p && #[trigger] unknown_tokio_path_at(text, p);
                assert(end <= p);
            }
        }
    } else {
        lemma_tokio_scan_from(text, pos + 1);
        if exists|p: int| pos <= p && #[trigger] unknown_tokio_path_at(text, p) {
            let p = choose|p: int| pos <= p && #[trigger] unknown_tokio_path_at(text, p);
            assert(pos + 1 <= p);
        }
    }
}

/// The scan for unknown Tokio usage finds one exactly when some `tokio::`
/// path in the text has a missing or unknown next segment: no such path is
/// passed over.
pub proof fn law_unknown_tokio_usage(text: Seq<char>)
    ensures
        tokio_scan(text, 0) <==> exists|p: int| #[trigger] unknown_tokio_path_at(text, p),
{
    lemma_tokio_scan_from(text, 0);
    if exists|p: int| #[trigger] unknown_tokio_path_at(text, p) {
        let p = choose|p: int| #[trigger] unknown_tokio_path_at(text, p);
        assert(0 <= p);
    }
}

/// The text names a `tokio::` path whose next segment is missing or not
/// one the feature inference understands.
pub fn text_has_unknown_tokio_usage(text: &str) -> (r: bool)
    ensures
        r == tokio_scan(text@, 0),
{
    let t = chars_of(text);
    let needle = chars_of("tokio::");
    let mut offset: usize = 0;
    loop
        invariant
            t@ == text@,
            needle@ == "tokio::"@,
            offset <= t@.len() + 1,
            tokio_scan(t@, 0) == tokio_scan(t@, offset as int),
        decreases t@.len() + 1 - offset,
    {
        if offset > t.len() {
            return false;
        }
        let found = crate::text::find_from_exec(&t, &needle, offset);
        proof {
            crate::text::lemma_find_from(t@, needle@, offset as int);
        }
        match found {
            None => {
                proof {
                    lemma_tokio_skip(t@, offset as int, (t@.len() + 1) as int);
                }
                return false;
            },
            Some(i) => {
                proof {
                    lemma_tokio_skip(t@, offset as int, i as int);
                }
                let start = i + needle.len();
                let mut end = start;
                while end < t.len() && ident_char(t[end])
                    invariant
                        start <= end <= t@.len(),
                        ident_end(t@, start as int) == ident_end(t@, end as int),
                    decreases t@.len() - end,
                {
                    end = end + 1;
                }
                let mut segment: Vec<char> = Vec::new();
                for k in start..end
                    invariant
                        end <= t@.len(),
                        segment@ == t@.subrange(start as int, k as int),
                {
                    segment.push(t[k]);
                    assert(t@.subrange(start as int, k + 1) == t@.subrange(
                        start as int,
                        k as int,
                    ).push(t@[k as int]));
                }
                let seg = crate::text::string_of_chars(&segment);
                if end == start || !known_tokio_segment(seg.as_str()) {
                    return true;
                }
                offset = end;
            },
        }
    }
}

pub open spec fn spec_has_unknown_tokio_usage(files: Seq<SourceFile>) -> bool {
    exists|i: int| 0 <= i < files.len() && tokio_scan(#[trigger] files[i].text@, 0)
}

fn has_unknown_tokio_usage(project: &Project) -> (r: bool)
    ensures
        r == spec_has_unknown_tokio_usage(project.source_index.files@),
{
    let files = &project.source_index.files;
    for i in 0..files.len()
        invariant
            files == &project.source_index.files,
            forall|j: int| 0 <= j < i ==> !tokio_scan(#[trigger] files@[j].text@, 0),
    {
        if text_has_unknown_tokio_usage(files[i].text.as_str()) {
            return true;
        }
    }
    false
}

// ---------------------------------------------------------------------------
// When a fix is safe
// ---------------------------------------------------------------------------

/// `features` with each of `items` appended in turn, as `push_if` appends,
/// leaving out `full` when `skip_full` holds.
pub open spec fn push_each(features: Seq<Seq<char>>, items: Seq<Seq<char>>, skip_full: bool) -> Seq<
    Seq<char>,
>
    decreases items.len(),
{
    if items.len() == 0 {
        features
    } else {
        push_if(
            push_each(features, items.drop_last(), skip_full),
            items.last(),
            !(skip_full && items.last() == "full"@),
        )
    }
}

/// The dependency is declared with a `features` array in its own table.
pub open spec fn declares_feature_array(p: Project, d: DependencyView) -> bool {
    match spec_dependency_item(p.manifest.document, d.section, d.name) {
        Some(item) => match item.spec_as_table() {
            Some(t) => match t.spec_get("features"@) {
                Some(f) => f.spec_as_array() is Some,
                None => false,
            },
            None => false,
        },
        None => false,
    }
}

/// The feature list that replaces `full` for a Tokio dependency, when the
/// sources make it clear: the other declared features, then the inferred
/// ones, without repeats.
pub open spec fn spec_tokio_replacement(p: Project, d: DependencyView) -> Option<Seq<Seq<char>>> {
    let inferred = spec_infer_tokio_features(p.source_index);
    if d.section == DependencySection::Workspace || d.workspace || d.package is Some
        || p.source_index.spec_has_ambiguous_generation() || spec_has_unknown_tokio_usage(
        p.source_index.files@,
    ) {
        None
    } else if !declares_feature_array(p, d) {
        None
    } else if inferred.len() == 0 {
        None
    } else {
        let features = push_each(push_each(Seq::empty(), d.features, true), inferred, false);
        if features.len() == 0 {
            None
        } else {
            Some(features)
        }
    }
}

fn declared_feature_array(project: &Project, dependency: &Dependency) -> (r: bool)
    ensures
        r == declares_feature_array(*project, dependency@),
{
    match project.manifest.dependency_item(&dependency.section, dependency.name.as_str()) {
        Some(item) => match item.as_table() {
            Some(t) => match t.get("features") {
                Some(f) => f.as_array().is_some(),
                None => false,
            },
            None => false,
        },
        None => false,
    }
}

/// The features that replace `full`, if the replacement is safe.
pub fn tokio_replacement_features(project: &Project, dependency: &Dependency) -> (r: Option<
    Vec<String>,
>)
    ensures
        match r {
            Some(fs) => spec_tokio_replacement(*project, dependency@) == Some(views(fs@)),
            None => spec_tokio_replacement(*project, dependency@) is None,
        },
{
    if dependency.section == DependencySection::Workspace || dependency.workspace
        || dependency.package.is_some() || project.source_index.has_ambiguous_generation()
        || has_unknown_tokio_usage(project) {
        return None;
    }
    if !declared_feature_array(project, dependency) {
        return None;
    }
    let inferred = infer_tokio_features(project);
    if inferred.len() == 0 {
        return None;
    }
    let mut features: Vec<String> = Vec::new();
    assert(views(features@) =~= Seq::empty());
    let ghost declared = views(dependency.features@);
    for i in 0..dependency.features.len()
        invariant
            declared == views(dependency.features@),
            views(features@) == push_each(Seq::empty(), declared.take(i as int), true),
    {
        assert(declared.take(i + 1).drop_last() == declared.take(i as int));
        let f = &dependency.features[i];
        let keep = !str_eq(f.as_str(), "full");
        push_feature_if(&mut features, f.as_str(), keep);
    }
    assert(declared.take(declared.len() as int) == declared);
    let ghost first = views(features@);
    let ghost found = views(inferred@);
    for i in 0..inferred.len()
        invariant
            found == views(inferred@),
            views(features@) == push_each(first, found.take(i as int), false),
    {
        assert(found.take(i + 1).drop_last() == found.take(i as int));
        push_feature_if(&mut features, inferred[i].as_str(), true);
    }
    assert(found.take(found.len() as int) == found);
    if features.len() == 0 {
        None
    } else {
        Some(features)
    }
}

/// The crates that are often used only indirectly.
pub open spec fn is_unused_allowlisted_spec(name: Seq<char>) -> bool {
    ||| name == "serde"@
    ||| name == "serde_json"@
    ||| name == "tracing"@
    ||| name == "log"@
    ||| name == "anyhow"@
    ||| name == "thiserror"@
    ||| name == "tokio"@
    ||| name == "async_trait"@
    ||| name == "clap"@
}

pub fn is_unused_allowlisted(crate_name: &str) -> (r: bool)
    ensures
        r == is_unused_allowlisted_spec(crate_name@),
{
    str_eq(crate_name, "serde") || str_eq(crate_name, "serde_json") || str_eq(
        crate_name,
        "tracing",
    ) || str_eq(crate_name, "log") || str_eq(crate_name, "anyhow") || str_eq(
        crate_name,
        "thiserror",
    ) || str_eq(crate_name, "tokio") || str_eq(crate_name, "async_trait") || str_eq(
        crate_name,
        "clap",
    )
}

/// Removing the dependency is a safe fix: a plain normal or dev dependency
/// written as a version string, not used indirectly, with sources that were
/// scanned, hold no generated code, and never mention it.
pub open spec fn spec_safe_to_remove(p: Project, d: DependencyView) -> bool {
    let name = underscored(d.name);
    &&& (d.section == DependencySection::Normal || d.section == DependencySection::Dev)
    &&& !d.optional
    &&& !d.workspace
    &&& d.package is None
    &&& d.path is None
    &&& d.default_features is None
    &&& d.features.len() == 0
    &&& !is_unused_allowlisted_spec(name)
    &&& p.source_index.files@.len() != 0
    &&& !p.source_index.spec_has_ambiguous_generation()
    &&& !crate::scan::any_file_mentions(p.source_index.files@, name)
    &&& p.manifest.spec_dependency_is_simple_string(d.section, d.name)
}

pub fn unused_dependency_is_safe_to_remove(project: &Project, dependency: &Dependency) -> (r:
    bool)
    ensures
        r == spec_safe_to_remove(*project, dependency@),
{
    let crate_name = dependency.crate_name();
    (dependency.section == DependencySection::Normal || dependency.section
        == DependencySection::Dev) && !dependency.optional && !dependency.workspace
        && dependency.package.is_none() && dependency.path.is_none()
        && dependency.default_features.is_none() && dependency.features.len() == 0
        && !is_unused_allowlisted(crate_name.as_str()) && project.source_index.files.len() != 0
        && !project.source_index.has_ambiguous_generation()
        && !project.source_index.crate_appears_used(crate_name.as_str())
        && project.manifest.dependency_is_simple_string(
        &dependency.section,
        dependency.name.as_str(),
    )
}

// ---------------------------------------------------------------------------
// tokio-full
// ---------------------------------------------------------------------------

pub open spec fn spec_tokio_suggestion(features: Seq<Seq<char>>) -> Seq<char> {
    if features.len() == 0 {
        "Review Tokio usage before replacing full; cargo-shed could not infer a safe minimal feature set"@
    } else {
        "Replace \"full\" with the inferred feature set "@ + spec_format_features(features)
            + " after confirming it covers the project"@
    }
}

pub fn tokio_suggestion(features: &Vec<String>) -> (r: String)
    ensures
        r@ == spec_tokio_suggestion(views(features@)),
{
    if features.len() == 0 {
        owned(
            "Review Tokio usage before replacing full; cargo-shed could not infer a safe minimal feature set",
        )
    } else {
        let mut out = owned("Replace \"full\" with the inferred feature set ");
        let listed = format_features(features);
        out.append(listed.as_str());
        out.append(" after confirming it covers the project");
        out
    }
}

/// A Tokio dependency that enables `full`.
pub open spec fn uses_tokio_full(d: DependencyView) -> bool {
    dep_package(d) == "tokio"@ && d.features.contains("full"@)
}

/// The issue `tokio-full` reports for a dependency.
pub open spec fn tokio_issue(p: Project, d: DependencyView) -> IssueView {
    let inferred = spec_infer_tokio_features(p.source_index);
    IssueView {
        id: "tokio-full"@,
        rule_id: "tokio-full"@,
        severity: Severity::High,
        message: "tokio uses the full feature set"@,
        evidence: seq![
            evidence("Dependency"@, spec_dependency_path(d)),
            evidence("Current features"@, spec_format_features(d.features)),
            evidence(
                "Inferred features"@,
                if inferred.len() == 0 {
                    "no clear Tokio feature usage was found"@
                } else {
                    spec_format_features(inferred)
                },
            ),
        ],
        suggestion: Some(
            SuggestionView {
                summary: spec_tokio_suggestion(inferred),
                command: if spec_tokio_replacement(p, d) is Some {
                    Some("cargo shed --fix tokio-full"@)
                } else {
                    None
                },
            },
        ),
    }
}

pub open spec fn tokio_issues(p: Project, deps: Seq<DependencyView>) -> Seq<IssueView>
    decreases deps.len(),
{
    if deps.len() == 0 {
        Seq::empty()
    } else {
        let prev = tokio_issues(p, deps.drop_last());
        if uses_tokio_full(deps.last()) {
            prev.push(tokio_issue(p, deps.last()))
        } else {
            prev
        }
    }
}

fn has_feature(features: &Vec<String>, feature: &str) -> (r: bool)
    ensures
        r == views(features@).contains(feature@),
{
    for i in 0..features.len()
        invariant
            forall|j: int| 0 <= j < i ==> views(features@)[j] != feature@,
    {
        if str_eq(features[i].as_str(), feature) {
            assert(views(features@)[i as int] == feature@);
            return true;
        }
    }
    false
}

fn tokio_issue_for(project: &Project, dependency: &Dependency) -> (r: Issue)
    ensures
        r@ == tokio_issue(*project, dependency@),
{
    let inferred = infer_tokio_features(project);
    let mut issue = Issue::new(
        owned("tokio-full"),
        owned("tokio-full"),
        Severity::High,
        owned("tokio uses the full feature set"),
    ).with_evidence(Evidence::new(owned("Dependency"), dependency_path(dependency))).with_evidence(
        Evidence::new(owned("Current features"), format_features(&dependency.features)),
    );
    if inferred.len() == 0 {
        issue =
        issue.with_evidence(
            Evidence::new(
                owned("Inferred features"),
                owned("no clear Tokio feature usage was found"),
            ),
        );
    } else {
        issue =
        issue.with_evidence(
            Evidence::new(owned("Inferred features"), format_features(&inferred)),
        );
    }
    let command = match tokio_replacement_features(project, dependency) {
        Some(_) => Some(owned("cargo shed --fix tokio-full")),
        None => None,
    };
    let r = issue.with_suggestion(Suggestion::new(tokio_suggestion(&inferred), command));
    assert(r@.evidence =~= tokio_issue(*project, dependency@).evidence);
    r
}

// ---------------------------------------------------------------------------
// reqwest-default-features
// ---------------------------------------------------------------------------

/// A reqwest dependency of its own that keeps default features on.
pub open spec fn keeps_reqwest_defaults(d: DependencyView) -> bool {
    dep_package(d) == "reqwest"@ && !d.workspace && d.default_features != Some(false)
}

pub open spec fn spec_reqwest_severity(d: DependencyView) -> Severity {
    if d.section == DependencySection::Normal {
        Severity::Medium
    } else {
        Severity::Low
    }
}

pub open spec fn is_tls_feature(f: Seq<char>) -> bool {
    f == "rustls-tls"@ || f == "native-tls"@ || f == "default-tls"@
}

/// The features to suggest: the declared ones, plus `rustls-tls` when no
/// TLS backend is chosen.
pub open spec fn reqwest_features(d: DependencyView) -> Seq<Seq<char>> {
    if exists|i: int| 0 <= i < d.features.len() && is_tls_feature(#[trigger] d.features[i]) {
        d.features
    } else {
        d.features.push("rustls-tls"@)
    }
}

pub open spec fn spec_reqwest_suggestion(d: DependencyView) -> Seq<char> {
    let version = match d.version {
        Some(v) => v,
        None => "<version>"@,
    };
    "Consider reqwest = { version = \""@ + version + "\", default-features = false, features = "@
        + spec_format_features(reqwest_features(d))
        + " } after choosing the intended TLS backend"@
}

pub open spec fn reqwest_issue(d: DependencyView) -> IssueView {
    IssueView {
        id: "reqwest-default-features"@,
        rule_id: "reqwest-default-features"@,
        severity: spec_reqwest_severity(d),
        message: "reqwest keeps default features enabled"@,
        evidence: seq![
            evidence("Dependency"@, spec_dependency_path(d)),
            evidence(
                "Current default-features"@,
                match d.default_features {
                    Some(v) => bool_text(v),
                    None => "implicit true"@,
                },
            ),
            evidence("Current features"@, spec_format_features(d.features)),
        ],
        suggestion: Some(SuggestionView { summary: spec_reqwest_suggestion(d), command: None }),
    }
}

pub open spec fn reqwest_issues(deps: Seq<DependencyView>) -> Seq<IssueView>
    decreases deps.len(),
{
    if deps.len() == 0 {
        Seq::empty()
    } else {
        let prev = reqwest_issues(deps.drop_last());
        if keeps_reqwest_defaults(deps.last()) {
            prev.push(reqwest_issue(deps.last()))
        } else {
            prev
        }
    }
}

fn reqwest_severity(dependency: &Dependency) -> (r: Severity)
    ensures
        r == spec_reqwest_severity(dependency@),
{
    if dependency.section == DependencySection::Normal {
        Severity::Medium
    } else {
        Severity::Low
    }
}

pub fn reqwest_suggestion(dependency: &Dependency) -> (r: String)
    ensures
        r@ == spec_reqwest_suggestion(dependency@),
{
    let mut features: Vec<String> = Vec::new();
    let mut has_tls = false;
    for i in 0..dependency.features.len()
        invariant
            views(features@) == views(dependency.features@).take(i as int),
            has_tls == exists|j: int|
                0 <= j < i && is_tls_feature(#[trigger] views(dependency.features@)[j]),
    {
        let f = dependency.features[i].as_str();
        if str_eq(f, "rustls-tls") || str_eq(f, "native-tls") || str_eq(f, "default-tls") {
            assert(is_tls_feature(views(dependency.features@)[i as int]));
            has_tls = true;
        }
        let ghost before = features@;
        features.push(owned(f));
        assert(views(features@) =~= views(before).push(dependency.features@[i as int]@));
        assert(views(features@) =~= views(dependency.features@).take(i + 1));
    }
    assert(views(dependency.features@).take(dependency.features@.len() as int) == views(
        dependency.features@,
    ));
    if !has_tls {
        let ghost before = features@;
        features.push(owned("rustls-tls"));
        assert(views(features@) =~= views(before).push("rustls-tls"@));
    }
    let mut out = owned("Consider reqwest = { version = \"");
    match &dependency.version {
        Some(v) => out.append(v.as_str()),
        None => out.append("<version>"),
    }
    out.append("\", default-features = false, features = ");
    let listed = format_features(&features);
    out.append(listed.as_str());
    out.append(" } after choosing the intended TLS backend");
    out
}

fn reqwest_issue_for(dependency: &Dependency) -> (r: Issue)
    ensures
        r@ == reqwest_issue(dependency@),
{
    let defaults = match dependency.default_features {
        Some(v) => crate::text::bool_to_string(v),
        None => owned("implicit true"),
    };
    let r = Issue::new(
        owned("reqwest-default-features"),
        owned("reqwest-default-features"),
        reqwest_severity(dependency),
        owned("reqwest keeps default features enabled"),
    ).with_evidence(Evidence::new(owned("Dependency"), dependency_path(dependency))).with_evidence(
        Evidence::new(owned("Current default-features"), defaults),
    ).with_evidence(
        Evidence::new(owned("Current features"), format_features(&dependency.features)),
    ).with_suggestion(Suggestion::new(reqwest_suggestion(dependency), None));
    assert(r@.evidence =~= reqwest_issue(dependency@).evidence);
    r
}

// ---------------------------------------------------------------------------
// unused-dependency
// ---------------------------------------------------------------------------

/// A dependency the unused rule looks at, and whose crate name no scanned
/// file mentions.
pub open spec fn looks_unused(p: Project, d: DependencyView) -> bool {
    &&& d.section != DependencySection::Workspace
    &&& d.section != DependencySection::Build
    &&& !d.optional
    &&& !d.workspace
    &&& !crate::scan::any_file_mentions(p.source_index.files@, underscored(d.name))
}

pub open spec fn spec_unused_suggestion(name: Seq<char>, allowlisted: bool) -> Seq<char> {
    if allowlisted {
        "Verify whether "@ + name
            + " is used through macros, reexports, features, or generated code before removing it"@
    } else {
        "Remove "@ + name + " if it is not used by features, macros, reexports, or generated code"@
    }
}

pub fn unused_suggestion(crate_name: &str, allowlisted: bool) -> (r: String)
    ensures
        r@ == spec_unused_suggestion(crate_name@, allowlisted),
{
    if allowlisted {
        let mut out = owned("Verify whether ");
        out.append(crate_name);
        out.append(
            " is used through macros, reexports, features, or generated code before removing it",
        );
        out
    } else {
        let mut out = owned("Remove ");
        out.append(crate_name);
        out.append(" if it is not used by features, macros, reexports, or generated code");
        out
    }
}

pub open spec fn unused_issue_id(d: DependencyView) -> Seq<char> {
    "unused-dependency:"@ + d.name
}

pub open spec fn unused_issue(p: Project, d: DependencyView) -> IssueView {
    let name = underscored(d.name);
    let allowlisted = is_unused_allowlisted_spec(name);
    let base = seq![
        evidence("Dependency"@, spec_dependency_path(d)),
        evidence("Crate name checked"@, name),
        evidence("Scanned Rust files"@, decimal(p.source_index.files@.len())),
    ];
    IssueView {
        id: unused_issue_id(d),
        rule_id: "unused-dependency"@,
        severity: Severity::Medium,
        message: if allowlisted {
            name + " may be unused, but it is commonly used indirectly"@
        } else {
            name + " appears to be unused in scanned Rust sources"@
        },
        evidence: if p.source_index.spec_has_ambiguous_generation() {
            base.push(evidence("Source scan"@, "generated or macro-heavy source was detected"@))
        } else {
            base
        },
        suggestion: Some(
            SuggestionView {
                summary: spec_unused_suggestion(name, allowlisted),
                command: if spec_safe_to_remove(p, d) {
                    Some("cargo shed --fix "@ + unused_issue_id(d))
                } else {
                    None
                },
            },
        ),
    }
}

pub open spec fn unused_issues(p: Project, deps: Seq<DependencyView>) -> Seq<IssueView>
    decreases deps.len(),
{
    if deps.len() == 0 {
        Seq::empty()
    } else {
        let prev = unused_issues(p, deps.drop_last());
        if looks_unused(p, deps.last()) {
            prev.push(unused_issue(p, deps.last()))
        } else {
            prev
        }
    }
}

fn unused_issue_for(project: &Project, dependency: &Dependency) -> (r: Issue)
    ensures
        r@ == unused_issue(*project, dependency@),
{
    let crate_name = dependency.crate_name();
    let allowlisted = is_unused_allowlisted(crate_name.as_str());
    let mut issue_id = owned("unused-dependency:");
    issue_id.append(dependency.name.as_str());
    let mut message = owned(crate_name.as_str());
    if allowlisted {
        message.append(" may be unused, but it is commonly used indirectly");
    } else {
        message.append(" appears to be unused in scanned Rust sources");
    }
    let command = if unused_dependency_is_safe_to_remove(project, dependency) {
        let mut c = owned("cargo shed --fix ");
        c.append(issue_id.as_str());
        Some(c)
    } else {
        None
    };
    let mut issue = Issue::new(
        issue_id,
        owned("unused-dependency"),
        Severity::Medium,
        message,
    ).with_evidence(Evidence::new(owned("Dependency"), dependency_path(dependency))).with_evidence(
        Evidence::new(owned("Crate name checked"), owned(crate_name.as_str())),
    ).with_evidence(
        Evidence::new(
            owned("Scanned Rust files"),
            usize_to_string(project.source_index.files.len()),
        ),
    );
    if project.source_index.has_ambiguous_generation() {
        issue =
        issue.with_evidence(
            Evidence::new(
                owned("Source scan"),
                owned("generated or macro-heavy source was detected"),
            ),
        );
    }
    let r = issue.with_suggestion(
        Suggestion::new(unused_suggestion(crate_name.as_str(), allowlisted), command),
    );
    assert(r@.evidence =~= unused_issue(*project, dependency@).evidence);
    r
}

// ---------------------------------------------------------------------------
// duplicate-versions
// ---------------------------------------------------------------------------

pub open spec fn spec_duplicate_impact(name: Seq<char>) -> Option<Seq<char>> {
    if name == "syn"@ || name == "quote"@ || name == "proc-macro2"@ {
        Some("proc-macro stack"@)
    } else if name == "ring"@ || name == "rustls"@ || name == "openssl"@ {
        Some("TLS/network stack"@)
    } else if name == "tokio"@ || name == "futures"@ || name == "mio"@ {
        Some("async stack"@)
    } else if name == "serde"@ || name == "serde_json"@ {
        Some("serialization stack"@)
    } else {
        None
    }
}

/// The part of the build that duplicates of a crate weigh on.
pub fn duplicate_impact(name: &str) -> (r: Option<&'static str>)
    ensures
        match r {
            Some(s) => spec_duplicate_impact(name@) == Some(s@),
            None => spec_duplicate_impact(name@) is None,
        },
{
    if str_eq(name, "syn") || str_eq(name, "quote") || str_eq(name, "proc-macro2") {
        Some("proc-macro stack")
    } else if str_eq(name, "ring") || str_eq(name, "rustls") || str_eq(name, "openssl") {
        Some("TLS/network stack")
    } else if str_eq(name, "tokio") || str_eq(name, "futures") || str_eq(name, "mio") {
        Some("async stack")
    } else if str_eq(name, "serde") || str_eq(name, "serde_json") {
        Some("serialization stack")
    } else {
        None
    }
}

pub open spec fn duplicate_issue(g: CrateVersionsView) -> IssueView {
    let impact = spec_duplicate_impact(g.name);
    let base = seq![evidence("Crate"@, g.name), evidence("Versions"@, join(g.versions, ", "@))];
    IssueView {
        id: "duplicate-versions:"@ + g.name,
        rule_id: "duplicate-versions"@,
        severity: if g.versions.len() >= 3 || impact is Some {
            Severity::High
        } else {
            Severity::Medium
        },
        message: g.name + " appears in multiple versions"@,
        evidence: match impact {
            Some(i) => base.push(evidence("Impact area"@, i)),
            None => base,
        },
        suggestion: Some(
            SuggestionView {
                summary: "Run cargo tree -d to inspect which dependencies keep each version"@,
                command: Some("cargo tree -d"@),
            },
        ),
    }
}

pub open spec fn duplicate_issues(groups: Seq<CrateVersionsView>) -> Seq<IssueView> {
    groups.map_values(|g: CrateVersionsView| duplicate_issue(g))
}

fn duplicate_issue_for(group: &crate::lockfile::CrateVersions) -> (r: Issue)
    ensures
        r@ == duplicate_issue(group@),
{
    let impact = duplicate_impact(group.name.as_str());
    let severity = if group.versions.len() >= 3 || impact.is_some() {
        Severity::High
    } else {
        Severity::Medium
    };
    let mut id = owned("duplicate-versions:");
    id.append(group.name.as_str());
    let mut message = owned(group.name.as_str());
    message.append(" appears in multiple versions");
    let mut issue = Issue::new(id, owned("duplicate-versions"), severity, message).with_evidence(
        Evidence::new(owned("Crate"), owned(group.name.as_str())),
    ).with_evidence(Evidence::new(owned("Versions"), join_strings(&group.versions, ", ")));
    if let Some(i) = impact {
        issue = issue.with_evidence(Evidence::new(owned("Impact area"), owned(i)));
    }
    let r = issue.with_suggestion(
        Suggestion::new(
            owned("Run cargo tree -d to inspect which dependencies keep each version"),
            Some(owned("cargo tree -d")),
        ),
    );
    assert(r@.evidence =~= duplicate_issue(group@).evidence);
    r
}

// ---------------------------------------------------------------------------
// heavy-crate
// ---------------------------------------------------------------------------

pub open spec fn spec_heavy_crate_reason(name: Seq<char>) -> Option<Seq<char>> {
    if name == "openssl"@ {
        Some("native TLS bindings often add platform-specific build cost"@)
    } else if name == "ring"@ {
        Some("cryptography crates can add native build cost"@)
    } else if name == "syn"@ {
        Some("proc-macro parsing crates are common compile-time hotspots"@)
    } else if name == "tonic"@ {
        Some("gRPC stacks can pull in code generation and async networking"@)
    } else if name == "sqlx"@ {
        Some("database stacks often add macros, drivers, and TLS dependencies"@)
    } else if name == "diesel"@ {
        Some("database ORM crates often add macros and backend-specific code"@)
    } else if name == "polars"@ {
        Some("dataframe crates are large and feature-rich"@)
    } else if name == "bevy"@ {
        Some("game engine crates bring a large dependency graph"@)
    } else if name == "gtk"@ {
        Some("GUI bindings often add native platform dependencies"@)
    } else if name == "wasmtime"@ {
        Some("runtime crates tend to have large dependency graphs"@)
    } else if name == "rocksdb"@ {
        Some("database bindings often compile native code"@)
    } else {
        None
    }
}

/// Why a crate is often expensive to compile, if it is one of the known ones.
pub fn heavy_crate_reason(name: &str) -> (r: Option<&'static str>)
    ensures
        match r {
            Some(s) => spec_heavy_crate_reason(name@) == Some(s@),
            None => spec_heavy_crate_reason(name@) is None,
        },
{
    if str_eq(name, "openssl") {
        Some("native TLS bindings often add platform-specific build cost")
    } else if str_eq(name, "ring") {
        Some("cryptography crates can add native build cost")
    } else if str_eq(name, "syn") {
        Some("proc-macro parsing crates are common compile-time hotspots")
    } else if str_eq(name, "tonic") {
        Some("gRPC stacks can pull in code generation and async networking")
    } else if str_eq(name, "sqlx") {
        Some("database stacks often add macros, drivers, and TLS dependencies")
    } else if str_eq(name, "diesel") {
        Some("database ORM crates often add macros and backend-specific code")
    } else if str_eq(name, "polars") {
        Some("dataframe crates are large and feature-rich")
    } else if str_eq(name, "bevy") {
        Some("game engine crates bring a large dependency graph")
    } else if str_eq(name, "gtk") {
        Some("GUI bindings often add native platform dependencies")
    } else if str_eq(name, "wasmtime") {
        Some("runtime crates tend to have large dependency graphs")
    } else if str_eq(name, "rocksdb") {
        Some("database bindings often compile native code")
    } else {
        None
    }
}

pub open spec fn heavy_issue(d: DependencyView, reason: Seq<char>) -> IssueView {
    IssueView {
        id: "heavy-crate:"@ + dep_package(d),
        rule_id: "heavy-crate"@,
        severity: Severity::Low,
        message: dep_package(d) + " is often expensive to compile"@,
        evidence: seq![
            evidence("Dependency"@, spec_dependency_path(d)),
            evidence("Reason"@, reason),
        ],
        suggestion: Some(
            SuggestionView {
                summary: "Keep it if it is required; consider limiting features or making it optional if compile time matters"@,
                command: None,
            },
        ),
    }
}

pub open spec fn heavy_issues(deps: Seq<DependencyView>) -> Seq<IssueView>
    decreases deps.len(),
{
    if deps.len() == 0 {
        Seq::empty()
    } else {
        let prev = heavy_issues(deps.drop_last());
        match spec_heavy_crate_reason(dep_package(deps.last())) {
            Some(reason) => prev.push(heavy_issue(deps.last(), reason)),
            None => prev,
        }
    }
}

fn heavy_issue_for(dependency: &Dependency, reason: &str) -> (r: Issue)
    ensures
        r@ == heavy_issue(dependency@, reason@),
{
    let package = package_name(dependency);
    let mut id = owned("heavy-crate:");
    id.append(package);
    let mut message = owned(package);
    message.append(" is often expensive to compile");
    let r = Issue::new(id, owned("heavy-crate"), Severity::Low, message).with_evidence(
        Evidence::new(owned("Dependency"), dependency_path(dependency)),
    ).with_evidence(Evidence::new(owned("Reason"), owned(reason))).with_suggestion(
        Suggestion::new(
            owned(
                "Keep it if it is required; consider limiting features or making it optional if compile time matters",
            ),
            None,
        ),
    );
    assert(r@.evidence =~= heavy_issue(dependency@, reason@).evidence);
    r
}

// ---------------------------------------------------------------------------
// The rules
// ---------------------------------------------------------------------------

/// A dependency health rule: it reports issues about a project and may
/// offer a fix for one of them.
pub trait Rule {
    fn id(&self) -> &'static str;

    fn title(&self) -> &'static str;

    fn severity(&self) -> Severity;

    fn check(&self, project: &Project) -> Vec<Issue>;

    fn fix(&self, project: &Project, issue: &Issue) -> Option<Fix>;
}

pub open spec fn project_dependencies(p: Project) -> Seq<DependencyView> {
    dependency_views(p.manifest.dependencies@)
}

/// The index of the first dependency that satisfies `pred`.
pub open spec fn first_where(deps: Seq<DependencyView>, pred: spec_fn(DependencyView) -> bool) -> Option<int>
    decreases deps.len(),
{
    if deps.len() == 0 {
        None
    } else {
        match first_where(deps.drop_last(), pred) {
            Some(i) => Some(i),
            None => if pred(deps.last()) {
                Some(deps.len() - 1)
            } else {
                None
            },
        }
    }
}

proof fn lemma_first_where(deps: Seq<DependencyView>, pred: spec_fn(DependencyView) -> bool)
    ensures
        first_where(deps, pred) matches Some(i) ==> 0 <= i < deps.len(),
    decreases deps.len(),
{
    if deps.len() > 0 {
        lemma_first_where(deps.drop_last(), pred);
    }
}

pub open spec fn spec_tokio_check(p: Project) -> Seq<IssueView> {
    tokio_issues(p, project_dependencies(p))
}

pub open spec fn spec_reqwest_check(p: Project) -> Seq<IssueView> {
    reqwest_issues(project_dependencies(p))
}

pub open spec fn spec_unused_check(p: Project) -> Seq<IssueView> {
    unused_issues(p, project_dependencies(p))
}

pub open spec fn spec_duplicate_check(p: Project) -> Seq<IssueView> {
    match p.lockfile {
        Some(l) => duplicate_issues(several_versions(canonical_groups(l.packages@))),
        None => Seq::empty(),
    }
}

pub open spec fn spec_heavy_check(p: Project) -> Seq<IssueView> {
    heavy_issues(project_dependencies(p))
}

/// A full-featured Tokio dependency that `issue` names.
pub open spec fn tokio_fix_target(issue: IssueView) -> spec_fn(DependencyView) -> bool {
    |d: DependencyView| uses_tokio_full(d) && spec_issue_matches_dependency(issue, d)
}

/// A dependency that `issue` names and that can be removed safely.
pub open spec fn unused_fix_target(p: Project, issue: IssueView) -> spec_fn(DependencyView) -> bool {
    |d: DependencyView| spec_safe_to_remove(p, d) && spec_issue_matches_dependency(issue, d)
}

/// The fix `tokio-full` offers for an issue: the replacement feature list
/// for the first full-featured Tokio dependency the issue names.
pub open spec fn spec_tokio_fix(p: Project, issue: IssueView) -> Option<FixView> {
    let deps = project_dependencies(p);
    if issue.rule_id != "tokio-full"@ {
        None
    } else {
        match first_where(deps, tokio_fix_target(issue)) {
            Some(i) => match spec_tokio_replacement(p, deps[i]) {
                Some(features) => Some(
                    FixView {
                        issue_id: issue.id,
                        edits: seq![
                            EditView::ReplaceDependencyFeatures {
                                section: deps[i].section,
                                name: deps[i].name,
                                features,
                                default_features: None,
                            },
                        ],
                        safety: FixSafety::Safe,
                    },
                ),
                None => None,
            },
            None => None,
        }
    }
}

/// The fix `unused-dependency` offers for an issue: removing the first
/// dependency the issue names whose removal is safe.
pub open spec fn spec_unused_fix(p: Project, issue: IssueView) -> Option<FixView> {
    let deps = project_dependencies(p);
    if issue.rule_id != "unused-dependency"@ {
        None
    } else {
        match first_where(deps, unused_fix_target(p, issue)) {
            Some(i) => Some(
                FixView {
                    issue_id: issue.id,
                    edits: seq![
                        EditView::RemoveDependency { section: deps[i].section, name: deps[i].name },
                    ],
                    safety: FixSafety::Safe,
                },
            ),
            None => None,
        }
    }
}

pub open spec fn fix_view(f: Option<Fix>) -> Option<FixView> {
    match f {
        Some(f) => Some(f@),
        None => None,
    }
}

/// `tokio` with the `full` feature set.
#[derive(Debug, Clone, Copy, PartialEq, Eq, Structural)]
pub struct TokioFullRule;

/// `reqwest` with its default features.
#[derive(Debug, Clone, Copy, PartialEq, Eq, Structural)]
pub struct ReqwestDefaultFeaturesRule;

/// Dependencies the sources never mention.
#[derive(Debug, Clone, Copy, PartialEq, Eq, Structural)]
pub struct UnusedDependencyRule;

/// Crates the lockfile pins in several versions.
#[derive(Debug, Clone, Copy, PartialEq, Eq, Structural)]
pub struct DuplicateVersionsRule;

/// Direct dependencies that are often expensive to compile.
#[derive(Debug, Clone, Copy, PartialEq, Eq, Structural)]
pub struct HeavyCrateRule;

impl Rule for TokioFullRule {
    fn id(&self) -> (r: &'static str)
        ensures
            r@ == "tokio-full"@,
    {
        "tokio-full"
    }

    fn title(&self) -> (r: &'static str)
        ensures
            r@ == "Tokio full feature set"@,
    {
        "Tokio full feature set"
    }

    fn severity(&self) -> (r: Severity)
        ensures
            r == Severity::High,
    {
        Severity::High
    }

    fn check(&self, project: &Project) -> (r: Vec<Issue>)
        ensures
            issue_views(r@) == spec_tokio_check(*project),
    {
        let deps = &project.manifest.dependencies;
        let ghost all = project_dependencies(*project);
        let mut out: Vec<Issue> = Vec::new();
        assert(issue_views(out@) =~= Seq::empty());
        for i in 0..deps.len()
            invariant
                deps == &project.manifest.dependencies,
                all == dependency_views(deps@),
                issue_views(out@) == tokio_issues(*project, all.take(i as int)),
        {
            assert(all.take(i + 1).drop_last() == all.take(i as int));
            let d = &deps[i];
            assert(all.take(i + 1).last() == d@);
            if dependency_matches_package(d, "tokio") && has_feature(&d.features, "full") {
                let issue = tokio_issue_for(project, d);
                let ghost before = out@;
                let ghost iv = issue@;
                out.push(issue);
                assert(issue_views(out@) =~= issue_views(before).push(iv));
            }
        }
        assert(all.take(deps@.len() as int) == all);
        out
    }

    fn fix(&self, project: &Project, issue: &Issue) -> (r: Option<Fix>)
        ensures
            fix_view(r) == spec_tokio_fix(*project, issue@),
    {
        if !str_eq(issue.rule_id.as_str(), "tokio-full") {
            return None;
        }
        let deps = &project.manifest.dependencies;
        let ghost all = project_dependencies(*project);
        let ghost pred = tokio_fix_target(issue@);
        let mut i: usize = 0;
        while i < deps.len()
            invariant
                deps == &project.manifest.dependencies,
                all == dependency_views(deps@),
                i <= deps@.len(),
                pred == tokio_fix_target(issue@),
                issue@.rule_id == "tokio-full"@,
                first_where(all.take(i as int), pred) is None,
            decreases deps@.len() - i,
        {
            assert(all.take(i + 1).drop_last() == all.take(i as int));
            let d = &deps[i];
            assert(all.take(i + 1).last() == d@);
            assert(all[i as int] == d@);
            if dependency_matches_package(d, "tokio") && has_feature(&d.features, "full")
                && issue_matches_dependency(issue, d) {
                proof {
                    assert(pred(all.take(i + 1).last()));
                    assert(first_where(all.take(i + 1), pred) == Some(i as int));
                    assert(first_where(all, pred) == Some(i as int)) by {
                        lemma_first_where_prefix(all, i as int + 1, pred);
                    }
                }
                let features = tokio_replacement_features(project, d)?;
                let ghost fv = views(features@);
                let mut edits: Vec<Edit> = Vec::new();
                edits.push(
                    Edit::ReplaceDependencyFeatures {
                        section: d.section,
                        name: owned(d.name.as_str()),
                        features,
                        default_features: None,
                    },
                );
                let fix = Fix { issue_id: owned(issue.id.as_str()), edits, safety: FixSafety::Safe };
                assert(fix@.edits =~= seq![
                    EditView::ReplaceDependencyFeatures {
                        section: d@.section,
                        name: d@.name,
                        features: fv,
                        default_features: None,
                    },
                ]);
                return Some(fix);
            }
            i = i + 1;
        }
        assert(all.take(deps@.len() as int) == all);
        None
    }
}

/// A first match among a prefix is the first match of the whole list.
proof fn lemma_first_where_prefix(
    deps: Seq<DependencyView>,
    n: int,
    pred: spec_fn(DependencyView) -> bool,
)
    requires
        0 <= n <= deps.len(),
        first_where(deps.take(n), pred) is Some,
    ensures
        first_where(deps, pred) == first_where(deps.take(n), pred),
    decreases deps.len() - n,
{
    if n < deps.len() {
        assert(deps.take(n + 1).drop_last() == deps.take(n));
        lemma_first_where_prefix(deps, n + 1, pred);
    } else {
        assert(deps.take(n) == deps);
    }
}

impl Rule for ReqwestDefaultFeaturesRule {
    fn id(&self) -> (r: &'static str)
        ensures
            r@ == "reqwest-default-features"@,
    {
        "reqwest-default-features"
    }

    fn title(&self) -> (r: &'static str)
        ensures
            r@ == "Reqwest default features"@,
    {
        "Reqwest default features"
    }

    fn severity(&self) -> (r: Severity)
        ensures
            r == Severity::Low,
    {
        Severity::Low
    }

    fn check(&self, project: &Project) -> (r: Vec<Issue>)
        ensures
            issue_views(r@) == spec_reqwest_check(*project),
    {
        let deps = &project.manifest.dependencies;
        let ghost all = project_dependencies(*project);
        let mut out: Vec<Issue> = Vec::new();
        assert(issue_views(out@) =~= Seq::empty());
        for i in 0..deps.len()
            invariant
                deps == &project.manifest.dependencies,
                all == dependency_views(deps@),
                issue_views(out@) == reqwest_issues(all.take(i as int)),
        {
            assert(all.take(i + 1).drop_last() == all.take(i as int));
            let d = &deps[i];
            assert(all.take(i + 1).last() == d@);
            if dependency_matches_package(d, "reqwest") && !d.workspace && d.default_features
                != Some(false) {
                let issue = reqwest_issue_for(d);
                let ghost before = out@;
                let ghost iv = issue@;
                out.push(issue);
                assert(issue_views(out@) =~= issue_views(before).push(iv));
            }
        }
        assert(all.take(deps@.len() as int) == all);
        out
    }

    fn fix(&self, project: &Project, issue: &Issue) -> (r: Option<Fix>)
        ensures
            r is None,
    {
        None
    }
}

impl Rule for UnusedDependencyRule {
    fn id(&self) -> (r: &'static str)
        ensures
            r@ == "unused-dependency"@,
    {
        "unused-dependency"
    }

    fn title(&self) -> (r: &'static str)
        ensures
            r@ == "Possibly unused dependency"@,
    {
        "Possibly unused dependency"
    }

    fn severity(&self) -> (r: Severity)
        ensures
            r == Severity::Medium,
    {
        Severity::Medium
    }

    fn check(&self, project: &Project) -> (r: Vec<Issue>)
        ensures
            issue_views(r@) == spec_unused_check(*project),
    {
        let deps = &project.manifest.dependencies;
        let ghost all = project_dependencies(*project);
        let mut out: Vec<Issue> = Vec::new();
        assert(issue_views(out@) =~= Seq::empty());
        for i in 0..deps.len()
            invariant
                deps == &project.manifest.dependencies,
                all == dependency_views(deps@),
                issue_views(out@) == unused_issues(*project, all.take(i as int)),
        {
            assert(all.take(i + 1).drop_last() == all.take(i as int));
            let d = &deps[i];
            assert(all.take(i + 1).last() == d@);
            if d.section != DependencySection::Workspace && d.section != DependencySection::Build
                && !d.optional && !d.workspace {
                let crate_name = d.crate_name();
                if !project.source_index.crate_appears_used(crate_name.as_str()) {
                    let issue = unused_issue_for(project, d);
                    let ghost before = out@;
                    let ghost iv = issue@;
                    out.push(issue);
                    assert(issue_views(out@) =~= issue_views(before).push(iv));
                }
            }
        }
        assert(all.take(deps@.len() as int) == all);
        out
    }

    fn fix(&self, project: &Project, issue: &Issue) -> (r: Option<Fix>)
        ensures
            fix_view(r) == spec_unused_fix(*project, issue@),
    {
        if !str_eq(issue.rule_id.as_str(), "unused-dependency") {
            return None;
        }
        let deps = &project.manifest.dependencies;
        let ghost all = project_dependencies(*project);
        let ghost pred = unused_fix_target(*project, issue@);
        let mut i: usize = 0;
        while i < deps.len()
            invariant
                deps == &project.manifest.dependencies,
                all == dependency_views(deps@),
                i <= deps@.len(),
                pred == unused_fix_target(*project, issue@),
                issue@.rule_id == "unused-dependency"@,
                first_where(all.take(i as int), pred) is None,
            decreases deps@.len() - i,
        {
            assert(all.take(i + 1).drop_last() == all.take(i as int));
            let d = &deps[i];
            assert(all.take(i + 1).last() == d@);
            assert(all[i as int] == d@);
            if unused_dependency_is_safe_to_remove(project, d) && issue_matches_dependency(issue, d) {
                proof {
                    assert(pred(all.take(i + 1).last()));
                    assert(first_where(all.take(i + 1), pred) == Some(i as int));
                    lemma_first_where_prefix(all, i as int + 1, pred);
                }
                let mut edits: Vec<Edit> = Vec::new();
                edits.push(Edit::RemoveDependency { section: d.section, name: owned(d.name.as_str()) });
                let fix = Fix { issue_id: owned(issue.id.as_str()), edits, safety: FixSafety::Safe };
                assert(fix@.edits =~= seq![
                    EditView::RemoveDependency { section: d@.section, name: d@.name },
                ]);
                return Some(fix);
            }
            i = i + 1;
        }
        assert(all.take(deps@.len() as int) == all);
        None
    }
}

impl Rule for DuplicateVersionsRule {
    fn id(&self) -> (r: &'static str)
        ensures
            r@ == "duplicate-versions"@,
    {
        "duplicate-versions"
    }

    fn title(&self) -> (r: &'static str)
        ensures
            r@ == "Duplicate crate versions"@,
    {
        "Duplicate crate versions"
    }

    fn severity(&self) -> (r: Severity)
        ensures
            r == Severity::Medium,
    {
        Severity::Medium
    }

    fn check(&self, project: &Project) -> (r: Vec<Issue>)
        ensures
            issue_views(r@) == spec_duplicate_check(*project),
    {
        let mut out: Vec<Issue> = Vec::new();
        assert(issue_views(out@) =~= Seq::empty());
        let lockfile = match &project.lockfile {
            Some(l) => l,
            None => {
                return out;
            },
        };
        let groups = lockfile.duplicate_versions();
        let ghost all = crate_versions_views(groups@);
        for i in 0..groups.len()
            invariant
                all == crate_versions_views(groups@),
                issue_views(out@) == duplicate_issues(all.take(i as int)),
        {
            let issue = duplicate_issue_for(&groups[i]);
            let ghost before = out@;
            let ghost iv = issue@;
            out.push(issue);
            assert(issue_views(out@) =~= issue_views(before).push(iv));
            assert(duplicate_issues(all.take(i + 1)) =~= duplicate_issues(all.take(i as int)).push(iv));
        }
        assert(all.take(groups@.len() as int) == all);
        out
    }

    fn fix(&self, project: &Project, issue: &Issue) -> (r: Option<Fix>)
        ensures
            r is None,
    {
        None
    }
}

impl Rule for HeavyCrateRule {
    fn id(&self) -> (r: &'static str)
        ensures
            r@ == "heavy-crate"@,
    {
        "heavy-crate"
    }

    fn title(&self) -> (r: &'static str)
        ensures
            r@ == "Heavy direct dependency"@,
    {
        "Heavy direct dependency"
    }

    fn severity(&self) -> (r: Severity)
        ensures
            r == Severity::Low,
    {
        Severity::Low
    }

    fn check(&self, project: &Project) -> (r: Vec<Issue>)
        ensures
            issue_views(r@) == spec_heavy_check(*project),
    {
        let deps = &project.manifest.dependencies;
        let ghost all = project_dependencies(*project);
        let mut out: Vec<Issue> = Vec::new();
        assert(issue_views(out@) =~= Seq::empty());
        for i in 0..deps.len()
            invariant
                deps == &project.manifest.dependencies,
                all == dependency_views(deps@),
                issue_views(out@) == heavy_issues(all.take(i as int)),
        {
            assert(all.take(i + 1).drop_last() == all.take(i as int));
            let d = &deps[i];
            assert(all.take(i + 1).last() == d@);
            if let Some(reason) = heavy_crate_reason(package_name(d)) {
                let issue = heavy_issue_for(d, reason);
                let ghost before = out@;
                let ghost iv = issue@;
                out.push(issue);
                assert(issue_views(out@) =~= issue_views(before).push(iv));
            }
        }
        assert(all.take(deps@.len() as int) == all);
        out
    }

    fn fix(&self, project: &Project, issue: &Issue) -> (r: Option<Fix>)
        ensures
            r is None,
    {
        None
    }
}

// ---------------------------------------------------------------------------
// The registry and running every rule
// ---------------------------------------------------------------------------

/// One of the rules the registry holds.
#[derive(Debug, Clone, Copy, PartialEq, Eq, Structural)]
pub enum RegisteredRule {
    TokioFull(TokioFullRule),
    ReqwestDefaultFeatures(ReqwestDefaultFeaturesRule),
    UnusedDependency(UnusedDependencyRule),
    DuplicateVersions(DuplicateVersionsRule),
    HeavyCrate(HeavyCrateRule),
}

impl RegisteredRule {
    pub open spec fn spec_id(self) -> Seq<char> {
        match self {
            RegisteredRule::TokioFull(_) => "tokio-full"@,
            RegisteredRule::ReqwestDefaultFeatures(_) => "reqwest-default-features"@,
            RegisteredRule::UnusedDependency(_) => "unused-dependency"@,
            RegisteredRule::DuplicateVersions(_) => "duplicate-versions"@,
            RegisteredRule::HeavyCrate(_) => "heavy-crate"@,
        }
    }

    pub open spec fn spec_title(self) -> Seq<char> {
        match self {
            RegisteredRule::TokioFull(_) => "Tokio full feature set"@,
            RegisteredRule::ReqwestDefaultFeatures(_) => "Reqwest default features"@,
            RegisteredRule::UnusedDependency(_) => "Possibly unused dependency"@,
            RegisteredRule::DuplicateVersions(_) => "Duplicate crate versions"@,
            RegisteredRule::HeavyCrate(_) => "Heavy direct dependency"@,
        }
    }

    pub open spec fn spec_severity(self) -> Severity {
        match self {
            RegisteredRule::TokioFull(_) => Severity::High,
            RegisteredRule::ReqwestDefaultFeatures(_) => Severity::Low,
            RegisteredRule::UnusedDependency(_) => Severity::Medium,
            RegisteredRule::DuplicateVersions(_) => Severity::Medium,
            RegisteredRule::HeavyCrate(_) => Severity::Low,
        }
    }

    pub open spec fn spec_check(self, p: Project) -> Seq<IssueView> {
        match self {
            RegisteredRule::TokioFull(_) => spec_tokio_check(p),
            RegisteredRule::ReqwestDefaultFeatures(_) => spec_reqwest_check(p),
            RegisteredRule::UnusedDependency(_) => spec_unused_check(p),
            RegisteredRule::DuplicateVersions(_) => spec_duplicate_check(p),
            RegisteredRule::HeavyCrate(_) => spec_heavy_check(p),
        }
    }

    pub open spec fn spec_fix(self, p: Project, issue: IssueView) -> Option<FixView> {
        match self {
            RegisteredRule::TokioFull(_) => spec_tokio_fix(p, issue),
            RegisteredRule::UnusedDependency(_) => spec_unused_fix(p, issue),
            _ => None,
        }
    }
}

impl Rule for RegisteredRule {
    fn id(&self) -> (r: &'static str)
        ensures
            r@ == self.spec_id(),
    {
        match self {
            RegisteredRule::TokioFull(rule) => rule.id(),
            RegisteredRule::ReqwestDefaultFeatures(rule) => rule.id(),
            RegisteredRule::UnusedDependency(rule) => rule.id(),
            RegisteredRule::DuplicateVersions(rule) => rule.id(),
            RegisteredRule::HeavyCrate(rule) => rule.id(),
        }
    }

    fn title(&self) -> (r: &'static str)
        ensures
            r@ == self.spec_title(),
    {
        match self {
            RegisteredRule::TokioFull(rule) => rule.title(),
            RegisteredRule::ReqwestDefaultFeatures(rule) => rule.title(),
            RegisteredRule::UnusedDependency(rule) => rule.title(),
            RegisteredRule::DuplicateVersions(rule) => rule.title(),
            RegisteredRule::HeavyCrate(rule) => rule.title(),
        }
    }

    fn severity(&self) -> (r: Severity)
        ensures
            r == self.spec_severity(),
    {
        match self {
            RegisteredRule::TokioFull(rule) => rule.severity(),
            RegisteredRule::ReqwestDefaultFeatures(rule) => rule.severity(),
            RegisteredRule::UnusedDependency(rule) => rule.severity(),
            RegisteredRule::DuplicateVersions(rule) => rule.severity(),
            RegisteredRule::HeavyCrate(rule) => rule.severity(),
        }
    }

    fn check(&self, project: &Project) -> (r: Vec<Issue>)
        ensures
            issue_views(r@) == self.spec_check(*project),
    {
        match self {
            RegisteredRule::TokioFull(rule) => rule.check(project),
            RegisteredRule::ReqwestDefaultFeatures(rule) => rule.check(project),
            RegisteredRule::UnusedDependency(rule) => rule.check(project),
            RegisteredRule::DuplicateVersions(rule) => rule.check(project),
            RegisteredRule::HeavyCrate(rule) => rule.check(project),
        }
    }

    fn fix(&self, project: &Project, issue: &Issue) -> (r: Option<Fix>)
        ensures
            fix_view(r) == self.spec_fix(*project, issue@),
    {
        match self {
            RegisteredRule::TokioFull(rule) => rule.fix(project, issue),
            RegisteredRule::ReqwestDefaultFeatures(rule) => rule.fix(project, issue),
            RegisteredRule::UnusedDependency(rule) => rule.fix(project, issue),
            RegisteredRule::DuplicateVersions(rule) => rule.fix(project, issue),
            RegisteredRule::HeavyCrate(rule) => rule.fix(project, issue),
        }
    }
}

/// The rules, in the order they run.
pub open spec fn spec_registry() -> Seq<RegisteredRule> {
    seq![
        RegisteredRule::TokioFull(TokioFullRule),
        RegisteredRule::ReqwestDefaultFeatures(ReqwestDefaultFeaturesRule),
        RegisteredRule::UnusedDependency(UnusedDependencyRule),
        RegisteredRule::DuplicateVersions(DuplicateVersionsRule),
        RegisteredRule::HeavyCrate(HeavyCrateRule),
    ]
}

/// Every rule, in the order they run.
pub fn registry() -> (r: Vec<RegisteredRule>)
    ensures
        r@ == spec_registry(),
{
    let mut rules: Vec<RegisteredRule> = Vec::new();
    rules.push(RegisteredRule::TokioFull(TokioFullRule));
    rules.push(RegisteredRule::ReqwestDefaultFeatures(ReqwestDefaultFeaturesRule));
    rules.push(RegisteredRule::UnusedDependency(UnusedDependencyRule));
    rules.push(RegisteredRule::DuplicateVersions(DuplicateVersionsRule));
    rules.push(RegisteredRule::HeavyCrate(HeavyCrateRule));
    assert(rules@ =~= spec_registry());
    rules
}

/// The issues of `rules`, rule after rule.
pub open spec fn issues_of(rules: Seq<RegisteredRule>, p: Project) -> Seq<IssueView>
    decreases rules.len(),
{
    if rules.len() == 0 {
        Seq::empty()
    } else {
        issues_of(rules.drop_last(), p) + rules.last().spec_check(p)
    }
}

/// `a` comes before `b` in a report: higher severity first, then by rule
/// id, then by issue id.
pub open spec fn issue_before(a: IssueView, b: IssueView) -> bool {
    ||| a.severity.rank() > b.severity.rank()
    ||| (a.severity.rank() == b.severity.rank() && seq_less(a.rule_id, b.rule_id))
    ||| (a.severity.rank() == b.severity.rank() && a.rule_id == b.rule_id && seq_less(a.id, b.id))
}

/// Where `x` goes in `s`: before the first element it comes before.
pub open spec fn insertion_point(s: Seq<IssueView>, x: IssueView) -> int
    decreases s.len(),
{
    if s.len() == 0 {
        0
    } else if issue_before(x, s[0]) {
        0
    } else {
        1 + insertion_point(s.drop_first(), x)
    }
}

proof fn lemma_insertion_point(s: Seq<IssueView>, x: IssueView)
    ensures
        0 <= insertion_point(s, x) <= s.len(),
    decreases s.len(),
{
    if s.len() > 0 && !issue_before(x, s[0]) {
        lemma_insertion_point(s.drop_first(), x);
    }
}

/// `s` in report order; issues that compare equal keep their order.
pub open spec fn sort_issues(s: Seq<IssueView>) -> Seq<IssueView>
    decreases s.len(),
{
    if s.len() == 0 {
        s
    } else {
        let sorted = sort_issues(s.drop_last());
        sorted.insert(insertion_point(sorted, s.last()), s.last())
    }
}

/// `a` comes before `b` in a report.
pub fn issue_comes_before(a: &Issue, b: &Issue) -> (r: bool)
    ensures
        r == issue_before(a@, b@),
{
    if a.severity.more_severe_than(b.severity) {
        return true;
    }
    if b.severity.more_severe_than(a.severity) {
        return false;
    }
    let ar = chars_of(a.rule_id.as_str());
    let br = chars_of(b.rule_id.as_str());
    match crate::text::chars_order(&ar, &br) {
        Some(less) => less,
        None => {
            let ai = chars_of(a.id.as_str());
            let bi = chars_of(b.id.as_str());
            match crate::text::chars_order(&ai, &bi) {
                Some(less) => less,
                None => false,
            }
        },
    }
}

fn insert_issue(sorted: &mut Vec<Issue>, x: Issue)
    ensures
        issue_views(final(sorted)@) == issue_views(old(sorted)@).insert(
            insertion_point(issue_views(old(sorted)@), x@),
            x@,
        ),
{
    let ghost all = issue_views(sorted@);
    let mut i: usize = 0;
    assert(all.skip(0) == all);
    while i < sorted.len()
        invariant
            all == issue_views(sorted@),
            i <= sorted@.len(),
            insertion_point(all, x@) == i + insertion_point(all.skip(i as int), x@),
        ensures
            i == sorted@.len() || issue_before(x@, sorted@[i as int]@),
        decreases sorted@.len() - i,
    {
        assert(all.skip(i as int)[0] == sorted@[i as int]@);
        if issue_comes_before(&x, &sorted[i]) {
            break;
        }
        assert(all.skip(i as int).drop_first() == all.skip(i + 1));
        i = i + 1;
    }
    if i < sorted.len() {
        assert(all.skip(i as int)[0] == sorted@[i as int]@);
    } else {
        assert(all.skip(i as int).len() == 0);
    }
    assert(insertion_point(all, x@) == i);
    let ghost before = sorted@;
    let ghost xv = x@;
    sorted.insert(i, x);
    assert(issue_views(sorted@) =~= issue_views(before).insert(i as int, xv));
}

/// `issues` in report order, equal issues keeping their order.
pub fn sort_for_report(issues: Vec<Issue>) -> (r: Vec<Issue>)
    ensures
        issue_views(r@) == sort_issues(issue_views(issues@)),
{
    let ghost all = issue_views(issues@);
    let n = issues.len();
    let mut rest = issues;
    let mut sorted: Vec<Issue> = Vec::new();
    let mut k: usize = 0;
    assert(all.take(0) =~= Seq::empty());
    assert(issue_views(sorted@) =~= sort_issues(all.take(0)));
    while rest.len() > 0
        invariant
            n == all.len(),
            k <= all.len(),
            issue_views(rest@) == all.skip(k as int),
            issue_views(sorted@) == sort_issues(all.take(k as int)),
        decreases rest@.len(),
    {
        let ghost before = rest@;
        let x = rest.remove(0);
        assert(issue_views(before)[0] == before[0]@);
        assert(issue_views(rest@) =~= issue_views(before).drop_first());
        assert(x@ == all[k as int]);
        insert_issue(&mut sorted, x);
        assert(all.take(k + 1).drop_last() == all.take(k as int));
        assert(all.take(k + 1).last() == all[k as int]);
        k = k + 1;
    }
    assert(all.take(k as int) == all);
    sorted
}

/// Every issue of every rule, in report order: by severity, highest first,
/// then by rule id, then by issue id.
pub fn run_all(project: &Project) -> (r: Vec<Issue>)
    ensures
        issue_views(r@) == sort_issues(issues_of(spec_registry(), *project)),
{
    let rules = registry();
    let mut issues: Vec<Issue> = Vec::new();
    assert(issue_views(issues@) =~= Seq::empty());
    for i in 0..rules.len()
        invariant
            rules@ == spec_registry(),
            issue_views(issues@) == issues_of(rules@.take(i as int), *project),
    {
        assert(rules@.take(i + 1).drop_last() == rules@.take(i as int));
        let mut found = rules[i].check(project);
        let ghost before = issues@;
        let ghost added = found@;
        issues.append(&mut found);
        assert(issue_views(issues@) =~= issue_views(before) + issue_views(added));
    }
    assert(rules@.take(rules@.len() as int) == rules@);
    sort_for_report(issues)
}

// ---------------------------------------------------------------------------
// Laws of the report order
// ---------------------------------------------------------------------------

/// No issue comes before an issue listed ahead of it.
pub open spec fn report_ordered(s: Seq<IssueView>) -> bool {
    forall|i: int, j: int| 0 <= i < j < s.len() ==> !issue_before(#[trigger] s[j], #[trigger] s[i])
}

proof fn lemma_seq_less_asymmetric(a: Seq<char>, b: Seq<char>)
    requires
        seq_less(a, b),
    ensures
        !seq_less(b, a),
{
    if seq_less(b, a) {
        crate::text::lemma_less_transitive(a, b, a);
        crate::text::lemma_less_irreflexive(a);
    }
}

proof fn lemma_before_asymmetric(a: IssueView, b: IssueView)
    requires
        issue_before(a, b),
    ensures
        !issue_before(b, a),
{
    if seq_less(a.rule_id, b.rule_id) {
        lemma_seq_less_asymmetric(a.rule_id, b.rule_id);
    }
    if seq_less(a.id, b.id) {
        lemma_seq_less_asymmetric(a.id, b.id);
    }
    if a.rule_id == b.rule_id {
        crate::text::lemma_less_irreflexive(a.rule_id);
    }
}

proof fn lemma_before_transitive(a: IssueView, b: IssueView, c: IssueView)
    requires
        issue_before(a, b),
        issue_before(b, c),
    ensures
        issue_before(a, c),
{
    if a.severity.rank() == c.severity.rank() {
        if seq_less(a.rule_id, b.rule_id) && seq_less(b.rule_id, c.rule_id) {
            crate::text::lemma_less_transitive(a.rule_id, b.rule_id, c.rule_id);
        }
        if seq_less(a.id, b.id) && seq_less(b.id, c.id) {
            crate::text::lemma_less_transitive(a.id, b.id, c.id);
        }
    }
}

proof fn lemma_insertion_point_bounds(s: Seq<IssueView>, x: IssueView)
    ensures
        0 <= insertion_point(s, x) <= s.len(),
        forall|k: int| 0 <= k < insertion_point(s, x) ==> !issue_before(x, #[trigger] s[k]),
        insertion_point(s, x) < s.len() ==> issue_before(x, s[insertion_point(s, x)]),
    decreases s.len(),
{
    if s.len() > 0 && !issue_before(x, s[0]) {
        lemma_insertion_point_bounds(s.drop_first(), x);
        assert forall|k: int| 0 <= k < insertion_point(s, x) implies !issue_before(
            x,
            #[trigger] s[k],
        ) by {
            if k > 0 {
                assert(s[k] == s.drop_first()[k - 1]);
            }
        }
    }
}

proof fn lemma_insert_ordered(s: Seq<IssueView>, x: IssueView)
    requires
        report_ordered(s),
    ensures
        report_ordered(s.insert(insertion_point(s, x), x)),
{
    lemma_insertion_point_bounds(s, x);
    let p = insertion_point(s, x);
    let t = s.insert(p, x);
    assert forall|i: int, j: int| 0 <= i < j < t.len() implies !issue_before(
        #[trigger] t[j],
        #[trigger] t[i],
    ) by {
        if j < p {
            assert(t[i] == s[i] && t[j] == s[j]);
        } else if j == p {
            assert(t[j] == x && t[i] == s[i]);
        } else if i < p {
            assert(t[i] == s[i] && t[j] == s[j - 1]);
        } else if i == p {
            assert(t[i] == x && t[j] == s[j - 1]);
            if issue_before(s[j - 1], x) {
                if j - 1 == p {
                    lemma_before_asymmetric(x, s[p]);
                } else {
                    lemma_before_transitive(s[j - 1], x, s[p]);
                }
            }
        } else {
            assert(t[i] == s[i - 1] && t[j] == s[j - 1]);
        }
    }
}

/// The report order sorts: no issue of `sort_issues(s)` comes before one
/// listed ahead of it, and it holds exactly the issues of `s`.
pub proof fn law_report_order(s: Seq<IssueView>)
    ensures
        report_ordered(sort_issues(s)),
        sort_issues(s).to_multiset() == s.to_multiset(),
    decreases s.len(),
{
    broadcast use vstd::seq_lib::to_multiset_build, vstd::seq_lib::to_multiset_insert;

    if s.len() > 0 {
        law_report_order(s.drop_last());
        let sorted = sort_issues(s.drop_last());
        lemma_insert_ordered(sorted, s.last());
        lemma_insertion_point_bounds(sorted, s.last());
        assert(s.drop_last().push(s.last()) == s);
    } else {
        assert(sort_issues(s) == s);
    }
}

/// `a` and `b` agree on everything the report order compares.
pub open spec fn same_key(a: IssueView, b: IssueView) -> bool {
    a.severity == b.severity && a.rule_id == b.rule_id && a.id == b.id
}

/// The issues that agree with `k` on what the report order compares.
pub open spec fn with_key(k: IssueView) -> spec_fn(IssueView) -> bool {
    |y: IssueView| same_key(y, k)
}

proof fn lemma_filter_none(s: Seq<IssueView>, pred: spec_fn(IssueView) -> bool)
    requires
        forall|i: int| 0 <= i < s.len() ==> !pred(#[trigger] s[i]),
    ensures
        s.filter(pred) == Seq::<IssueView>::empty(),
    decreases s.len(),
{
    reveal(Seq::filter);
    if s.len() > 0 {
        assert forall|i: int| 0 <= i < s.drop_last().len() implies !pred(
            #[trigger] s.drop_last()[i],
        ) by {
            assert(s.drop_last()[i] == s[i]);
        }
        lemma_filter_none(s.drop_last(), pred);
        assert(!pred(s[s.len() - 1]));
    }
}

proof fn lemma_filter_insert(s: Seq<IssueView>, x: IssueView, k: IssueView)
    requires
        report_ordered(s),
    ensures
        s.insert(insertion_point(s, x), x).filter(with_key(k)) == (if same_key(x, k) {
            s.filter(with_key(k)).push(x)
        } else {
            s.filter(with_key(k))
        }),
{
    broadcast use Seq::filter_distributes_over_add;

    lemma_insertion_point_bounds(s, x);
    let p = insertion_point(s, x);
    let pred = with_key(k);
    let front = s.take(p);
    let back = s.skip(p);
    assert(s == front + back);
    assert(s.insert(p, x) == front + seq![x] + back);
    reveal_with_fuel(Seq::filter, 2);
    assert(seq![x].drop_last() == Seq::<IssueView>::empty());
    if same_key(x, k) {
        assert forall|i: int| 0 <= i < back.len() implies !pred(#[trigger] back[i]) by {
            assert(back[i] == s[p + i]);
            if pred(back[i]) {
                assert(same_key(s[p + i], x));
                crate::text::lemma_less_irreflexive(x.rule_id);
                crate::text::lemma_less_irreflexive(x.id);
                if i > 0 {
                    assert(!issue_before(s[p + i], s[p]));
                }
            }
        }
        lemma_filter_none(back, pred);
        assert(seq![x].filter(pred) == seq![x]);
        assert(front.filter(pred) + seq![x] == front.filter(pred).push(x));
    } else {
        assert(seq![x].filter(pred) == Seq::<IssueView>::empty());
    }
}

/// The report order is stable: issues that agree on severity, rule id and
/// issue id keep the order in which the rules produced them.
pub proof fn law_report_order_stable(s: Seq<IssueView>, k: IssueView)
    ensures
        sort_issues(s).filter(with_key(k)) == s.filter(with_key(k)),
    decreases s.len(),
{
    reveal(Seq::filter);
    if s.len() > 0 {
        law_report_order_stable(s.drop_last(), k);
        law_report_order(s.drop_last());
        lemma_filter_insert(sort_issues(s.drop_last()), s.last(), k);
    } else {
        assert(sort_issues(s) == s);
    }
}

// ---------------------------------------------------------------------------
// Which rule an issue belongs to
// ---------------------------------------------------------------------------

impl RegisteredRule {
    /// The severities an issue of this rule can have: the rules table of the
    /// documentation.
    pub open spec fn allows_severity(self, s: Severity) -> bool {
        match self {
            RegisteredRule::TokioFull(_) => s == Severity::High,
            RegisteredRule::ReqwestDefaultFeatures(_) => s == Severity::Low || s
                == Severity::Medium,
            RegisteredRule::UnusedDependency(_) => s == Severity::Medium,
            RegisteredRule::DuplicateVersions(_) => s == Severity::Medium || s == Severity::High,
            RegisteredRule::HeavyCrate(_) => s == Severity::Low,
        }
    }

    /// Only these rules ever offer a fix.
    pub open spec fn can_fix(self) -> bool {
        self is TokioFull || self is UnusedDependency
    }
}

/// Every issue of `issues` carries the id of `rule` and a severity the rule
/// allows.
pub open spec fn all_of_rule(issues: Seq<IssueView>, rule: RegisteredRule) -> bool {
    forall|i: int|
        0 <= i < issues.len() ==> (#[trigger] issues[i]).rule_id == rule.spec_id()
            && rule.allows_severity(issues[i].severity)
}

proof fn lemma_push_of_rule(prev: Seq<IssueView>, issue: IssueView, rule: RegisteredRule)
    requires
        all_of_rule(prev, rule),
        issue.rule_id == rule.spec_id(),
        rule.allows_severity(issue.severity),
    ensures
        all_of_rule(prev.push(issue), rule),
{
    assert forall|i: int| 0 <= i < prev.push(issue).len() implies (#[trigger] prev.push(
        issue,
    )[i]).rule_id == rule.spec_id() && rule.allows_severity(prev.push(issue)[i].severity) by {
        if i < prev.len() {
            assert(prev.push(issue)[i] == prev[i]);
        }
    }
}

proof fn lemma_tokio_issues_of_rule(p: Project, deps: Seq<DependencyView>)
    ensures
        all_of_rule(tokio_issues(p, deps), RegisteredRule::TokioFull(TokioFullRule)),
    decreases deps.len(),
{
    if deps.len() > 0 {
        lemma_tokio_issues_of_rule(p, deps.drop_last());
        if uses_tokio_full(deps.last()) {
            lemma_push_of_rule(
                tokio_issues(p, deps.drop_last()),
                tokio_issue(p, deps.last()),
                RegisteredRule::TokioFull(TokioFullRule),
            );
        }
    }
}

proof fn lemma_reqwest_issues_of_rule(deps: Seq<DependencyView>)
    ensures
        all_of_rule(
            reqwest_issues(deps),
            RegisteredRule::ReqwestDefaultFeatures(ReqwestDefaultFeaturesRule),
        ),
    decreases deps.len(),
{
    if deps.len() > 0 {
        lemma_reqwest_issues_of_rule(deps.drop_last());
        if keeps_reqwest_defaults(deps.last()) {
            lemma_push_of_rule(
                reqwest_issues(deps.drop_last()),
                reqwest_issue(deps.last()),
                RegisteredRule::ReqwestDefaultFeatures(ReqwestDefaultFeaturesRule),
            );
        }
    }
}

proof fn lemma_unused_issues_of_rule(p: Project, deps: Seq<DependencyView>)
    ensures
        all_of_rule(unused_issues(p, deps), RegisteredRule::UnusedDependency(UnusedDependencyRule)),
    decreases deps.len(),
{
    if deps.len() > 0 {
        lemma_unused_issues_of_rule(p, deps.drop_last());
        if looks_unused(p, deps.last()) {
            lemma_push_of_rule(
                unused_issues(p, deps.drop_last()),
                unused_issue(p, deps.last()),
                RegisteredRule::UnusedDependency(UnusedDependencyRule),
            );
        }
    }
}

proof fn lemma_duplicate_issues_of_rule(groups: Seq<CrateVersionsView>)
    ensures
        all_of_rule(
            duplicate_issues(groups),
            RegisteredRule::DuplicateVersions(DuplicateVersionsRule),
        ),
{
    let rule = RegisteredRule::DuplicateVersions(DuplicateVersionsRule);
    assert forall|i: int| 0 <= i < duplicate_issues(groups).len() implies (
    #[trigger] duplicate_issues(groups)[i]).rule_id == rule.spec_id() && rule.allows_severity(
        duplicate_issues(groups)[i].severity,
    ) by {
        assert(duplicate_issues(groups)[i] == duplicate_issue(groups[i]));
    }
}

proof fn lemma_heavy_issues_of_rule(deps: Seq<DependencyView>)
    ensures
        all_of_rule(heavy_issues(deps), RegisteredRule::HeavyCrate(HeavyCrateRule)),
    decreases deps.len(),
{
    if deps.len() > 0 {
        lemma_heavy_issues_of_rule(deps.drop_last());
        if let Some(reason) = spec_heavy_crate_reason(dep_package(deps.last())) {
            lemma_push_of_rule(
                heavy_issues(deps.drop_last()),
                heavy_issue(deps.last(), reason),
                RegisteredRule::HeavyCrate(HeavyCrateRule),
            );
        }
    }
}

proof fn lemma_check_of_rule(rule: RegisteredRule, p: Project)
    ensures
        all_of_rule(rule.spec_check(p), rule),
{
    match rule {
        RegisteredRule::TokioFull(_) => lemma_tokio_issues_of_rule(p, project_dependencies(p)),
        RegisteredRule::ReqwestDefaultFeatures(_) => lemma_reqwest_issues_of_rule(
            project_dependencies(p),
        ),
        RegisteredRule::UnusedDependency(_) => lemma_unused_issues_of_rule(
            p,
            project_dependencies(p),
        ),
        RegisteredRule::DuplicateVersions(_) => match p.lockfile {
            Some(l) => lemma_duplicate_issues_of_rule(
                several_versions(canonical_groups(l.packages@)),
            ),
            None => {},
        },
        RegisteredRule::HeavyCrate(_) => lemma_heavy_issues_of_rule(project_dependencies(p)),
    }
}

/// Only the Tokio and the unused-dependency rules ever offer a fix.
pub proof fn law_only_two_rules_fix(rule: RegisteredRule, p: Project, issue: IssueView)
    ensures
        rule.spec_fix(p, issue) is Some ==> rule.can_fix(),
{
}

proof fn lemma_issues_of_rules(rules: Seq<RegisteredRule>, p: Project)
    ensures
        forall|i: int|
            0 <= i < issues_of(rules, p).len() ==> exists|k: int|
                0 <= k < rules.len() && (#[trigger] rules[k]).spec_id() == (#[trigger] issues_of(
                    rules,
                    p,
                )[i]).rule_id && rules[k].allows_severity(issues_of(rules, p)[i].severity),
    decreases rules.len(),
{
    if rules.len() > 0 {
        let prev = issues_of(rules.drop_last(), p);
        let last = rules.last().spec_check(p);
        lemma_issues_of_rules(rules.drop_last(), p);
        lemma_check_of_rule(rules.last(), p);
        assert forall|i: int| 0 <= i < issues_of(rules, p).len() implies exists|k: int|
            0 <= k < rules.len() && (#[trigger] rules[k]).spec_id() == (#[trigger] issues_of(
                rules,
                p,
            )[i]).rule_id && rules[k].allows_severity(issues_of(rules, p)[i].severity) by {
            if i < prev.len() {
                assert(issues_of(rules, p)[i] == prev[i]);
                let k = choose|k: int|
                    0 <= k < rules.drop_last().len() && (#[trigger] rules.drop_last()[k]).spec_id()
                        == prev[i].rule_id && rules.drop_last()[k].allows_severity(prev[i].severity);
                assert(rules[k] == rules.drop_last()[k]);
            } else {
                assert(issues_of(rules, p)[i] == last[i - prev.len()]);
                assert(last[i - prev.len()].rule_id == rules.last().spec_id());
                assert(rules.last().allows_severity(last[i - prev.len()].severity));
                assert(rules[rules.len() - 1] == rules.last());
            }
        }
    }
}

/// Every issue of a report comes from a registered rule: its rule id is the
/// id of one of the rules the registry runs, and its severity one that rule
/// allows.
pub proof fn law_issues_name_registered_rules(p: Project)
    ensures
        forall|i: int|
            0 <= i < sort_issues(issues_of(spec_registry(), p)).len() ==> exists|k: int|
                0 <= k < spec_registry().len() && (#[trigger] spec_registry()[k]).spec_id() == (
                #[trigger] sort_issues(issues_of(spec_registry(), p))[i]).rule_id
                    && spec_registry()[k].allows_severity(
                    sort_issues(issues_of(spec_registry(), p))[i].severity,
                ),
{
    broadcast use vstd::seq_lib::to_multiset_contains;

    let all = issues_of(spec_registry(), p);
    let sorted = sort_issues(all);
    law_report_order(all);
    lemma_issues_of_rules(spec_registry(), p);
    assert forall|i: int| 0 <= i < sorted.len() implies exists|k: int|
        0 <= k < spec_registry().len() && (#[trigger] spec_registry()[k]).spec_id() == (
        #[trigger] sorted[i]).rule_id && spec_registry()[k].allows_severity(sorted[i].severity) by {
        assert(sorted.contains(sorted[i]));
        assert(sorted.to_multiset().count(sorted[i]) > 0);
        assert(all.contains(sorted[i]));
        let j = choose|j: int| 0 <= j < all.len() && all[j] == sorted[i];
        assert(all[j] == sorted[i]);
    }
}

// ---------------------------------------------------------------------------
// Laws of the fixes
// ---------------------------------------------------------------------------

/// No feature is listed twice.
pub open spec fn no_repeats(fs: Seq<Seq<char>>) -> bool {
    forall|i: int, j: int| 0 <= i < j < fs.len() ==> fs[i] != fs[j]
}

proof fn lemma_push_if(fs: Seq<Seq<char>>, f: Seq<char>, c: bool)
    ensures
        forall|g: Seq<char>| #[trigger]
            push_if(fs, f, c).contains(g) <==> (fs.contains(g) || (c && g == f)),
        no_repeats(fs) ==> no_repeats(push_if(fs, f, c)),
{
    if c && !fs.contains(f) {
        assert forall|g: Seq<char>| #[trigger]
            push_if(fs, f, c).contains(g) <==> (fs.contains(g) || (c && g == f)) by {
            if fs.contains(g) {
                let k = choose|k: int| 0 <= k < fs.len() && fs[k] == g;
                assert(fs.push(f)[k] == g);
            }
            if g == f {
                assert(fs.push(f)[fs.len() as int] == g);
            }
            if fs.push(f).contains(g) {
                let k = choose|k: int| 0 <= k < fs.len() + 1 && fs.push(f)[k] == g;
                if k < fs.len() {
                    assert(fs[k] == g);
                }
            }
        }
        if no_repeats(fs) {
            assert forall|i: int, j: int| 0 <= i < j < fs.push(f).len() implies fs.push(f)[i]
                != fs.push(f)[j] by {
                if j == fs.len() {
                    assert(fs.push(f)[i] == fs[i]);
                }
            }
        }
    }
}

proof fn lemma_push_each(fs: Seq<Seq<char>>, items: Seq<Seq<char>>, skip_full: bool)
    ensures
        forall|g: Seq<char>| #[trigger]
            push_each(fs, items, skip_full).contains(g) <==> (fs.contains(g) || (items.contains(g)
                && !(skip_full && g == "full"@))),
        no_repeats(fs) ==> no_repeats(push_each(fs, items, skip_full)),
    decreases items.len(),
{
    if items.len() > 0 {
        let prev = push_each(fs, items.drop_last(), skip_full);
        lemma_push_each(fs, items.drop_last(), skip_full);
        lemma_push_if(prev, items.last(), !(skip_full && items.last() == "full"@));
        assert forall|g: Seq<char>|
            items.contains(g) <==> (items.drop_last().contains(g) || g == items.last()) by {
            if items.contains(g) {
                let k = choose|k: int| 0 <= k < items.len() && items[k] == g;
                if k < items.len() - 1 {
                    assert(items.drop_last()[k] == g);
                }
            }
            if items.drop_last().contains(g) {
                let k = choose|k: int| 0 <= k < items.len() - 1 && items.drop_last()[k] == g;
                assert(items[k] == g);
            }
            if g == items.last() {
                assert(items[items.len() - 1] == g);
            }
        }
    }
}

/// The features the inference can name.
pub open spec fn inferable_feature(f: Seq<char>) -> bool {
    ||| f == "macros"@
    ||| f == "rt"@
    ||| f == "rt-multi-thread"@
    ||| f == "fs"@
    ||| f == "net"@
    ||| f == "process"@
    ||| f == "signal"@
    ||| f == "sync"@
    ||| f == "time"@
}

proof fn lemma_inferred(index: SourceIndex)
    ensures
        forall|f: Seq<char>| #[trigger]
            spec_infer_tokio_features(index).contains(f) ==> inferable_feature(f),
        no_repeats(spec_infer_tokio_features(index)),
        forall|g: Seq<char>| #[trigger]
            spec_infer_tokio_features(index).contains(g) <==> {
                ||| g == "macros"@ && (index.spec_contains_token("#[tokio::main"@)
                    || index.spec_contains_token("#[tokio::test"@) || index.spec_contains_token(
                    "tokio::select!"@,
                ) || index.spec_contains_token("tokio::join!"@) || index.spec_contains_token(
                    "tokio::try_join!"@,
                ) || index.spec_contains_token("tokio::pin!"@))
                ||| g == "rt"@ && (index.spec_contains_token("tokio::spawn"@)
                    || index.spec_contains_token("tokio::task"@) || index.spec_contains_token(
                    "tokio::runtime::Runtime"@,
                ))
                ||| g == "rt-multi-thread"@ && has_tokio_main_binary(index.files@)
                ||| g == "fs"@ && index.spec_contains_token("tokio::fs"@)
                ||| g == "net"@ && index.spec_contains_token("tokio::net"@)
                ||| g == "process"@ && index.spec_contains_token("tokio::process"@)
                ||| g == "signal"@ && index.spec_contains_token("tokio::signal"@)
                ||| g == "sync"@ && index.spec_contains_token("tokio::sync"@)
                ||| g == "time"@ && index.spec_contains_token("tokio::time"@)
            },
{
    let f0 = Seq::<Seq<char>>::empty();
    let f1 = push_if(
        f0,
        "macros"@,
        index.spec_contains_token("#[tokio::main"@) || index.spec_contains_token(
            "#[tokio::test"@,
        ) || index.spec_contains_token("tokio::select!"@) || index.spec_contains_token(
            "tokio::join!"@,
        ) || index.spec_contains_token("tokio::try_join!"@) || index.spec_contains_token(
            "tokio::pin!"@,
        ),
    );
    let f2 = push_if(
        f1,
        "rt"@,
        index.spec_contains_token("tokio::spawn"@) || index.spec_contains_token("tokio::task"@)
            || index.spec_contains_token("tokio::runtime::Runtime"@),
    );
    let f3 = push_if(f2, "rt-multi-thread"@, has_tokio_main_binary(index.files@));
    let f4 = push_if(f3, "fs"@, index.spec_contains_token("tokio::fs"@));
    let f5 = push_if(f4, "net"@, index.spec_contains_token("tokio::net"@));
    let f6 = push_if(f5, "process"@, index.spec_contains_token("tokio::process"@));
    let f7 = push_if(f6, "signal"@, index.spec_contains_token("tokio::signal"@));
    let f8 = push_if(f7, "sync"@, index.spec_contains_token("tokio::sync"@));
    lemma_push_if(f0, "macros"@, index.spec_contains_token("#[tokio::main"@) || index.spec_contains_token(
            "#[tokio::test"@,
        ) || index.spec_contains_token("tokio::select!"@) || index.spec_contains_token(
            "tokio::join!"@,
        ) || index.spec_contains_token("tokio::try_join!"@) || index.spec_contains_token(
            "tokio::pin!"@,
        ));
    lemma_push_if(f1, "rt"@, index.spec_contains_token("tokio::spawn"@) || index.spec_contains_token("tokio::task"@)
            || index.spec_contains_token("tokio::runtime::Runtime"@));
    lemma_push_if(f2, "rt-multi-thread"@, has_tokio_main_binary(index.files@));
    lemma_push_if(f3, "fs"@, index.spec_contains_token("tokio::fs"@));
    lemma_push_if(f4, "net"@, index.spec_contains_token("tokio::net"@));
    lemma_push_if(f5, "process"@, index.spec_contains_token("tokio::process"@));
    lemma_push_if(f6, "signal"@, index.spec_contains_token("tokio::signal"@));
    lemma_push_if(f7, "sync"@, index.spec_contains_token("tokio::sync"@));
    lemma_push_if(f8, "time"@, index.spec_contains_token("tokio::time"@));
}

/// A Tokio replacement feature list never keeps `full`, names each feature
/// once, keeps every other declared feature and every inferred feature, and
/// names nothing else.
pub proof fn law_tokio_replacement(p: Project, d: DependencyView)
    ensures
        spec_tokio_replacement(p, d) matches Some(fs) ==> {
            &&& !fs.contains("full"@)
            &&& no_repeats(fs)
            &&& forall|f: Seq<char>| #[trigger]
                fs.contains(f) <==> ((d.features.contains(f) && f != "full"@)
                    || spec_infer_tokio_features(p.source_index).contains(f))
        },
{
    let inferred = spec_infer_tokio_features(p.source_index);
    let first = push_each(Seq::empty(), d.features, true);
    lemma_push_each(Seq::empty(), d.features, true);
    lemma_push_each(first, inferred, false);
    lemma_inferred(p.source_index);
    assert(no_repeats(Seq::<Seq<char>>::empty()));
    assert(!inferable_feature("full"@)) by {
        reveal_strlit("full");
        reveal_strlit("macros");
        reveal_strlit("rt");
        reveal_strlit("rt-multi-thread");
        reveal_strlit("fs");
        reveal_strlit("net");
        reveal_strlit("process");
        reveal_strlit("signal");
        reveal_strlit("sync");
        reveal_strlit("time");
        assert("full"@.len() == 4);
        assert("full"@[0] == 'f' && "full"@[1] == 'u');
        assert("macros"@.len() != 4);
        assert("rt"@.len() != 4);
        assert("rt-multi-thread"@.len() != 4);
        assert("fs"@.len() != 4);
        assert("net"@.len() != 4);
        assert("process"@.len() != 4);
        assert("signal"@.len() != 4);
        assert("sync"@[0] != 'f');
        assert("time"@[0] != 'f');
    }
    assert(!inferred.contains("full"@));
    assert(!first.contains("full"@));
    let fs = push_each(first, inferred, false);
    assert(!fs.contains("full"@));
    assert(no_repeats(first));
    assert(no_repeats(fs));
    assert forall|f: Seq<char>| #[trigger]
        fs.contains(f) <==> ((d.features.contains(f) && f != "full"@) || inferred.contains(f)) by {
        assert(!Seq::<Seq<char>>::empty().contains(f));
        assert(first.contains(f) <==> (d.features.contains(f) && f != "full"@));
    }
}

/// The Tokio fix is offered only when the sources make the features clear:
/// no unknown `tokio::` module, no generated code, and at least one feature
/// inferred.
pub proof fn law_tokio_fix_needs_clear_usage(p: Project, d: DependencyView)
    ensures
        spec_tokio_replacement(p, d) is Some ==> {
            &&& !spec_has_unknown_tokio_usage(p.source_index.files@)
            &&& !p.source_index.spec_has_ambiguous_generation()
            &&& spec_infer_tokio_features(p.source_index).len() > 0
        },
{
}

/// The Tokio fix edits one full-featured Tokio dependency that the issue
/// names, and replaces its features with a list that no longer holds
/// `full`.
pub proof fn law_tokio_fix_drops_full(p: Project, issue: IssueView)
    ensures
        spec_tokio_fix(p, issue) matches Some(f) ==> exists|i: int|
            0 <= i < project_dependencies(p).len() && uses_tokio_full(
                #[trigger] project_dependencies(p)[i],
            ) && spec_issue_matches_dependency(issue, project_dependencies(p)[i]) && (
            spec_tokio_replacement(p, project_dependencies(p)[i]) matches Some(fs) && !fs.contains(
                "full"@,
            ) && f.edits == seq![
                EditView::ReplaceDependencyFeatures {
                    section: project_dependencies(p)[i].section,
                    name: project_dependencies(p)[i].name,
                    features: fs,
                    default_features: None,
                },
            ]),
{
    let deps = project_dependencies(p);
    lemma_first_where_holds(deps, tokio_fix_target(issue));
    if let Some(i) = first_where(deps, tokio_fix_target(issue)) {
        law_tokio_replacement(p, deps[i]);
    }
}

/// The unused rule offers a fix only for a dependency the issue names and
/// whose removal is safe, and the fix removes that dependency alone.
pub proof fn law_unused_fix_is_safe(p: Project, issue: IssueView)
    ensures
        spec_unused_fix(p, issue) matches Some(f) ==> exists|i: int|
            0 <= i < project_dependencies(p).len() && spec_safe_to_remove(
                p,
                #[trigger] project_dependencies(p)[i],
            ) && spec_issue_matches_dependency(issue, project_dependencies(p)[i]) && f.edits
                == seq![
                EditView::RemoveDependency {
                    section: project_dependencies(p)[i].section,
                    name: project_dependencies(p)[i].name,
                },
            ],
{
    let deps = project_dependencies(p);
    lemma_first_where_holds(deps, unused_fix_target(p, issue));
}

pub proof fn lemma_first_where_holds(deps: Seq<DependencyView>, pred: spec_fn(DependencyView) -> bool)
    ensures
        first_where(deps, pred) matches Some(i) ==> 0 <= i < deps.len() && pred(deps[i]),
    decreases deps.len(),
{
    if deps.len() > 0 {
        lemma_first_where_holds(deps.drop_last(), pred);
        if let Some(i) = first_where(deps.drop_last(), pred) {
            assert(deps[i] == deps.drop_last()[i]);
        }
    }
}

/// An unused-dependency issue carries a `--fix` command exactly when
/// removing the dependency is safe.
pub proof fn law_unused_command_when_safe(p: Project, d: DependencyView)
    ensures
        (unused_issue(p, d).suggestion matches Some(s) && s.command is Some) <==> spec_safe_to_remove(
            p,
            d,
        ),
{
}

/// A tokio-full issue carries a `--fix` command exactly when a safe
/// replacement feature list exists.
pub proof fn law_tokio_command_when_replaceable(p: Project, d: DependencyView)
    ensures
        (tokio_issue(p, d).suggestion matches Some(s) && s.command is Some) <==> spec_tokio_replacement(
            p,
            d,
        ) is Some,
{
}

/// The names of the features the inference can list, told apart by their
/// length and first letter.
proof fn lemma_feature_names()
    ensures
        "macros"@.len() == 6 && "macros"@[0] == 'm',
        "rt"@.len() == 2 && "rt"@[0] == 'r',
        "rt-multi-thread"@.len() == 15,
        "fs"@.len() == 2 && "fs"@[0] == 'f',
        "net"@.len() == 3,
        "process"@.len() == 7,
        "signal"@.len() == 6 && "signal"@[0] == 's',
        "sync"@.len() == 4 && "sync"@[0] == 's',
        "time"@.len() == 4 && "time"@[0] == 't',
{
    reveal_strlit("macros");
    reveal_strlit("rt");
    reveal_strlit("rt-multi-thread");
    reveal_strlit("fs");
    reveal_strlit("net");
    reveal_strlit("process");
    reveal_strlit("signal");
    reveal_strlit("sync");
    reveal_strlit("time");
}

/// Each inferred Tokio feature stands for its own evidence in the scanned
/// sources, whatever the other features are: `fs`, `net`, `process`,
/// `signal`, `sync` and `time` are listed exactly when some scanned file
/// contains `tokio::fs`, `tokio::net`, `tokio::process`, `tokio::signal`,
/// `tokio::sync` or `tokio::time`; `macros` exactly when some file uses a
/// Tokio attribute or macro; `rt` exactly when some file spawns tasks or
/// builds a runtime; `rt-multi-thread` exactly when some `src/main.rs`
/// declares a Tokio main. Nothing else is listed, and nothing twice.
pub proof fn law_inferred_features_follow_sources(index: SourceIndex)
    ensures
        spec_infer_tokio_features(index).contains("fs"@) <==> any_file_contains(
            index.files@,
            "tokio::fs"@,
        ),
        spec_infer_tokio_features(index).contains("net"@) <==> any_file_contains(
            index.files@,
            "tokio::net"@,
        ),
        spec_infer_tokio_features(index).contains("process"@) <==> any_file_contains(
            index.files@,
            "tokio::process"@,
        ),
        spec_infer_tokio_features(index).contains("signal"@) <==> any_file_contains(
            index.files@,
            "tokio::signal"@,
        ),
        spec_infer_tokio_features(index).contains("sync"@) <==> any_file_contains(
            index.files@,
            "tokio::sync"@,
        ),
        spec_infer_tokio_features(index).contains("time"@) <==> any_file_contains(
            index.files@,
            "tokio::time"@,
        ),
        spec_infer_tokio_features(index).contains("macros"@) <==> (any_file_contains(
            index.files@,
            "#[tokio::main"@,
        ) || any_file_contains(index.files@, "#[tokio::test"@) || any_file_contains(
            index.files@,
            "tokio::select!"@,
        ) || any_file_contains(index.files@, "tokio::join!"@) || any_file_contains(
            index.files@,
            "tokio::try_join!"@,
        ) || any_file_contains(index.files@, "tokio::pin!"@)),
        spec_infer_tokio_features(index).contains("rt"@) <==> (any_file_contains(
            index.files@,
            "tokio::spawn"@,
        ) || any_file_contains(index.files@, "tokio::task"@) || any_file_contains(
            index.files@,
            "tokio::runtime::Runtime"@,
        )),
        spec_infer_tokio_features(index).contains("rt-multi-thread"@) <==> exists|k: int|
            0 <= k < index.files@.len() && path_ends_with(index.files@[k].path@, "src/main.rs"@)
                && seq_contains(#[trigger] index.files@[k].text@, "#[tokio::main"@),
        forall|f: Seq<char>| #[trigger]
            spec_infer_tokio_features(index).contains(f) ==> {
                ||| f == "macros"@
                ||| f == "rt"@
                ||| f == "rt-multi-thread"@
                ||| f == "fs"@
                ||| f == "net"@
                ||| f == "process"@
                ||| f == "signal"@
                ||| f == "sync"@
                ||| f == "time"@
            },
        no_repeats(spec_infer_tokio_features(index)),
{
    lemma_inferred(index);
    lemma_feature_names();
    let fs = spec_infer_tokio_features(index);
    assert(fs.contains("fs"@) <==> any_file_contains(index.files@, "tokio::fs"@));
    assert(fs.contains("net"@) <==> any_file_contains(index.files@, "tokio::net"@));
    assert(fs.contains("process"@) <==> any_file_contains(index.files@, "tokio::process"@));
    assert(fs.contains("signal"@) <==> any_file_contains(index.files@, "tokio::signal"@));
    assert(fs.contains("sync"@) <==> any_file_contains(index.files@, "tokio::sync"@));
    assert(fs.contains("time"@) <==> any_file_contains(index.files@, "tokio::time"@));
    assert(fs.contains("macros"@) == fs.contains("macros"@));
    assert(fs.contains("rt"@) == fs.contains("rt"@));
    assert(fs.contains("rt-multi-thread"@) == fs.contains("rt-multi-thread"@));
}

proof fn lemma_reqwest_issues_sound(deps: Seq<DependencyView>)
    ensures
        forall|i: int|
            0 <= i < reqwest_issues(deps).len() ==> exists|j: int|
                0 <= j < deps.len() && keeps_reqwest_defaults(deps[j]) && #[trigger] reqwest_issues(
                    deps,
                )[i] == reqwest_issue(deps[j]),
    decreases deps.len(),
{
    if deps.len() > 0 {
        let prev = deps.drop_last();
        lemma_reqwest_issues_sound(prev);
        let r = reqwest_issues(deps);
        assert forall|i: int| 0 <= i < r.len() implies exists|j: int|
            0 <= j < deps.len() && keeps_reqwest_defaults(deps[j]) && #[trigger] r[i]
                == reqwest_issue(deps[j]) by {
            if i < reqwest_issues(prev).len() {
                assert(r[i] == reqwest_issues(prev)[i]);
                let j = choose|j: int|
                    0 <= j < prev.len() && keeps_reqwest_defaults(prev[j]) && #[trigger] reqwest_issues(
                        prev,
                    )[i] == reqwest_issue(prev[j]);
                assert(prev[j] == deps[j]);
            } else {
                assert(r[i] == reqwest_issue(deps[deps.len() - 1]));
            }
        }
    }
}

proof fn lemma_reqwest_issues_complete(deps: Seq<DependencyView>)
    ensures
        forall|j: int|
            0 <= j < deps.len() && keeps_reqwest_defaults(#[trigger] deps[j]) ==> exists|i: int|
                0 <= i < reqwest_issues(deps).len() && reqwest_issues(deps)[i] == reqwest_issue(
                    deps[j],
                ),
    decreases deps.len(),
{
    if deps.len() > 0 {
        let prev = deps.drop_last();
        lemma_reqwest_issues_complete(prev);
        let r = reqwest_issues(deps);
        assert forall|j: int|
            0 <= j < deps.len() && keeps_reqwest_defaults(#[trigger] deps[j]) implies exists|i: int|
                0 <= i < r.len() && r[i] == reqwest_issue(deps[j]) by {
            if j < prev.len() {
                assert(prev[j] == deps[j]);
                let i = choose|i: int|
                    0 <= i < reqwest_issues(prev).len() && reqwest_issues(prev)[i] == reqwest_issue(
                        prev[j],
                    );
                assert(r[i] == reqwest_issues(prev)[i]);
            } else {
                assert(r[r.len() - 1] == reqwest_issue(deps[j]));
            }
        }
    }
}

/// Every reqwest-default-features issue is the issue of a reqwest
/// dependency declared here, not inherited from the workspace
/// (`workspace = true`), that does not turn default features off. It is
/// MEDIUM for a normal dependency and LOW otherwise, names the dependency,
/// and reports default features left unset as "implicit true".
pub proof fn law_reqwest_issue_names_own_dependency(p: Project)
    ensures
        forall|i: int|
            0 <= i < spec_reqwest_check(p).len() ==> exists|j: int|
                0 <= j < project_dependencies(p).len() && dep_package(project_dependencies(p)[j])
                    == "reqwest"@ && !project_dependencies(p)[j].workspace && project_dependencies(
                    p,
                )[j].default_features != Some(false) && #[trigger] spec_reqwest_check(p)[i]
                    == reqwest_issue(project_dependencies(p)[j]) && spec_reqwest_check(p)[i].severity
                    == (if project_dependencies(p)[j].section == DependencySection::Normal {
                    Severity::Medium
                } else {
                    Severity::Low
                }) && spec_reqwest_check(p)[i].evidence[0] == evidence(
                    "Dependency"@,
                    spec_dependency_path(project_dependencies(p)[j]),
                ) && (project_dependencies(p)[j].default_features is None
                    ==> spec_reqwest_check(p)[i].evidence[1] == evidence(
                    "Current default-features"@,
                    "implicit true"@,
                )),
{
    let deps = project_dependencies(p);
    lemma_reqwest_issues_sound(deps);
    assert forall|i: int| 0 <= i < spec_reqwest_check(p).len() implies exists|j: int|
        0 <= j < deps.len() && dep_package(deps[j]) == "reqwest"@ && !deps[j].workspace
            && deps[j].default_features != Some(false) && #[trigger] spec_reqwest_check(p)[i]
            == reqwest_issue(deps[j]) && spec_reqwest_check(p)[i].severity == (if deps[j].section
            == DependencySection::Normal {
            Severity::Medium
        } else {
            Severity::Low
        }) && spec_reqwest_check(p)[i].evidence[0] == evidence(
            "Dependency"@,
            spec_dependency_path(deps[j]),
        ) && (deps[j].default_features is None ==> spec_reqwest_check(p)[i].evidence[1]
            == evidence("Current default-features"@, "implicit true"@)) by {
        let j = choose|j: int|
            0 <= j < deps.len() && keeps_reqwest_defaults(deps[j]) && #[trigger] reqwest_issues(
                deps,
            )[i] == reqwest_issue(deps[j]);
        assert(keeps_reqwest_defaults(deps[j]));
    }
}

/// Every reqwest dependency declared here (not `workspace = true`) that
/// does not turn default features off gets its reqwest-default-features
/// issue.
pub proof fn law_reqwest_dependency_reported(p: Project)
    ensures
        forall|j: int|
            0 <= j < project_dependencies(p).len() && dep_package(
                #[trigger] project_dependencies(p)[j],
            ) == "reqwest"@ && !project_dependencies(p)[j].workspace && project_dependencies(
                p,
            )[j].default_features != Some(false) ==> exists|i: int|
                0 <= i < spec_reqwest_check(p).len() && spec_reqwest_check(p)[i] == reqwest_issue(
                    project_dependencies(p)[j],
                ),
{
    let deps = project_dependencies(p);
    lemma_reqwest_issues_complete(deps);
    assert forall|j: int|
        0 <= j < deps.len() && dep_package(#[trigger] deps[j]) == "reqwest"@ && !deps[j].workspace
            && deps[j].default_features != Some(false) implies exists|i: int|
            0 <= i < spec_reqwest_check(p).len() && spec_reqwest_check(p)[i] == reqwest_issue(
                deps[j],
            ) by {
        assert(keeps_reqwest_defaults(deps[j]));
        let i = choose|i: int|
            0 <= i < reqwest_issues(deps).len() && reqwest_issues(deps)[i] == reqwest_issue(deps[j]);
        assert(spec_reqwest_check(p)[i] == reqwest_issue(deps[j]));
    }
}

proof fn lemma_unused_issues_sound(p: Project, deps: Seq<DependencyView>)
    ensures
        forall|i: int|
            0 <= i < unused_issues(p, deps).len() ==> exists|j: int|
                0 <= j < deps.len() && looks_unused(p, deps[j]) && #[trigger] unused_issues(
                    p,
                    deps,
                )[i] == unused_issue(p, deps[j]),
    decreases deps.len(),
{
    if deps.len() > 0 {
        let prev = deps.drop_last();
        lemma_unused_issues_sound(p, prev);
        let r = unused_issues(p, deps);
        assert forall|i: int| 0 <= i < r.len() implies exists|j: int|
            0 <= j < deps.len() && looks_unused(p, deps[j]) && #[trigger] r[i] == unused_issue(
                p,
                deps[j],
            ) by {
            if i < unused_issues(p, prev).len() {
                assert(r[i] == unused_issues(p, prev)[i]);
                let j = choose|j: int|
                    0 <= j < prev.len() && looks_unused(p, prev[j]) && #[trigger] unused_issues(
                        p,
                        prev,
                    )[i] == unused_issue(p, prev[j]);
                assert(prev[j] == deps[j]);
            } else {
                assert(r[i] == unused_issue(p, deps[deps.len() - 1]));
            }
        }
    }
}

proof fn lemma_unused_issues_complete(p: Project, deps: Seq<DependencyView>)
    ensures
        forall|j: int|
            0 <= j < deps.len() && looks_unused(p, #[trigger] deps[j]) ==> exists|i: int|
                0 <= i < unused_issues(p, deps).len() && unused_issues(p, deps)[i] == unused_issue(
                    p,
                    deps[j],
                ),
    decreases deps.len(),
{
    if deps.len() > 0 {
        let prev = deps.drop_last();
        lemma_unused_issues_complete(p, prev);
        let r = unused_issues(p, deps);
        assert forall|j: int|
            0 <= j < deps.len() && looks_unused(p, #[trigger] deps[j]) implies exists|i: int|
                0 <= i < r.len() && r[i] == unused_issue(p, deps[j]) by {
            if j < prev.len() {
                assert(prev[j] == deps[j]);
                let i = choose|i: int|
                    0 <= i < unused_issues(p, prev).len() && unused_issues(p, prev)[i]
                        == unused_issue(p, prev[j]);
                assert(r[i] == unused_issues(p, prev)[i]);
            } else {
                assert(r[r.len() - 1] == unused_issue(p, deps[j]));
            }
        }
    }
}

/// The unused-dependency rule looks only at `[dependencies]` and
/// `[dev-dependencies]`: build dependencies (used by the build script,
/// which is not scanned), workspace dependencies, optional dependencies and
/// workspace-inherited ones are never reported. Every issue is the issue of
/// a normal or dev dependency whose crate name no scanned file mentions,
/// and its `Dependency` evidence is `dependencies.<name>` or
/// `dev-dependencies.<name>`.
pub proof fn law_unused_issue_names_scanned_section(p: Project)
    ensures
        forall|i: int|
            0 <= i < spec_unused_check(p).len() ==> exists|j: int|
                0 <= j < project_dependencies(p).len() && (project_dependencies(p)[j].section
                    == DependencySection::Normal || project_dependencies(p)[j].section
                    == DependencySection::Dev) && !project_dependencies(p)[j].optional
                    && !project_dependencies(p)[j].workspace
                    && !crate::scan::any_file_mentions(
                    p.source_index.files@,
                    underscored(project_dependencies(p)[j].name),
                ) && #[trigger] spec_unused_check(p)[i] == unused_issue(
                    p,
                    project_dependencies(p)[j],
                ) && spec_unused_check(p)[i].evidence[0] == evidence(
                    "Dependency"@,
                    (if project_dependencies(p)[j].section == DependencySection::Normal {
                        "dependencies."@
                    } else {
                        "dev-dependencies."@
                    }) + spec_dependency_label(project_dependencies(p)[j]),
                ),
{
    let deps = project_dependencies(p);
    lemma_unused_issues_sound(p, deps);
    reveal_strlit("dependencies");
    reveal_strlit("dev-dependencies");
    reveal_strlit(".");
    reveal_strlit("dependencies.");
    reveal_strlit("dev-dependencies.");
    assert("dependencies"@ + "."@ =~= "dependencies."@);
    assert("dev-dependencies"@ + "."@ =~= "dev-dependencies."@);
    assert forall|i: int| 0 <= i < spec_unused_check(p).len() implies exists|j: int|
        0 <= j < deps.len() && (deps[j].section == DependencySection::Normal || deps[j].section
            == DependencySection::Dev) && !deps[j].optional && !deps[j].workspace
            && !crate::scan::any_file_mentions(p.source_index.files@, underscored(deps[j].name))
            && #[trigger] spec_unused_check(p)[i] == unused_issue(p, deps[j])
            && spec_unused_check(p)[i].evidence[0] == evidence(
            "Dependency"@,
            (if deps[j].section == DependencySection::Normal {
                "dependencies."@
            } else {
                "dev-dependencies."@
            }) + spec_dependency_label(deps[j]),
        ) by {
        let j = choose|j: int|
            0 <= j < deps.len() && looks_unused(p, deps[j]) && #[trigger] unused_issues(p, deps)[i]
                == unused_issue(p, deps[j]);
        let d = deps[j];
        assert(unused_issue(p, d).evidence[0] == evidence("Dependency"@, spec_dependency_path(d)));
        if d.section == DependencySection::Normal {
            assert(spec_dependency_path(d) =~= "dependencies."@ + spec_dependency_label(d));
        } else {
            assert(spec_dependency_path(d) =~= "dev-dependencies."@ + spec_dependency_label(d));
        }
    }
}

/// Every normal or dev dependency that is not optional, not inherited from
/// the workspace, and whose crate name no scanned file mentions gets its
/// unused-dependency issue.
pub proof fn law_unmentioned_dependency_reported(p: Project)
    ensures
        forall|j: int|
            0 <= j < project_dependencies(p).len() && (project_dependencies(p)[j].section
                == DependencySection::Normal || project_dependencies(p)[j].section
                == DependencySection::Dev) && !project_dependencies(p)[j].optional
                && !(#[trigger] project_dependencies(p)[j]).workspace
                && !crate::scan::any_file_mentions(
                p.source_index.files@,
                underscored(project_dependencies(p)[j].name),
            ) ==> exists|i: int|
                0 <= i < spec_unused_check(p).len() && spec_unused_check(p)[i] == unused_issue(
                    p,
                    project_dependencies(p)[j],
                ),
{
    let deps = project_dependencies(p);
    lemma_unused_issues_complete(p, deps);
    assert forall|j: int|
        0 <= j < deps.len() && (deps[j].section == DependencySection::Normal || deps[j].section
            == DependencySection::Dev) && !deps[j].optional && !(#[trigger] deps[j]).workspace
            && !crate::scan::any_file_mentions(p.source_index.files@, underscored(deps[j].name))
            implies exists|i: int|
            0 <= i < spec_unused_check(p).len() && spec_unused_check(p)[i] == unused_issue(
                p,
                deps[j],
            ) by {
        assert(looks_unused(p, deps[j]));
        let i = choose|i: int|
            0 <= i < unused_issues(p, deps).len() && unused_issues(p, deps)[i] == unused_issue(
                p,
                deps[j],
            );
        assert(spec_unused_check(p)[i] == unused_issue(p, deps[j]));
    }
}

/// The crate names of the impact table, told apart by length and letters.
proof fn lemma_impact_names()
    ensures
        "syn"@.len() == 3 && "syn"@[0] == 's',
        "quote"@.len() == 5 && "quote"@[0] == 'q',
        "proc-macro2"@.len() == 11,
        "ring"@.len() == 4,
        "rustls"@.len() == 6,
        "openssl"@.len() == 7 && "openssl"@[0] == 'o',
        "tokio"@.len() == 5 && "tokio"@[0] == 't',
        "futures"@.len() == 7 && "futures"@[0] == 'f',
        "mio"@.len() == 3 && "mio"@[0] == 'm',
        "serde"@.len() == 5 && "serde"@[0] == 's',
        "serde_json"@.len() == 10,
{
    reveal_strlit("syn");
    reveal_strlit("quote");
    reveal_strlit("proc-macro2");
    reveal_strlit("ring");
    reveal_strlit("rustls");
    reveal_strlit("openssl");
    reveal_strlit("tokio");
    reveal_strlit("futures");
    reveal_strlit("mio");
    reveal_strlit("serde");
    reveal_strlit("serde_json");
}

/// The impact table of the duplicate-versions rule: `syn`, `quote` and
/// `proc-macro2` weigh on the proc-macro stack; `ring`, `rustls` and
/// `openssl` on the TLS/network stack; `tokio`, `futures` and `mio` on the
/// async stack; `serde` and `serde_json` on the serialization stack; no
/// other crate has an impact area.
pub proof fn law_duplicate_impact_table(name: Seq<char>)
    ensures
        (name == "syn"@ || name == "quote"@ || name == "proc-macro2"@) ==> spec_duplicate_impact(
            name,
        ) == Some("proc-macro stack"@),
        (name == "ring"@ || name == "rustls"@ || name == "openssl"@) ==> spec_duplicate_impact(
            name,
        ) == Some("TLS/network stack"@),
        (name == "tokio"@ || name == "futures"@ || name == "mio"@) ==> spec_duplicate_impact(name)
            == Some("async stack"@),
        (name == "serde"@ || name == "serde_json"@) ==> spec_duplicate_impact(name) == Some(
            "serialization stack"@,
        ),
        !(name == "syn"@ || name == "quote"@ || name == "proc-macro2"@ || name == "ring"@ || name
            == "rustls"@ || name == "openssl"@ || name == "tokio"@ || name == "futures"@ || name
            == "mio"@ || name == "serde"@ || name == "serde_json"@) ==> spec_duplicate_impact(
            name,
        ) is None,
{
    lemma_impact_names();
}

/// A crate pinned in several versions is reported HIGH exactly when it has
/// three or more versions or sits in the impact table, and its evidence
/// names the impact area after the crate and its versions; a duplicated
/// `ring`, `rustls` or `openssl` is HIGH with impact area
/// "TLS/network stack".
pub proof fn law_duplicate_issue_weight(g: CrateVersionsView)
    ensures
        duplicate_issue(g).severity == Severity::High <==> (g.versions.len() >= 3 || g.name
            == "syn"@ || g.name == "quote"@ || g.name == "proc-macro2"@ || g.name == "ring"@
            || g.name == "rustls"@ || g.name == "openssl"@ || g.name == "tokio"@ || g.name
            == "futures"@ || g.name == "mio"@ || g.name == "serde"@ || g.name == "serde_json"@),
        duplicate_issue(g).severity == Severity::High || duplicate_issue(g).severity
            == Severity::Medium,
        (g.name == "ring"@ || g.name == "rustls"@ || g.name == "openssl"@) ==> duplicate_issue(
            g,
        ).evidence.len() == 3 && duplicate_issue(g).evidence[2] == evidence(
            "Impact area"@,
            "TLS/network stack"@,
        ),
        spec_duplicate_impact(g.name) matches Some(a) ==> duplicate_issue(g).evidence.len() == 3
            && duplicate_issue(g).evidence[2] == evidence("Impact area"@, a),
        spec_duplicate_impact(g.name) is None ==> duplicate_issue(g).evidence.len() == 2,
        duplicate_issue(g).evidence[0] == evidence("Crate"@, g.name),
{
    law_duplicate_impact_table(g.name);
}

/// The place of a Tokio feature in the order the inference lists them.
pub open spec fn tokio_feature_rank(f: Seq<char>) -> int {
    if f == "macros"@ {
        0
    } else if f == "rt"@ {
        1
    } else if f == "rt-multi-thread"@ {
        2
    } else if f == "fs"@ {
        3
    } else if f == "net"@ {
        4
    } else if f == "process"@ {
        5
    } else if f == "signal"@ {
        6
    } else if f == "sync"@ {
        7
    } else if f == "time"@ {
        8
    } else {
        9
    }
}

proof fn lemma_push_if_ranked(fs: Seq<Seq<char>>, f: Seq<char>, c: bool)
    requires
        forall|i: int, j: int|
            0 <= i < j < fs.len() ==> tokio_feature_rank(fs[i]) < tokio_feature_rank(fs[j]),
        forall|i: int| 0 <= i < fs.len() ==> tokio_feature_rank(#[trigger] fs[i]) < tokio_feature_rank(f),
    ensures
        forall|i: int, j: int|
            0 <= i < j < push_if(fs, f, c).len() ==> tokio_feature_rank(push_if(fs, f, c)[i])
                < tokio_feature_rank(push_if(fs, f, c)[j]),
        forall|i: int|
            0 <= i < push_if(fs, f, c).len() ==> tokio_feature_rank(#[trigger] push_if(fs, f, c)[i])
                <= tokio_feature_rank(f),
{
}

/// The inferred Tokio features come in a fixed order: `macros`, `rt`,
/// `rt-multi-thread`, `fs`, `net`, `process`, `signal`, `sync`, `time`.
pub proof fn law_inferred_features_ordered(index: SourceIndex)
    ensures
        forall|i: int, j: int|
            0 <= i < j < spec_infer_tokio_features(index).len() ==> tokio_feature_rank(
                spec_infer_tokio_features(index)[i],
            ) < tokio_feature_rank(spec_infer_tokio_features(index)[j]),
{
    lemma_feature_names();
    assert(tokio_feature_rank("macros"@) == 0);
    assert(tokio_feature_rank("rt"@) == 1);
    assert(tokio_feature_rank("rt-multi-thread"@) == 2);
    assert(tokio_feature_rank("fs"@) == 3);
    assert(tokio_feature_rank("net"@) == 4);
    assert(tokio_feature_rank("process"@) == 5);
    assert(tokio_feature_rank("signal"@) == 6);
    assert(tokio_feature_rank("sync"@) == 7);
    assert(tokio_feature_rank("time"@) == 8);
    let c1 = index.spec_contains_token("#[tokio::main"@) || index.spec_contains_token(
        "#[tokio::test"@,
    ) || index.spec_contains_token("tokio::select!"@) || index.spec_contains_token(
        "tokio::join!"@,
    ) || index.spec_contains_token("tokio::try_join!"@) || index.spec_contains_token(
        "tokio::pin!"@,
    );
    let c2 = index.spec_contains_token("tokio::spawn"@) || index.spec_contains_token(
        "tokio::task"@,
    ) || index.spec_contains_token("tokio::runtime::Runtime"@);
    let c3 = has_tokio_main_binary(index.files@);
    let f0 = Seq::<Seq<char>>::empty();
    let f1 = push_if(f0, "macros"@, c1);
    let f2 = push_if(f1, "rt"@, c2);
    let f3 = push_if(f2, "rt-multi-thread"@, c3);
    let f4 = push_if(f3, "fs"@, index.spec_contains_token("tokio::fs"@));
    let f5 = push_if(f4, "net"@, index.spec_contains_token("tokio::net"@));
    let f6 = push_if(f5, "process"@, index.spec_contains_token("tokio::process"@));
    let f7 = push_if(f6, "signal"@, index.spec_contains_token("tokio::signal"@));
    let f8 = push_if(f7, "sync"@, index.spec_contains_token("tokio::sync"@));
    let f9 = push_if(f8, "time"@, index.spec_contains_token("tokio::time"@));
    assert(f9 == spec_infer_tokio_features(index));
    lemma_push_if_ranked(f0, "macros"@, c1);
    lemma_push_if_ranked(f1, "rt"@, c2);
    lemma_push_if_ranked(f2, "rt-multi-thread"@, c3);
    lemma_push_if_ranked(f3, "fs"@, index.spec_contains_token("tokio::fs"@));
    lemma_push_if_ranked(f4, "net"@, index.spec_contains_token("tokio::net"@));
    lemma_push_if_ranked(f5, "process"@, index.spec_contains_token("tokio::process"@));
    lemma_push_if_ranked(f6, "signal"@, index.spec_contains_token("tokio::signal"@));
    lemma_push_if_ranked(f7, "sync"@, index.spec_contains_token("tokio::sync"@));
    lemma_push_if_ranked(f8, "time"@, index.spec_contains_token("tokio::time"@));
}

} // verus!
