//! `Cargo.lock`: the packages it pins, and the versions of each crate.
use vstd::prelude::*;

use crate::error::ShedError;
use crate::issue::opt_view;
use crate::manifest::opt_str;
use crate::text::{
    ascii_digit, chars_of, insert_sorted, is_ascii_digit, is_whitespace, locate, owned,
    string_of_chars, strictly_sorted, views, whitespace,
};
use crate::toml::{
    opt_item, parse_toml, table_reads, toml_accepts, toml_document, TomlItem, TomlTable, MAX_DEPTH,
};

verus! {

pub struct LockDependencyView {
    pub raw: Seq<char>,
    pub name: Seq<char>,
    pub version: Option<Seq<char>>,
}

/// One entry of a package's `dependencies` list: `"name"` or
/// `"name version (source)"`.
#[derive(Debug, Clone, PartialEq, Eq)]
pub struct LockDependency {
    pub raw: String,
    pub name: String,
    pub version: Option<String>,
}

impl View for LockDependency {
    type V = LockDependencyView;

    open spec fn view(&self) -> LockDependencyView {
        LockDependencyView { raw: self.raw@, name: self.name@, version: opt_view(self.version) }
    }
}

pub struct LockPackageView {
    pub name: Seq<char>,
    pub version: Seq<char>,
    pub source: Option<Seq<char>>,
    pub checksum: Option<Seq<char>>,
    pub dependencies: Seq<LockDependencyView>,
}

/// A `[[package]]` entry.
#[derive(Debug, Clone, PartialEq, Eq)]
pub struct LockPackage {
    pub name: String,
    pub version: String,
    pub source: Option<String>,
    pub checksum: Option<String>,
    pub dependencies: Vec<LockDependency>,
}

pub open spec fn lock_dependency_views(v: Seq<LockDependency>) -> Seq<LockDependencyView> {
    v.map_values(|d: LockDependency| d@)
}

impl View for LockPackage {
    type V = LockPackageView;

    open spec fn view(&self) -> LockPackageView {
        LockPackageView {
            name: self.name@,
            version: self.version@,
            source: opt_view(self.source),
            checksum: opt_view(self.checksum),
            dependencies: lock_dependency_views(self.dependencies@),
        }
    }
}

pub open spec fn package_views(v: Seq<LockPackage>) -> Seq<LockPackageView> {
    v.map_values(|p: LockPackage| p@)
}

// ---------------------------------------------------------------------------
// One dependency entry
// ---------------------------------------------------------------------------

/// The first index at or after `from` that does not hold whitespace.
pub open spec fn skip_space(s: Seq<char>, from: int) -> int
    decreases s.len() - from,
{
    if from < s.len() && is_whitespace(s[from]) {
        skip_space(s, from + 1)
    } else {
        from
    }
}

/// The first index at or after `from` that holds whitespace, or the end.
pub open spec fn skip_word(s: Seq<char>, from: int) -> int
    decreases s.len() - from,
{
    if from < s.len() && !is_whitespace(s[from]) {
        skip_word(s, from + 1)
    } else {
        from
    }
}

/// The dependency that the entry `raw` names: its first whitespace-separated
/// word (or all of `raw` when it has none), and its second word as the
/// version when that word starts with an ASCII digit.
pub open spec fn spec_parse_lock_dependency(raw: Seq<char>) -> LockDependencyView {
    let name_start = skip_space(raw, 0);
    let name_end = skip_word(raw, name_start);
    let version_start = skip_space(raw, name_end);
    let version_end = skip_word(raw, version_start);
    LockDependencyView {
        raw,
        name: if name_start < name_end {
            raw.subrange(name_start, name_end)
        } else {
            raw
        },
        version: if version_start < version_end && is_ascii_digit(raw[version_start]) {
            Some(raw.subrange(version_start, version_end))
        } else {
            None
        },
    }
}

fn skip_space_exec(s: &Vec<char>, from: usize) -> (r: usize)
    requires
        from <= s@.len(),
    ensures
        r == skip_space(s@, from as int),
        from <= r <= s@.len(),
{
    let mut i = from;
    while i < s.len() && whitespace(s[i])
        invariant
            from <= i <= s@.len(),
            skip_space(s@, from as int) == skip_space(s@, i as int),
        decreases s@.len() - i,
    {
        i = i + 1;
    }
    i
}

fn skip_word_exec(s: &Vec<char>, from: usize) -> (r: usize)
    requires
        from <= s@.len(),
    ensures
        r == skip_word(s@, from as int),
        from <= r <= s@.len(),
{
    let mut i = from;
    while i < s.len() && !whitespace(s[i])
        invariant
            from <= i <= s@.len(),
            skip_word(s@, from as int) == skip_word(s@, i as int),
        decreases s@.len() - i,
    {
        i = i + 1;
    }
    i
}

fn chars_between(s: &Vec<char>, start: usize, end: usize) -> (r: String)
    requires
        start <= end <= s@.len(),
    ensures
        r@ == s@.subrange(start as int, end as int),
{
    let mut part: Vec<char> = Vec::new();
    for i in start..end
        invariant
            end <= s@.len(),
            part@ == s@.subrange(start as int, i as int),
    {
        part.push(s[i]);
        assert(s@.subrange(start as int, i + 1) == s@.subrange(start as int, i as int).push(
            s@[i as int],
        ));
    }
    string_of_chars(&part)
}

/// Splits an entry of a package's `dependencies` list into name and version.
pub fn parse_dependency(raw: &str) -> (r: LockDependency)
    ensures
        r@ == spec_parse_lock_dependency(raw@),
{
    let s = chars_of(raw);
    let name_start = skip_space_exec(&s, 0);
    let name_end = skip_word_exec(&s, name_start);
    let version_start = skip_space_exec(&s, name_end);
    let version_end = skip_word_exec(&s, version_start);
    let name = if name_start < name_end {
        chars_between(&s, name_start, name_end)
    } else {
        owned(raw)
    };
    let version = if version_start < version_end && ascii_digit(s[version_start]) {
        Some(chars_between(&s, version_start, version_end))
    } else {
        None
    };
    LockDependency { raw: owned(raw), name, version }
}

// ---------------------------------------------------------------------------
// Packages
// ---------------------------------------------------------------------------

/// The dependency entries of a `dependencies` array, in order; entries that
/// are not strings are left out.
pub open spec fn items_lock_dependencies(items: Seq<TomlItem>) -> Seq<LockDependencyView>
    decreases items.len(),
{
    if items.len() == 0 {
        Seq::empty()
    } else {
        let prev = items_lock_dependencies(items.drop_last());
        match items.last().spec_as_str() {
            Some(s) => prev.push(spec_parse_lock_dependency(s)),
            None => prev,
        }
    }
}

pub open spec fn spec_dependency_array(o: Option<TomlItem>) -> Seq<LockDependencyView> {
    match o {
        Some(item) => match item.spec_as_array() {
            Some(items) => items_lock_dependencies(items),
            None => Seq::empty(),
        },
        None => Seq::empty(),
    }
}

/// The package a `[[package]]` table describes, when it has string `name`
/// and `version` entries.
pub open spec fn spec_parse_package(table: TomlTable) -> Option<LockPackageView> {
    match (opt_str(table.spec_get("name"@)), opt_str(table.spec_get("version"@))) {
        (Some(name), Some(version)) => Some(
            LockPackageView {
                name,
                version,
                source: opt_str(table.spec_get("source"@)),
                checksum: opt_str(table.spec_get("checksum"@)),
                dependencies: spec_dependency_array(table.spec_get("dependencies"@)),
            },
        ),
        _ => None,
    }
}

pub open spec fn tables_packages(tables: Seq<TomlTable>) -> Seq<LockPackageView>
    decreases tables.len(),
{
    if tables.len() == 0 {
        Seq::empty()
    } else {
        let prev = tables_packages(tables.drop_last());
        match spec_parse_package(tables.last()) {
            Some(p) => prev.push(p),
            None => prev,
        }
    }
}

/// The packages of an optional `[[package]]` array of tables.
pub open spec fn spec_packages(o: Option<TomlItem>) -> Seq<LockPackageView> {
    match o {
        Some(item) => match item.spec_as_array_of_tables() {
            Some(tables) => tables_packages(tables),
            None => Seq::empty(),
        },
        None => Seq::empty(),
    }
}

fn opt_string(o: Option<&TomlItem>) -> (r: Option<String>)
    ensures
        opt_view(r) == opt_str(opt_item(o)),
{
    match o {
        Some(item) => match item.as_str() {
            Some(s) => Some(owned(s)),
            None => None,
        },
        None => None,
    }
}

/// The entries of a package's `dependencies` array.
pub fn parse_dependency_array(o: Option<&TomlItem>) -> (r: Vec<LockDependency>)
    ensures
        lock_dependency_views(r@) == spec_dependency_array(opt_item(o)),
{
    let mut out: Vec<LockDependency> = Vec::new();
    assert(lock_dependency_views(out@) =~= Seq::empty());
    let items = match o {
        Some(item) => match item.as_array() {
            Some(items) => items,
            None => {
                return out;
            },
        },
        None => {
            return out;
        },
    };
    for i in 0..items.len()
        invariant
            lock_dependency_views(out@) == items_lock_dependencies(items@.take(i as int)),
    {
        assert(items@.take(i + 1).drop_last() == items@.take(i as int));
        if let Some(s) = items[i].as_str() {
            let d = parse_dependency(s);
            let ghost before = out@;
            let ghost dv = d@;
            out.push(d);
            assert(lock_dependency_views(out@) =~= lock_dependency_views(before).push(dv));
        }
    }
    assert(items@.take(items@.len() as int) == items@);
    out
}

/// The package a `[[package]]` table describes, if it has string `name` and
/// `version` entries.
pub fn parse_package(table: &TomlTable) -> (r: Option<LockPackage>)
    ensures
        match r {
            Some(p) => spec_parse_package(*table) == Some(p@),
            None => spec_parse_package(*table) is None,
        },
{
    let name = opt_string(table.get("name"))?;
    let version = opt_string(table.get("version"))?;
    Some(
        LockPackage {
            name,
            version,
            source: opt_string(table.get("source")),
            checksum: opt_string(table.get("checksum")),
            dependencies: parse_dependency_array(table.get("dependencies")),
        },
    )
}

/// The packages of the `[[package]]` array of tables, in order; tables
/// without a string name or version are left out.
pub fn parse_packages(o: Option<&TomlItem>) -> (r: Vec<LockPackage>)
    ensures
        package_views(r@) == spec_packages(opt_item(o)),
{
    let mut out: Vec<LockPackage> = Vec::new();
    assert(package_views(out@) =~= Seq::empty());
    let tables = match o {
        Some(item) => match item.as_array_of_tables() {
            Some(tables) => tables,
            None => {
                return out;
            },
        },
        None => {
            return out;
        },
    };
    for i in 0..tables.len()
        invariant
            package_views(out@) == tables_packages(tables@.take(i as int)),
    {
        assert(tables@.take(i + 1).drop_last() == tables@.take(i as int));
        if let Some(p) = parse_package(&tables[i]) {
            let ghost before = out@;
            let ghost pv = p@;
            out.push(p);
            assert(package_views(out@) =~= package_views(before).push(pv));
        }
    }
    assert(tables@.take(tables@.len() as int) == tables@);
    out
}

// ---------------------------------------------------------------------------
// The lockfile
// ---------------------------------------------------------------------------

/// A parsed lockfile.
#[derive(Debug, Clone, PartialEq, Eq)]
pub struct Lockfile {
    pub path: String,
    pub version: Option<i64>,
    pub packages: Vec<LockPackage>,
}

/// The versions of one crate that a lockfile pins, in ascending order.
#[derive(Debug, Clone, PartialEq, Eq)]
pub struct CrateVersions {
    pub name: String,
    pub versions: Vec<String>,
}

pub struct CrateVersionsView {
    pub name: Seq<char>,
    pub versions: Seq<Seq<char>>,
}

impl View for CrateVersions {
    type V = CrateVersionsView;

    open spec fn view(&self) -> CrateVersionsView {
        CrateVersionsView { name: self.name@, versions: views(self.versions@) }
    }
}

pub open spec fn crate_versions_views(v: Seq<CrateVersions>) -> Seq<CrateVersionsView> {
    v.map_values(|g: CrateVersions| g@)
}

pub open spec fn group_names(groups: Seq<CrateVersions>) -> Seq<Seq<char>> {
    groups.map_values(|g: CrateVersions| g.name@)
}

/// `groups` lists, in ascending order of name and each with its versions in
/// ascending order, every crate of `packages` with every version of it:
/// the lockfile's versions grouped by crate name.
pub open spec fn grouped_versions(groups: Seq<CrateVersions>, packages: Seq<LockPackage>) -> bool {
    &&& strictly_sorted(group_names(groups))
    &&& forall|n: Seq<char>|
        group_names(groups).contains(n) <==> exists|p: int|
            0 <= p < packages.len() && #[trigger] packages[p].name@ == n
    &&& forall|g: int|
        #![trigger groups[g]]
        0 <= g < groups.len() ==> {
            &&& strictly_sorted(views(groups[g].versions@))
            &&& forall|v: Seq<char>|
                views(groups[g].versions@).contains(v) <==> exists|p: int|
                    0 <= p < packages.len() && #[trigger] packages[p].name@ == groups[g].name@
                        && packages[p].version@ == v
        }
}

/// The grouping of `packages` by crate name: the unique list of groups
/// that `grouped_versions` describes.
pub open spec fn canonical_groups(packages: Seq<LockPackage>) -> Seq<CrateVersionsView> {
    crate_versions_views(choose|all: Seq<CrateVersions>| grouped_versions(all, packages))
}

/// Two groupings of the same packages hold the same names and versions.
pub proof fn lemma_grouping_unique(
    a: Seq<CrateVersions>,
    b: Seq<CrateVersions>,
    packages: Seq<LockPackage>,
)
    requires
        grouped_versions(a, packages),
        grouped_versions(b, packages),
    ensures
        crate_versions_views(a) == crate_versions_views(b),
{
    crate::text::lemma_sorted_unique(group_names(a), group_names(b));
    assert(a.len() == group_names(a).len());
    assert forall|g: int| 0 <= g < a.len() implies #[trigger] a[g]@ == b[g]@ by {
        assert(group_names(a)[g] == a[g].name@);
        assert(group_names(b)[g] == b[g].name@);
        crate::text::lemma_sorted_unique(views(a[g].versions@), views(b[g].versions@));
    }
    assert(crate_versions_views(a) =~= crate_versions_views(b));
}

impl Lockfile {
    /// The lockfile a parsed document describes.
    pub fn from_document(path: &str, document: &TomlTable) -> (r: Lockfile)
        ensures
            r.path@ == path@,
            r.version == match document.spec_get("version"@) {
                Some(item) => item.spec_as_integer(),
                None => None,
            },
            package_views(r.packages@) == spec_packages(document.spec_get("package"@)),
    {
        let version = match document.get("version") {
            Some(item) => item.as_integer(),
            None => None,
        };
        Lockfile {
            path: owned(path),
            version,
            packages: parse_packages(document.get("package")),
        }
    }

    /// The lockfile holds the version and the packages that `document`
    /// describes.
    pub open spec fn describes(&self, document: TomlTable) -> bool {
        &&& self.version == match document.spec_get("version"@) {
            Some(item) => item.spec_as_integer(),
            None => None,
        }
        &&& package_views(self.packages@) == spec_packages(document.spec_get("package"@))
    }

    /// Parses the text of a lockfile read from `path`; it fails, with the
    /// parser's message, exactly when the text is not TOML. What it holds is
    /// what the parsed document describes.
    pub fn parse(path: &str, raw: &str) -> (r: Result<Lockfile, ShedError>)
        ensures
            r is Ok <==> toml_accepts(raw@),
            match r {
                Ok(l) => l.path@ == path@ && exists|d: TomlTable|
                    #[trigger] l.describes(d) && table_reads(d, toml_document(raw@), MAX_DEPTH as int),
                Err(e) => e matches ShedError::Parse { path: p, .. } && p@ == path@,
            },
    {
        match parse_toml(raw) {
            Ok(document) => {
                let l = Lockfile::from_document(path, &document);
                assert(l.describes(document));
                Ok(l)
            },
            Err(message) => Err(ShedError::Parse { path: owned(path), message }),
        }
    }

    /// Every crate of the lockfile with its versions, both in ascending order.
    pub fn versions_by_name(&self) -> (r: Vec<CrateVersions>)
        ensures
            grouped_versions(r@, self.packages@),
            crate_versions_views(r@) == canonical_groups(self.packages@),
    {
        let mut names: Vec<String> = Vec::new();
        let mut groups: Vec<CrateVersions> = Vec::new();
        let ghost pkgs = self.packages@;
        for k in 0..self.packages.len()
            invariant
                pkgs == self.packages@,
                views(names@) == group_names(groups@),
                strictly_sorted(views(names@)),
                forall|n: Seq<char>|
                    views(names@).contains(n) <==> exists|p: int|
                        0 <= p < k && #[trigger] pkgs[p].name@ == n,
                forall|g: int|
                    #![trigger groups@[g]]
                    0 <= g < groups@.len() ==> {
                        &&& strictly_sorted(views(groups@[g].versions@))
                        &&& forall|v: Seq<char>|
                            views(groups@[g].versions@).contains(v) <==> exists|p: int|
                                0 <= p < k && #[trigger] pkgs[p].name@ == groups@[g].name@
                                    && pkgs[p].version@ == v
                    },
        {
            let package = &self.packages[k];
            let (at, found) = locate(&names, package.name.as_str());
            proof {
                assert(views(names@).len() == group_names(groups@).len());
            }
            if found {
                let ghost old_groups = groups@;
                proof {
                    assert(group_names(groups@)[at as int] == groups@[at as int].name@);
                    assert(views(names@)[at as int] == names@[at as int]@);
                }
                let mut group = groups.remove(at);
                assert(group == old_groups[at as int]);
                insert_sorted(&mut group.versions, package.version.clone());
                groups.insert(at, group);
                proof {
                    assert(groups@ =~= old_groups.update(at as int, group));
                    assert(group_names(groups@) =~= group_names(old_groups));
                    assert forall|g: int|
                        #![trigger groups@[g]]
                        0 <= g < groups@.len() implies {
                        &&& strictly_sorted(views(groups@[g].versions@))
                        &&& forall|v: Seq<char>|
                            views(groups@[g].versions@).contains(v) <==> exists|p: int|
                                0 <= p < k + 1 && #[trigger] pkgs[p].name@ == groups@[g].name@
                                    && pkgs[p].version@ == v
                    } by {
                        assert(group_names(old_groups)[g] == old_groups[g].name@);
                        assert forall|v: Seq<char>|
                            views(groups@[g].versions@).contains(v) <==> exists|p: int|
                                0 <= p < k + 1 && #[trigger] pkgs[p].name@ == groups@[g].name@
                                    && pkgs[p].version@ == v by {
                            if g != at {
                                if exists|p: int|
                                    0 <= p < k + 1 && #[trigger] pkgs[p].name@
                                        == groups@[g].name@ && pkgs[p].version@ == v {
                                    let p = choose|p: int|
                                        0 <= p < k + 1 && #[trigger] pkgs[p].name@
                                            == groups@[g].name@ && pkgs[p].version@ == v;
                                    if p == k {
                                        assert(views(names@)[g] == names@[g]@);
                                        if g < at {
                                            assert(crate::text::seq_less(
                                                views(names@)[g],
                                                views(names@)[at as int],
                                            ));
                                        } else {
                                            assert(crate::text::seq_less(
                                                views(names@)[at as int],
                                                views(names@)[g],
                                            ));
                                        }
                                        crate::text::lemma_less_irreflexive(names@[g]@);
                                    }
                                }
                            } else {
                                if views(old_groups[g].versions@).contains(v) {
                                    let p = choose|p: int|
                                        0 <= p < k && #[trigger] pkgs[p].name@
                                            == old_groups[g].name@ && pkgs[p].version@ == v;
                                    assert(0 <= p < k + 1);
                                }
                            }
                        }
                    }
                    assert forall|n: Seq<char>|
                        views(names@).contains(n) <==> exists|p: int|
                            0 <= p < k + 1 && #[trigger] pkgs[p].name@ == n by {
                        if exists|p: int| 0 <= p < k + 1 && #[trigger] pkgs[p].name@ == n {
                            let p = choose|p: int| 0 <= p < k + 1 && #[trigger] pkgs[p].name@ == n;
                            if p == k {
                                assert(views(names@)[at as int] == n);
                            }
                        }
                    }
                }
            } else {
                let ghost old_names = names@;
                let ghost old_groups = groups@;
                let mut list: Vec<String> = Vec::new();
                list.push(package.version.clone());
                assert(views(list@) =~= seq![package.version@]);
                let group = CrateVersions { name: package.name.clone(), versions: list };
                names.insert(at, package.name.clone());
                groups.insert(at, group);
                proof {
                    assert(names@ == old_names.insert(at as int, package.name));
                    assert(views(names@) =~= views(old_names).insert(at as int, package.name@));
                    assert(group_names(groups@) =~= group_names(old_groups).insert(
                        at as int,
                        package.name@,
                    ));
                    assert forall|a: int, b: int|
                        0 <= a < b < views(names@).len() implies crate::text::seq_less(
                        #[trigger] views(names@)[a],
                        #[trigger] views(names@)[b],
                    ) by {
                        if a < at && b > at {
                            assert(views(old_names)[a] == old_names[a]@);
                            assert(views(old_names)[b - 1] == old_names[b - 1]@);
                        } else if a == at {
                            assert(views(old_names)[b - 1] == old_names[b - 1]@);
                        } else if b == at {
                            assert(views(old_names)[a] == old_names[a]@);
                        }
                    }
                    assert forall|n: Seq<char>|
                        views(names@).contains(n) <==> exists|p: int|
                            0 <= p < k + 1 && #[trigger] pkgs[p].name@ == n by {
                        if views(names@).contains(n) {
                            let j = choose|j: int|
                                0 <= j < views(names@).len() && views(names@)[j] == n;
                            if j < at {
                                assert(views(old_names)[j] == n);
                                assert(views(old_names).contains(n));
                                let p = choose|p: int| 0 <= p < k && #[trigger] pkgs[p].name@ == n;
                                assert(0 <= p < k + 1 && pkgs[p].name@ == n);
                            } else if j > at {
                                assert(views(old_names)[j - 1] == n);
                                assert(views(old_names).contains(n));
                                let p = choose|p: int| 0 <= p < k && #[trigger] pkgs[p].name@ == n;
                                assert(0 <= p < k + 1 && pkgs[p].name@ == n);
                            } else {
                                assert(pkgs[k as int] == *package);
                                assert(0 <= k < k + 1 && pkgs[k as int].name@ == n);
                            }
                        }
                        if exists|p: int| 0 <= p < k + 1 && #[trigger] pkgs[p].name@ == n {
                            let p = choose|p: int| 0 <= p < k + 1 && #[trigger] pkgs[p].name@ == n;
                            if p < k {
                                assert(0 <= p < k && pkgs[p].name@ == n);
                                assert(views(old_names).contains(n));
                                let j = choose|j: int|
                                    0 <= j < views(old_names).len() && views(old_names)[j] == n;
                                if j < at {
                                    assert(views(names@)[j] == n);
                                } else {
                                    assert(views(names@)[j + 1] == n);
                                }
                            } else {
                                assert(pkgs[k as int] == *package);
                                assert(views(names@)[at as int] == n);
                            }
                        }
                    }
                    assert forall|g: int|
                        #![trigger groups@[g]]
                        0 <= g < groups@.len() implies {
                        &&& strictly_sorted(views(groups@[g].versions@))
                        &&& forall|v: Seq<char>|
                            views(groups@[g].versions@).contains(v) <==> exists|p: int|
                                0 <= p < k + 1 && #[trigger] pkgs[p].name@ == groups@[g].name@
                                    && pkgs[p].version@ == v
                    } by {
                        assert forall|v: Seq<char>|
                            views(groups@[g].versions@).contains(v) <==> exists|p: int|
                                0 <= p < k + 1 && #[trigger] pkgs[p].name@ == groups@[g].name@
                                    && pkgs[p].version@ == v by {
                            if g == at {
                                assert(pkgs[k as int] == *package);
                                assert(groups@[g] == group);
                                if exists|p: int|
                                    0 <= p < k + 1 && #[trigger] pkgs[p].name@
                                        == groups@[g].name@ && pkgs[p].version@ == v {
                                    let p = choose|p: int|
                                        0 <= p < k + 1 && #[trigger] pkgs[p].name@
                                            == groups@[g].name@ && pkgs[p].version@ == v;
                                    if p == k {
                                        assert(views(groups@[g].versions@)[0] == pkgs[k as int].version@);
                                    }
                                    if p < k {
                                        assert(0 <= p < k && pkgs[p].name@ == groups@[g].name@);
                                        assert(views(old_names).contains(groups@[g].name@));
                                        let j = choose|j: int|
                                            0 <= j < views(old_names).len() && views(old_names)[j]
                                                == groups@[g].name@;
                                        if j < at {
                                            assert(views(names@)[j] == views(old_names)[j]);
                                        } else {
                                            assert(views(names@)[j + 1] == views(old_names)[j]);
                                        }
                                        crate::text::lemma_less_irreflexive(groups@[g].name@);
                                    }
                                }
                                if views(groups@[g].versions@).contains(v) {
                                    assert(views(groups@[g].versions@)[0] == v);
                                    assert(0 <= k < k + 1 && pkgs[k as int].name@
                                        == groups@[g].name@ && pkgs[k as int].version@ == v);
                                }
                            } else {
                                let og = if g < at {
                                    g
                                } else {
                                    g - 1
                                };
                                assert(groups@[g] == old_groups[og]);
                                if views(groups@[g].versions@).contains(v) {
                                    let p = choose|p: int|
                                        0 <= p < k && #[trigger] pkgs[p].name@
                                            == old_groups[og].name@ && pkgs[p].version@ == v;
                                    assert(0 <= p < k + 1);
                                }
                                if exists|p: int|
                                    0 <= p < k + 1 && #[trigger] pkgs[p].name@
                                        == groups@[g].name@ && pkgs[p].version@ == v {
                                    let p = choose|p: int|
                                        0 <= p < k + 1 && #[trigger] pkgs[p].name@
                                            == groups@[g].name@ && pkgs[p].version@ == v;
                                    if p == k {
                                        assert(pkgs[k as int] == *package);
                                        assert(group_names(old_groups)[og] == old_groups[og].name@);
                                        assert(views(old_names)[og] == pkgs[k as int].name@);
                                        assert(views(old_names).contains(pkgs[k as int].name@));
                                        if og < at {
                                            assert(crate::text::seq_less(views(old_names)[og], package.name@));
                                        } else {
                                            assert(crate::text::seq_less(package.name@, views(old_names)[og]));
                                        }
                                        crate::text::lemma_less_irreflexive(package.name@);
                                    } else {
                                        assert(0 <= p < k && pkgs[p].name@ == old_groups[og].name@);
                                    }
                                }
                            }
                        }
                    }
                }
            }
        }
        proof {
            let chosen = choose|all: Seq<CrateVersions>| grouped_versions(all, self.packages@);
            lemma_grouping_unique(groups@, chosen, self.packages@);
        }
        groups
    }

    /// The crates pinned in more than one version, as `versions_by_name`
    /// lists them.
    pub fn duplicate_versions(&self) -> (r: Vec<CrateVersions>)
        ensures
            crate_versions_views(r@) == several_versions(canonical_groups(self.packages@)),
    {
        let all = self.versions_by_name();
        let mut out: Vec<CrateVersions> = Vec::new();
        for i in 0..all.len()
            invariant
                crate_versions_views(out@) == several_versions(
                    crate_versions_views(all@.take(i as int)),
                ),
        {
            assert(crate_versions_views(all@.take(i + 1)).drop_last() == crate_versions_views(
                all@.take(i as int),
            ));
            if all[i].versions.len() > 1 {
                let group = CrateVersions {
                    name: all[i].name.clone(),
                    versions: copy_strings(&all[i].versions),
                };
                assert(group@ == all@[i as int]@);
                let ghost before = out@;
                out.push(group);
                assert(crate_versions_views(out@) =~= crate_versions_views(before).push(
                    all@[i as int]@,
                ));
            }
        }
        assert(all@.take(all@.len() as int) == all@);
        out
    }
}

fn copy_strings(v: &Vec<String>) -> (r: Vec<String>)
    ensures
        r@ == v@,
{
    let mut out: Vec<String> = Vec::new();
    for i in 0..v.len()
        invariant
            out@ == v@.take(i as int),
    {
        out.push(v[i].clone());
        assert(out@ =~= v@.take(i + 1));
    }
    assert(v@.take(v@.len() as int) == v@);
    out
}

/// The groups that hold more than one version, in order.
pub open spec fn several_versions(groups: Seq<CrateVersionsView>) -> Seq<CrateVersionsView>
    decreases groups.len(),
{
    if groups.len() == 0 {
        Seq::empty()
    } else {
        let prev = several_versions(groups.drop_last());
        if groups.last().versions.len() > 1 {
            prev.push(groups.last())
        } else {
            prev
        }
    }
}

} // verus!
