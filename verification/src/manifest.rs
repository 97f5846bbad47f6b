//! `Cargo.toml`: its dependency sections and the dependencies declared there.
use vstd::prelude::*;

use crate::error::ShedError;
use crate::issue::opt_view;
use crate::text::{owned, push_char, views};
use crate::toml::{
    entries_get, opt_as_table, opt_item, opt_table, parse_toml, table_reads, toml_accepts,
    toml_document, TomlEntry, TomlItem, TomlTable, MAX_DEPTH,
};

verus! {

/// Where a dependency is declared.
#[derive(Debug, Clone, Copy, PartialEq, Eq, Hash, Structural)]
pub enum DependencySection {
    Normal,
    Dev,
    Build,
    Workspace,
}

impl DependencySection {
    pub open spec fn key(self) -> Seq<char> {
        match self {
            DependencySection::Normal => "dependencies"@,
            DependencySection::Dev => "dev-dependencies"@,
            DependencySection::Build => "build-dependencies"@,
            DependencySection::Workspace => "workspace.dependencies"@,
        }
    }

    /// The manifest key of the section, dotted for the workspace table.
    pub fn manifest_key(&self) -> (r: &'static str)
        ensures
            r@ == self.key(),
    {
        match self {
            DependencySection::Normal => "dependencies",
            DependencySection::Dev => "dev-dependencies",
            DependencySection::Build => "build-dependencies",
            DependencySection::Workspace => "workspace.dependencies",
        }
    }
}

pub struct DependencyView {
    pub section: DependencySection,
    pub name: Seq<char>,
    pub package: Option<Seq<char>>,
    pub version: Option<Seq<char>>,
    pub default_features: Option<bool>,
    pub features: Seq<Seq<char>>,
    pub optional: bool,
    pub path: Option<Seq<char>>,
    pub workspace: bool,
}

/// A dependency as the manifest declares it.
#[derive(Debug, Clone, PartialEq, Eq)]
pub struct Dependency {
    pub section: DependencySection,
    pub name: String,
    pub package: Option<String>,
    pub version: Option<String>,
    pub default_features: Option<bool>,
    pub features: Vec<String>,
    pub optional: bool,
    pub path: Option<String>,
    pub workspace: bool,
}

impl View for Dependency {
    type V = DependencyView;

    open spec fn view(&self) -> DependencyView {
        DependencyView {
            section: self.section,
            name: self.name@,
            package: opt_view(self.package),
            version: opt_view(self.version),
            default_features: self.default_features,
            features: views(self.features@),
            optional: self.optional,
            path: opt_view(self.path),
            workspace: self.workspace,
        }
    }
}

pub open spec fn dependency_views(v: Seq<Dependency>) -> Seq<DependencyView> {
    v.map_values(|d: Dependency| d@)
}

/// `s` with every `-` replaced by `_`.
pub open spec fn underscored(s: Seq<char>) -> Seq<char> {
    s.map_values(|c: char|
        if c == '-' {
            '_'
        } else {
            c
        })
}

impl Dependency {
    /// The name under which Rust code refers to the dependency.
    pub fn crate_name(&self) -> (r: String)
        ensures
            r@ == underscored(self.name@),
    {
        let chars = crate::text::chars_of(self.name.as_str());
        let mut out = String::new();
        for i in 0..chars.len()
            invariant
                chars@ == self.name@,
                out@ == underscored(chars@.take(i as int)),
        {
            let c = if chars[i] == '-' {
                '_'
            } else {
                chars[i]
            };
            push_char(&mut out, c);
            assert(underscored(chars@.take(i + 1)) =~= underscored(chars@.take(i as int)).push(c));
        }
        assert(chars@.take(chars@.len() as int) == chars@);
        out
    }
}

// ---------------------------------------------------------------------------
// Reading the dependency tables
// ---------------------------------------------------------------------------

/// `get_str`: the string an optional item holds.
pub open spec fn opt_str(o: Option<TomlItem>) -> Option<Seq<char>> {
    match o {
        Some(item) => item.spec_as_str(),
        None => None,
    }
}

/// `get_bool`: the boolean an optional item holds.
pub open spec fn opt_bool(o: Option<TomlItem>) -> Option<bool> {
    match o {
        Some(item) => item.spec_as_bool(),
        None => None,
    }
}

/// The strings among `items`, in order.
pub open spec fn strings_in(items: Seq<TomlItem>) -> Seq<Seq<char>>
    decreases items.len(),
{
    if items.len() == 0 {
        Seq::empty()
    } else {
        let prev = strings_in(items.drop_last());
        match items.last().spec_as_str() {
            Some(s) => prev.push(s),
            None => prev,
        }
    }
}

/// `get_string_array`: the strings of an optional inline array.
pub open spec fn opt_strings(o: Option<TomlItem>) -> Seq<Seq<char>> {
    match o {
        Some(item) => match item.spec_as_array() {
            Some(items) => strings_in(items),
            None => Seq::empty(),
        },
        None => Seq::empty(),
    }
}

/// The dependency that the entry `name = item` of a dependency table
/// declares: a bare version string, or a table of settings.
pub open spec fn spec_parse_dependency(
    section: DependencySection,
    name: Seq<char>,
    item: TomlItem,
) -> Option<DependencyView> {
    match item.spec_as_str() {
        Some(version) => Some(
            DependencyView {
                section,
                name,
                package: None,
                version: Some(version),
                default_features: None,
                features: Seq::empty(),
                optional: false,
                path: None,
                workspace: false,
            },
        ),
        None => match item.spec_as_table() {
            Some(t) => Some(
                DependencyView {
                    section,
                    name,
                    package: opt_str(t.spec_get("package"@)),
                    version: opt_str(t.spec_get("version"@)),
                    default_features: opt_bool(t.spec_get("default-features"@)),
                    features: opt_strings(t.spec_get("features"@)),
                    optional: match opt_bool(t.spec_get("optional"@)) {
                        Some(b) => b,
                        None => false,
                    },
                    path: opt_str(t.spec_get("path"@)),
                    workspace: match opt_bool(t.spec_get("workspace"@)) {
                        Some(b) => b,
                        None => false,
                    },
                },
            ),
            None => None,
        },
    }
}

/// The dependencies that the entries of a dependency table declare, in order.
pub open spec fn entries_dependencies(
    entries: Seq<TomlEntry>,
    section: DependencySection,
) -> Seq<DependencyView>
    decreases entries.len(),
{
    if entries.len() == 0 {
        Seq::empty()
    } else {
        let prev = entries_dependencies(entries.drop_last(), section);
        match spec_parse_dependency(section, entries.last().key@, entries.last().item) {
            Some(d) => prev.push(d),
            None => prev,
        }
    }
}

/// The dependencies of an optional dependency table.
pub open spec fn table_dependencies(
    o: Option<TomlItem>,
    section: DependencySection,
) -> Seq<DependencyView> {
    match opt_table(o) {
        Some(t) => entries_dependencies(t.entries@, section),
        None => Seq::empty(),
    }
}

/// The `[workspace.dependencies]` item of a document.
pub open spec fn workspace_dependencies(document: TomlTable) -> Option<TomlItem> {
    match opt_table(document.spec_get("workspace"@)) {
        Some(w) => w.spec_get("dependencies"@),
        None => None,
    }
}

/// Every dependency a manifest declares: normal, dev, build, then workspace.
pub open spec fn spec_dependencies(document: TomlTable) -> Seq<DependencyView> {
    table_dependencies(document.spec_get("dependencies"@), DependencySection::Normal)
        + table_dependencies(document.spec_get("dev-dependencies"@), DependencySection::Dev)
        + table_dependencies(document.spec_get("build-dependencies"@), DependencySection::Build)
        + table_dependencies(workspace_dependencies(document), DependencySection::Workspace)
}

/// The table of `section` in a document.
pub open spec fn spec_dependency_table(document: TomlTable, section: DependencySection) -> Option<
    TomlTable,
> {
    match section {
        DependencySection::Normal => opt_table(document.spec_get("dependencies"@)),
        DependencySection::Dev => opt_table(document.spec_get("dev-dependencies"@)),
        DependencySection::Build => opt_table(document.spec_get("build-dependencies"@)),
        DependencySection::Workspace => opt_table(workspace_dependencies(document)),
    }
}

fn get_str(o: Option<&TomlItem>) -> (r: Option<String>)
    ensures
        opt_view(r) == opt_str(opt_item(o)),
{
    match o {
        Some(item) => match item.as_str() {
            Some(s) => Some(owned(s)),
            None => None,
        },
        None => None,
    }
}

fn get_bool(o: Option<&TomlItem>) -> (r: Option<bool>)
    ensures
        r == opt_bool(opt_item(o)),
{
    match o {
        Some(item) => item.as_bool(),
        None => None,
    }
}

fn get_string_array(o: Option<&TomlItem>) -> (r: Vec<String>)
    ensures
        views(r@) == opt_strings(opt_item(o)),
{
    let mut out: Vec<String> = Vec::new();
    let items = match o {
        Some(item) => match item.as_array() {
            Some(items) => items,
            None => {
                assert(views(out@) =~= Seq::empty());
                return out;
            },
        },
        None => {
            assert(views(out@) =~= Seq::empty());
            return out;
        },
    };
    for i in 0..items.len()
        invariant
            views(out@) == strings_in(items@.take(i as int)),
    {
        assert(items@.take(i + 1).drop_last() == items@.take(i as int));
        if let Some(s) = items[i].as_str() {
            out.push(owned(s));
            assert(views(out@) =~= strings_in(items@.take(i as int)).push(s@));
        }
    }
    assert(items@.take(items@.len() as int) == items@);
    out
}

/// The dependency that the entry `name = item` declares, if the item is a
/// version string or a table.
pub fn parse_dependency(section: DependencySection, name: &str, item: &TomlItem) -> (r: Option<
    Dependency,
>)
    ensures
        match r {
            Some(d) => spec_parse_dependency(section, name@, *item) == Some(d@),
            None => spec_parse_dependency(section, name@, *item) is None,
        },
{
    if let Some(version) = item.as_str() {
        let features: Vec<String> = Vec::new();
        let d = Dependency {
            section,
            name: owned(name),
            package: None,
            version: Some(owned(version)),
            default_features: None,
            features,
            optional: false,
            path: None,
            workspace: false,
        };
        assert(views(d.features@) =~= Seq::empty());
        return Some(d);
    }
    let table = item.as_table()?;
    let optional = match get_bool(table.get("optional")) {
        Some(b) => b,
        None => false,
    };
    let workspace = match get_bool(table.get("workspace")) {
        Some(b) => b,
        None => false,
    };
    Some(
        Dependency {
            section,
            name: owned(name),
            package: get_str(table.get("package")),
            version: get_str(table.get("version")),
            default_features: get_bool(table.get("default-features")),
            features: get_string_array(table.get("features")),
            optional,
            path: get_str(table.get("path")),
            workspace,
        },
    )
}

/// Appends the dependencies of an optional dependency table.
pub fn collect_table(
    item: Option<&TomlItem>,
    section: DependencySection,
    dependencies: &mut Vec<Dependency>,
)
    ensures
        dependency_views(final(dependencies)@) == dependency_views(old(dependencies)@)
            + table_dependencies(opt_item(item), section),
{
    let ghost start = dependency_views(dependencies@);
    let table = match opt_as_table(item) {
        Some(t) => t,
        None => {
            assert(start + table_dependencies(opt_item(item), section) =~= start);
            return ;
        },
    };
    for i in 0..table.entries.len()
        invariant
            dependency_views(dependencies@) == start + entries_dependencies(
                table.entries@.take(i as int),
                section,
            ),
    {
        assert(table.entries@.take(i + 1).drop_last() == table.entries@.take(i as int));
        let entry = &table.entries[i];
        if let Some(d) = parse_dependency(section, entry.key.as_str(), &entry.item) {
            let ghost before = dependencies@;
            let ghost dv = d@;
            dependencies.push(d);
            assert(dependency_views(dependencies@) =~= dependency_views(before).push(dv));
        }
    }
    assert(table.entries@.take(table.entries@.len() as int) == table.entries@);
}

fn workspace_dependencies_item(document: &TomlTable) -> (r: Option<&TomlItem>)
    ensures
        opt_item(r) == workspace_dependencies(*document),
{
    match opt_as_table(document.get("workspace")) {
        Some(w) => w.get("dependencies"),
        None => None,
    }
}

/// Every dependency the document declares: normal, dev, build, then
/// workspace, each section in document order.
pub fn collect_dependencies(document: &TomlTable) -> (r: Vec<Dependency>)
    ensures
        dependency_views(r@) == spec_dependencies(*document),
{
    let mut dependencies: Vec<Dependency> = Vec::new();
    assert(dependency_views(dependencies@) =~= Seq::empty());
    collect_table(document.get("dependencies"), DependencySection::Normal, &mut dependencies);
    collect_table(document.get("dev-dependencies"), DependencySection::Dev, &mut dependencies);
    collect_table(document.get("build-dependencies"), DependencySection::Build, &mut dependencies);
    collect_table(
        workspace_dependencies_item(document),
        DependencySection::Workspace,
        &mut dependencies,
    );
    assert(dependency_views(dependencies@) =~= spec_dependencies(*document));
    dependencies
}

fn dependency_table<'a>(document: &'a TomlTable, section: &DependencySection) -> (r: Option<
    &'a TomlTable,
>)
    ensures
        match r {
            Some(t) => spec_dependency_table(*document, *section) == Some(*t),
            None => spec_dependency_table(*document, *section) is None,
        },
{
    match section {
        DependencySection::Normal => opt_as_table(document.get("dependencies")),
        DependencySection::Dev => opt_as_table(document.get("dev-dependencies")),
        DependencySection::Build => opt_as_table(document.get("build-dependencies")),
        DependencySection::Workspace => opt_as_table(workspace_dependencies_item(document)),
    }
}

/// A parsed manifest: where it was read from, its text, its document and
/// the dependencies it declares.
#[derive(Debug)]
pub struct Manifest {
    pub path: String,
    pub raw: String,
    pub document: TomlTable,
    pub dependencies: Vec<Dependency>,
}

/// The entry `name` of the table of `section`.
pub open spec fn spec_dependency_item(
    document: TomlTable,
    section: DependencySection,
    name: Seq<char>,
) -> Option<TomlItem> {
    match spec_dependency_table(document, section) {
        Some(t) => t.spec_get(name),
        None => None,
    }
}

impl Manifest {
    /// The manifest was parsed from its text: the text is TOML and the
    /// document is what `toml_edit` reads from it.
    pub open spec fn read_from_raw(&self) -> bool {
        toml_accepts(self.raw@) && table_reads(self.document, toml_document(self.raw@), MAX_DEPTH as int)
    }

    /// The manifest is what the document declares.
    pub open spec fn wf(&self) -> bool {
        dependency_views(self.dependencies@) == spec_dependencies(self.document)
    }

    /// Parses the text of a manifest read from `path`. It fails, with the
    /// parser's message, exactly when the text is not TOML.
    pub fn parse(path: &str, raw: String) -> (r: Result<Manifest, ShedError>)
        ensures
            r is Ok <==> toml_accepts(raw@),
            match r {
                Ok(m) => m.wf() && m.path@ == path@ && m.raw@ == raw@ && m.read_from_raw(),
                Err(e) => e matches ShedError::Parse { path: p, .. } && p@ == path@,
            },
    {
        match parse_toml(raw.as_str()) {
            Ok(document) => {
                let dependencies = collect_dependencies(&document);
                Ok(Manifest { path: owned(path), raw, document, dependencies })
            },
            Err(message) => Err(ShedError::Parse { path: owned(path), message }),
        }
    }

    pub open spec fn spec_is_workspace_root(&self) -> bool {
        self.document.spec_get("workspace"@) is Some
    }

    /// The manifest has a `workspace` entry.
    pub fn is_workspace_root(&self) -> (r: bool)
        ensures
            r == self.spec_is_workspace_root(),
    {
        self.document.get("workspace").is_some()
    }

    pub open spec fn spec_package_name(&self) -> Option<Seq<char>> {
        match opt_table(self.document.spec_get("package"@)) {
            Some(t) => opt_str(t.spec_get("name"@)),
            None => None,
        }
    }

    /// The `package.name` string.
    pub fn package_name(&self) -> (r: Option<&str>)
        ensures
            match r {
                Some(s) => self.spec_package_name() == Some(s@),
                None => self.spec_package_name() is None,
            },
    {
        match opt_as_table(self.document.get("package")) {
            Some(t) => match t.get("name") {
                Some(item) => item.as_str(),
                None => None,
            },
            None => None,
        }
    }

    /// The item that declares `name` in the table of `section`.
    pub fn dependency_item(&self, section: &DependencySection, name: &str) -> (r: Option<
        &TomlItem,
    >)
        ensures
            opt_item(r) == spec_dependency_item(self.document, *section, name@),
    {
        match dependency_table(&self.document, section) {
            Some(t) => t.get(name),
            None => None,
        }
    }

    pub open spec fn spec_dependency_is_simple_string(
        &self,
        section: DependencySection,
        name: Seq<char>,
    ) -> bool {
        match spec_dependency_item(self.document, section, name) {
            Some(item) => item.spec_as_str() is Some,
            None => false,
        }
    }

    /// `name` is declared in `section` as a bare version string.
    pub fn dependency_is_simple_string(&self, section: &DependencySection, name: &str) -> (r:
        bool)
        ensures
            r == self.spec_dependency_is_simple_string(*section, name@),
    {
        match self.dependency_item(section, name) {
            Some(item) => item.as_str().is_some(),
            None => false,
        }
    }
}

/// What one entry of a dependency table declares. A version string or a
/// table declares a dependency of that section and name, anything else
/// none. The dependency is optional exactly when its table holds
/// `optional = true`, and inherited from the workspace exactly when its
/// table holds `workspace = true`: a version string, a table without the
/// key, or the key set to `false` all leave the flag off. A version string
/// gives that version and nothing else.
pub proof fn law_dependency_entry(section: DependencySection, name: Seq<char>, item: TomlItem)
    ensures
        spec_parse_dependency(section, name, item) is Some <==> (item is Str || item is Table),
        spec_parse_dependency(section, name, item) matches Some(d) ==> {
            &&& d.section == section
            &&& d.name == name
            &&& d.optional <==> (item matches TomlItem::Table(t) && t.spec_get("optional"@)
                == Some(TomlItem::Bool(true)))
            &&& d.workspace <==> (item matches TomlItem::Table(t) && t.spec_get("workspace"@)
                == Some(TomlItem::Bool(true)))
            &&& (item matches TomlItem::Str(v) ==> {
                &&& d.version == Some(v@)
                &&& d.package is None
                &&& d.default_features is None
                &&& d.features.len() == 0
                &&& d.path is None
            })
        },
{
}

} // verus!
