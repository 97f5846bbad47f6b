//! A loaded project: its manifest, its lockfile when there is one, and its
//! scanned sources.
use vstd::prelude::*;

use crate::issue::opt_view;
use crate::lockfile::Lockfile;
use crate::manifest::Manifest;
use crate::scan::SourceIndex;
use crate::text::{owned, views};

verus! {

/// Whether the manifest is a workspace root.
#[derive(Debug, Clone, Copy, PartialEq, Eq, Structural)]
pub enum ProjectKind {
    SingleCrate,
    WorkspaceRoot,
}

/// Everything the rules look at.
#[derive(Debug)]
pub struct Project {
    pub root: String,
    pub manifest_path: String,
    pub manifest: Manifest,
    pub lockfile: Option<Lockfile>,
    pub source_index: SourceIndex,
    pub kind: ProjectKind,
}

/// The directory that holds `path`, as `camino::Utf8Path::parent` gives it.
pub uninterp spec fn path_parent(path: Seq<char>) -> Option<Seq<char>>;

/// `path` joined with `child`, as `camino::Utf8Path::join` builds it.
pub uninterp spec fn path_join(path: Seq<char>, child: Seq<char>) -> Seq<char>;

/// `camino::Utf8Path::parent`: the path without its last component, if it
/// has one. Depends on the text of the path alone.
#[verifier::external_body]
fn parent_of(path: &str) -> (r: Option<String>)
    ensures
        opt_view(r) == path_parent(path@),
{
    camino::Utf8Path::new(path).parent().map(|p| p.as_str().to_owned())
}

/// `camino::Utf8Path::join`: `child` appended to `path` as a further
/// component. Depends on the two texts alone.
#[verifier::external_body]
pub(crate) fn join_path(path: &str, child: &str) -> (r: String)
    ensures
        r@ == path_join(path@, child@),
{
    camino::Utf8Path::new(path).join(child).into_string()
}

pub open spec fn spec_root(manifest_path: Seq<char>) -> Seq<char> {
    match path_parent(manifest_path) {
        Some(p) => p,
        None => "."@,
    }
}

/// The project root: the directory of the manifest, or `.` when the
/// manifest path has no parent.
pub fn project_root(manifest_path: &str) -> (r: String)
    ensures
        r@ == spec_root(manifest_path@),
{
    match parent_of(manifest_path) {
        Some(p) => p,
        None => owned("."),
    }
}

/// Where the lockfile of a project rooted at `root` lies.
pub fn lockfile_path(root: &str) -> (r: String)
    ensures
        r@ == path_join(root@, "Cargo.lock"@),
{
    join_path(root, "Cargo.lock")
}

/// The manifest inside the directory `dir`.
pub fn manifest_in(dir: &str) -> (r: String)
    ensures
        r@ == path_join(dir@, "Cargo.toml"@),
{
    join_path(dir, "Cargo.toml")
}

/// The manifest a `--manifest-path` names: the `Cargo.toml` inside it when
/// it is a directory, else the path itself.
pub fn resolve_manifest_path(path: &str, is_dir: bool) -> (r: String)
    ensures
        r@ == (if is_dir {
            path_join(path@, "Cargo.toml"@)
        } else {
            path@
        }),
{
    if is_dir {
        manifest_in(path)
    } else {
        owned(path)
    }
}

/// The note a report carries when no lockfile was found.
pub open spec fn no_lockfile_note() -> Seq<char> {
    "Cargo.lock was not found, so lockfile-based rules were skipped"@
}

impl Project {
    pub open spec fn spec_kind(manifest: Manifest) -> ProjectKind {
        if manifest.spec_is_workspace_root() {
            ProjectKind::WorkspaceRoot
        } else {
            ProjectKind::SingleCrate
        }
    }

    /// Assembles a project from what was read: the kind follows from the
    /// manifest.
    pub fn new(
        root: String,
        manifest_path: String,
        manifest: Manifest,
        lockfile: Option<Lockfile>,
        source_index: SourceIndex,
    ) -> (r: Project)
        ensures
            r.root == root,
            r.manifest_path == manifest_path,
            r.manifest == manifest,
            r.lockfile == lockfile,
            r.source_index == source_index,
            r.kind == Self::spec_kind(manifest),
    {
        let kind = if manifest.is_workspace_root() {
            ProjectKind::WorkspaceRoot
        } else {
            ProjectKind::SingleCrate
        };
        Project { root, manifest_path, manifest, lockfile, source_index, kind }
    }

    pub open spec fn spec_skipped_checks(&self) -> Seq<Seq<char>> {
        if self.lockfile is None {
            seq![no_lockfile_note()]
        } else {
            Seq::empty()
        }
    }

    /// The checks that could not run: the lockfile rules when there is no
    /// lockfile.
    pub fn skipped_checks(&self) -> (r: Vec<String>)
        ensures
            views(r@) == self.spec_skipped_checks(),
    {
        let mut out: Vec<String> = Vec::new();
        if self.lockfile.is_none() {
            out.push(owned("Cargo.lock was not found, so lockfile-based rules were skipped"));
        }
        assert(views(out@) =~= self.spec_skipped_checks());
        out
    }
}

} // verus!
