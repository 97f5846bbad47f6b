//! Editing a manifest: the edits a fix proposes, made on the parsed
//! document with `toml_edit`, which keeps the rest of the file (layout and
//! comments) as it was written and ends its lines with `\n`. An edit is
//! stated over the data the document holds.
use vstd::prelude::*;

use crate::fix::{Edit, EditView};
use crate::manifest::DependencySection;
use crate::toml::{
    data_get, data_remove, data_update, document_clone, document_data, document_root_mut,
    document_table, inline_table_clone, inline_table_data, inline_table_get, inline_table_replace,
    inline_table_remove, inline_table_value, item_data, item_table, item_value, string_array,
    string_data, array_value, table_clone, table_data, table_get, table_replace, table_item,
    table_remove, value_data, value_inline_table, value_item, TomlData,
};
use crate::text::views;

verus! {

/// The root key of a section the editor changes: the workspace table is
/// nested and is not edited.
pub open spec fn section_root_key(section: DependencySection) -> Option<Seq<char>> {
    match section {
        DependencySection::Normal => Some("dependencies"@),
        DependencySection::Dev => Some("dev-dependencies"@),
        DependencySection::Build => Some("build-dependencies"@),
        DependencySection::Workspace => None,
    }
}

/// A dependency table (standard or inline) without the entry `name`, when
/// it holds one.
pub open spec fn spec_remove_in(section: TomlData, name: Seq<char>) -> Option<TomlData> {
    match section {
        TomlData::Table(es) => if data_get(es, name) is Some {
            Some(TomlData::Table(data_remove(es, name)))
        } else {
            None
        },
        TomlData::InlineTable(es) => if data_get(es, name) is Some {
            Some(TomlData::InlineTable(data_remove(es, name)))
        } else {
            None
        },
        _ => None,
    }
}

/// A dependency's table (standard or inline) with its `features` entry
/// replaced by the strings `features`, when it has such an entry.
pub open spec fn spec_set_features(dependency: TomlData, features: Seq<Seq<char>>) -> Option<
    TomlData,
> {
    let array = TomlData::Array(string_data(features));
    match dependency {
        TomlData::Table(ds) => if data_get(ds, "features"@) is Some {
            Some(TomlData::Table(data_update(ds, "features"@, array)))
        } else {
            None
        },
        TomlData::InlineTable(ds) => if data_get(ds, "features"@) is Some {
            Some(TomlData::InlineTable(data_update(ds, "features"@, array)))
        } else {
            None
        },
        _ => None,
    }
}

/// A dependency table with the features of its entry `name` replaced.
pub open spec fn spec_replace_in(section: TomlData, name: Seq<char>, features: Seq<Seq<char>>) -> Option<
    TomlData,
> {
    match section {
        TomlData::Table(es) => match data_get(es, name) {
            Some(d) => match spec_set_features(d, features) {
                Some(nd) => Some(TomlData::Table(data_update(es, name, nd))),
                None => None,
            },
            None => None,
        },
        TomlData::InlineTable(es) => match data_get(es, name) {
            Some(d) => match spec_set_features(d, features) {
                Some(nd) => Some(TomlData::InlineTable(data_update(es, name, nd))),
                None => None,
            },
            None => None,
        },
        _ => None,
    }
}

/// The root entries of a document with one edit made, or `None` when the
/// document does not hold what the edit changes.
pub open spec fn spec_edit_data(root: Seq<(Seq<char>, TomlData)>, edit: EditView) -> Option<
    Seq<(Seq<char>, TomlData)>,
> {
    match edit {
        EditView::RemoveDependency { section, name } => match section_root_key(section) {
            Some(k) => match data_get(root, k) {
                Some(sd) => match spec_remove_in(sd, name) {
                    Some(nd) => Some(data_update(root, k, nd)),
                    None => None,
                },
                None => None,
            },
            None => None,
        },
        EditView::ReplaceDependencyFeatures { section, name, features, default_features } =>
            if default_features is Some {
            None
        } else {
            match section_root_key(section) {
                Some(k) => match data_get(root, k) {
                    Some(sd) => match spec_replace_in(sd, name, features) {
                        Some(nd) => Some(data_update(root, k, nd)),
                        None => None,
                    },
                    None => None,
                },
                None => None,
            }
        },
        EditView::SetDefaultFeatures { .. } => None,
    }
}

/// The root entries with the edits made in order, or `None` when one of
/// them cannot be made.
pub open spec fn spec_edits_data(root: Seq<(Seq<char>, TomlData)>, edits: Seq<EditView>) -> Option<
    Seq<(Seq<char>, TomlData)>,
>
    decreases edits.len(),
{
    if edits.len() == 0 {
        Some(root)
    } else {
        match spec_edits_data(root, edits.drop_last()) {
            Some(r) => spec_edit_data(r, edits.last()),
            None => None,
        }
    }
}

fn section_key(section: &DependencySection) -> (r: Option<&'static str>)
    ensures
        match r {
            Some(k) => section_root_key(*section) == Some(k@),
            None => section_root_key(*section) is None,
        },
{
    match section {
        DependencySection::Normal => Some("dependencies"),
        DependencySection::Dev => Some("dev-dependencies"),
        DependencySection::Build => Some("build-dependencies"),
        DependencySection::Workspace => None,
    }
}

/// The section item without the entry `name`.
fn removed_in(section: &toml_edit::Item, name: &str) -> (r: Option<toml_edit::Item>)
    ensures
        match r {
            Some(i) => spec_remove_in(item_data(*section), name@) == Some(item_data(i)),
            None => spec_remove_in(item_data(*section), name@) is None,
        },
{
    if let Some(t) = item_table(section) {
        if table_get(t, name).is_some() {
            let mut copy = table_clone(t);
            table_remove(&mut copy, name);
            return Some(table_item(copy));
        }
        return None;
    }
    if let Some(v) = item_value(section) {
        if let Some(t) = value_inline_table(v) {
            if inline_table_get(t, name).is_some() {
                let mut copy = inline_table_clone(t);
                inline_table_remove(&mut copy, name);
                return Some(value_item(inline_table_value(copy)));
            }
            return None;
        }
    }
    None
}

fn features_value(features: &Vec<String>) -> (r: toml_edit::Value)
    ensures
        value_data(r) == TomlData::Array(string_data(views(features@))),
{
    array_value(string_array(features))
}

/// A dependency item with its features replaced.
fn item_with_features(dependency: &toml_edit::Item, features: &Vec<String>) -> (r: Option<
    toml_edit::Item,
>)
    ensures
        match r {
            Some(i) => spec_set_features(item_data(*dependency), views(features@)) == Some(
                item_data(i),
            ),
            None => spec_set_features(item_data(*dependency), views(features@)) is None,
        },
{
    if let Some(t) = item_table(dependency) {
        if table_get(t, "features").is_some() {
            let mut copy = table_clone(t);
            table_replace(&mut copy, "features", value_item(features_value(features)));
            return Some(table_item(copy));
        }
        return None;
    }
    if let Some(v) = item_value(dependency) {
        return match value_with_features(v, features) {
            Some(nv) => Some(value_item(nv)),
            None => None,
        };
    }
    None
}

/// A dependency value (an inline table) with its features replaced.
fn value_with_features(dependency: &toml_edit::Value, features: &Vec<String>) -> (r: Option<
    toml_edit::Value,
>)
    ensures
        match r {
            Some(v) => spec_set_features(value_data(*dependency), views(features@)) == Some(
                value_data(v),
            ) && value_data(v) is InlineTable,
            None => spec_set_features(value_data(*dependency), views(features@)) is None,
        },
{
    if let Some(t) = value_inline_table(dependency) {
        if inline_table_get(t, "features").is_some() {
            let mut copy = inline_table_clone(t);
            inline_table_replace(&mut copy, "features", features_value(features));
            return Some(inline_table_value(copy));
        }
    }
    None
}

/// The section item with the features of its entry `name` replaced.
fn replaced_in(section: &toml_edit::Item, name: &str, features: &Vec<String>) -> (r: Option<
    toml_edit::Item,
>)
    ensures
        match r {
            Some(i) => spec_replace_in(item_data(*section), name@, views(features@)) == Some(
                item_data(i),
            ),
            None => spec_replace_in(item_data(*section), name@, views(features@)) is None,
        },
{
    if let Some(t) = item_table(section) {
        return match table_get(t, name) {
            Some(dependency) => match item_with_features(dependency, features) {
                Some(nd) => {
                    let mut copy = table_clone(t);
                    table_replace(&mut copy, name, nd);
                    Some(table_item(copy))
                },
                None => None,
            },
            None => None,
        };
    }
    if let Some(v) = item_value(section) {
        if let Some(t) = value_inline_table(v) {
            return match inline_table_get(t, name) {
                Some(dependency) => {
                    match value_with_features(dependency, features) {
                        Some(nv) => {
                            let mut copy = inline_table_clone(t);
                            inline_table_replace(&mut copy, name, nv);
                            Some(value_item(inline_table_value(copy)))
                        },
                        None => None,
                    }
                },
                None => None,
            };
        }
    }
    None
}

/// Makes one edit on a parsed manifest. Returns whether it was made; a
/// document that does not hold what the edit changes is left as it was.
pub fn apply_edit(document: &mut toml_edit::DocumentMut, edit: &Edit) -> (r: bool)
    ensures
        r == spec_edit_data(document_data(*old(document)), edit@) is Some,
        r ==> spec_edit_data(document_data(*old(document)), edit@) == Some(
            document_data(*final(document)),
        ),
        !r ==> document_data(*final(document)) == document_data(*old(document)),
{
    let (section, name) = match edit {
        Edit::RemoveDependency { section, name } => (section, name),
        Edit::ReplaceDependencyFeatures { section, name, default_features, .. } => {
            if default_features.is_some() {
                return false;
            }
            (section, name)
        },
        Edit::SetDefaultFeatures { .. } => {
            return false;
        },
    };
    let key = match section_key(section) {
        Some(k) => k,
        None => {
            return false;
        },
    };
    let new_item = {
        let root = document_table(document);
        let current = match table_get(root, key) {
            Some(i) => i,
            None => {
                return false;
            },
        };
        match edit {
            Edit::ReplaceDependencyFeatures { features, .. } => replaced_in(
                current,
                name.as_str(),
                features,
            ),
            _ => removed_in(current, name.as_str()),
        }
    };
    match new_item {
        Some(item) => {
            let root = document_root_mut(document);
            table_replace(root, key, item);
            true
        },
        None => false,
    }
}

/// Makes the edits in order on a parsed manifest, all or none: returns
/// whether they were made, and leaves the document as it was when one of
/// them cannot be made.
pub fn apply_edits(document: &mut toml_edit::DocumentMut, edits: &Vec<Edit>) -> (r: bool)
    ensures
        r == spec_edits_data(document_data(*old(document)), edits@.map_values(|e: Edit| e@)) is Some,
        r ==> spec_edits_data(document_data(*old(document)), edits@.map_values(|e: Edit| e@))
            == Some(document_data(*final(document))),
        !r ==> document_data(*final(document)) == document_data(*old(document)),
{
    let ghost all = edits@.map_values(|e: Edit| e@);
    let ghost start = document_data(*document);
    let mut trial = document_clone(document);
    for i in 0..edits.len()
        invariant
            all == edits@.map_values(|e: Edit| e@),
            start == document_data(*old(document)),
            spec_edits_data(start, all.take(i as int)) == Some(document_data(trial)),
    {
        assert(all.take(i + 1).drop_last() == all.take(i as int));
        assert(all.take(i + 1).last() == edits@[i as int]@);
        let ghost before = document_data(trial);
        if !apply_edit(&mut trial, &edits[i]) {
            proof {
                assert(spec_edit_data(before, edits@[i as int]@) is None);
                assert(spec_edits_data(start, all.take(i + 1)) is None);
                lemma_edits_fail_on(start, all, i as int);
            }
            return false;
        }
    }
    assert(all.take(edits@.len() as int) == all);
    *document = trial;
    true
}

proof fn lemma_edits_fail_on(root: Seq<(Seq<char>, TomlData)>, edits: Seq<EditView>, i: int)
    requires
        0 <= i < edits.len(),
        spec_edits_data(root, edits.take(i + 1)) is None,
    ensures
        spec_edits_data(root, edits) is None,
    decreases edits.len() - i,
{
    if i + 1 < edits.len() {
        assert(edits.take(i + 2).drop_last() == edits.take(i + 1));
        lemma_edits_fail_on(root, edits, i + 1);
    } else {
        assert(edits.take(i + 1) == edits);
    }
}

} // verus!
