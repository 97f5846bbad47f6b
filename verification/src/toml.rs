//! The parts of a TOML document that the manifest and lockfile readers look
//! at, held as plain values, and the reading of a document with `toml_edit`.
use vstd::prelude::*;

use crate::text::{owned, str_eq};

verus! {

/// A table (`[name]` or `{ .. }`): its entries in document order.
#[derive(Debug)]
pub struct TomlTable {
    pub entries: Vec<TomlEntry>,
}

/// One `key = item` entry of a table.
#[derive(Debug)]
pub struct TomlEntry {
    pub key: String,
    pub item: TomlItem,
}

/// An item of a document. `Table` stands for both standard and inline
/// tables, `Array` for an inline array of values, `ArrayOfTables` for
/// `[[name]]` entries; floats and date-times are `Other`.
#[derive(Debug)]
pub enum TomlItem {
    Str(String),
    Integer(i64),
    Bool(bool),
    Array(Vec<TomlItem>),
    Table(TomlTable),
    ArrayOfTables(Vec<TomlTable>),
    Other,
}

/// The item of the first entry of `entries` whose key is `key`.
pub open spec fn entries_get(entries: Seq<TomlEntry>, key: Seq<char>) -> Option<TomlItem>
    decreases entries.len(),
{
    if entries.len() == 0 {
        None
    } else if entries[0].key@ == key {
        Some(entries[0].item)
    } else {
        entries_get(entries.drop_first(), key)
    }
}

impl TomlTable {
    pub open spec fn spec_get(self, key: Seq<char>) -> Option<TomlItem> {
        entries_get(self.entries@, key)
    }

    /// The item under `key`.
    pub fn get(&self, key: &str) -> (r: Option<&TomlItem>)
        ensures
            match r {
                Some(item) => self.spec_get(key@) == Some(*item),
                None => self.spec_get(key@) is None,
            },
    {
        let mut i: usize = 0;
        assert(self.entries@.skip(0) == self.entries@);
        while i < self.entries.len()
            invariant
                i <= self.entries@.len(),
                self.spec_get(key@) == entries_get(self.entries@.skip(i as int), key@),
            decreases self.entries@.len() - i,
        {
            let ghost rest = self.entries@.skip(i as int);
            assert(rest.drop_first() == self.entries@.skip(i + 1));
            if str_eq(self.entries[i].key.as_str(), key) {
                return Some(&self.entries[i].item);
            }
            i = i + 1;
        }
        None
    }
}

impl TomlItem {
    /// `Item::as_str`.
    pub open spec fn spec_as_str(self) -> Option<Seq<char>> {
        match self {
            TomlItem::Str(s) => Some(s@),
            _ => None,
        }
    }

    /// `Item::as_integer`.
    pub open spec fn spec_as_integer(self) -> Option<i64> {
        match self {
            TomlItem::Integer(n) => Some(n),
            _ => None,
        }
    }

    /// `Item::as_bool`.
    pub open spec fn spec_as_bool(self) -> Option<bool> {
        match self {
            TomlItem::Bool(b) => Some(b),
            _ => None,
        }
    }

    /// `Item::as_table_like`.
    pub open spec fn spec_as_table(self) -> Option<TomlTable> {
        match self {
            TomlItem::Table(t) => Some(t),
            _ => None,
        }
    }

    /// `Item::as_value` followed by `Value::as_array`.
    pub open spec fn spec_as_array(self) -> Option<Seq<TomlItem>> {
        match self {
            TomlItem::Array(items) => Some(items@),
            _ => None,
        }
    }

    /// `Item::as_array_of_tables`.
    pub open spec fn spec_as_array_of_tables(self) -> Option<Seq<TomlTable>> {
        match self {
            TomlItem::ArrayOfTables(tables) => Some(tables@),
            _ => None,
        }
    }

    pub fn as_str(&self) -> (r: Option<&str>)
        ensures
            match r {
                Some(s) => self.spec_as_str() == Some(s@),
                None => self.spec_as_str() is None,
            },
    {
        match self {
            TomlItem::Str(s) => Some(s.as_str()),
            _ => None,
        }
    }

    pub fn as_integer(&self) -> (r: Option<i64>)
        ensures
            r == self.spec_as_integer(),
    {
        match self {
            TomlItem::Integer(n) => Some(*n),
            _ => None,
        }
    }

    pub fn as_bool(&self) -> (r: Option<bool>)
        ensures
            r == self.spec_as_bool(),
    {
        match self {
            TomlItem::Bool(b) => Some(*b),
            _ => None,
        }
    }

    pub fn as_table(&self) -> (r: Option<&TomlTable>)
        ensures
            match r {
                Some(t) => self.spec_as_table() == Some(*t),
                None => self.spec_as_table() is None,
            },
    {
        match self {
            TomlItem::Table(t) => Some(t),
            _ => None,
        }
    }

    pub fn as_array(&self) -> (r: Option<&Vec<TomlItem>>)
        ensures
            match r {
                Some(items) => self.spec_as_array() == Some(items@),
                None => self.spec_as_array() is None,
            },
    {
        match self {
            TomlItem::Array(items) => Some(items),
            _ => None,
        }
    }

    pub fn as_array_of_tables(&self) -> (r: Option<&Vec<TomlTable>>)
        ensures
            match r {
                Some(tables) => self.spec_as_array_of_tables() == Some(tables@),
                None => self.spec_as_array_of_tables() is None,
            },
    {
        match self {
            TomlItem::ArrayOfTables(tables) => Some(tables),
            _ => None,
        }
    }
}

/// `o.and_then(Item::as_table_like)` on an optional item.
pub open spec fn opt_table(o: Option<TomlItem>) -> Option<TomlTable> {
    match o {
        Some(item) => item.spec_as_table(),
        None => None,
    }
}

pub fn opt_as_table(o: Option<&TomlItem>) -> (r: Option<&TomlTable>)
    ensures
        match r {
            Some(t) => opt_table(opt_item(o)) == Some(*t),
            None => opt_table(opt_item(o)) is None,
        },
{
    match o {
        Some(item) => item.as_table(),
        None => None,
    }
}

pub open spec fn opt_item(o: Option<&TomlItem>) -> Option<TomlItem> {
    match o {
        Some(item) => Some(*item),
        None => None,
    }
}

// ---------------------------------------------------------------------------
// The data of a TOML document
// ---------------------------------------------------------------------------

/// The data a TOML document holds, as `toml_edit` parses it: strings,
/// integers and booleans as themselves; an array as the data of its values;
/// a standard table (`[name]`) and an inline table (`{ .. }`) as their
/// non-empty entries in order; an array of tables (`[[name]]`) as the entries
/// of each table; every other value (floats, date-times) and an empty item as
/// `Other`.
pub enum TomlData {
    Str(Seq<char>),
    Integer(i64),
    Bool(bool),
    Array(Seq<TomlData>),
    Table(Seq<(Seq<char>, TomlData)>),
    InlineTable(Seq<(Seq<char>, TomlData)>),
    ArrayOfTables(Seq<Seq<(Seq<char>, TomlData)>>),
    Other,
}

/// `item` is what the reader makes of `data` when it follows at most
/// `depth` levels: what lies deeper is `Other`, a standard table's entries
/// lie two levels below it, every other container's values one level.
pub open spec fn item_reads(item: TomlItem, data: TomlData, depth: int) -> bool
    decreases data,
{
    if depth <= 0 {
        item is Other
    } else {
        match data {
            TomlData::Str(s) => item matches TomlItem::Str(x) && x@ == s,
            TomlData::Integer(n) => item == TomlItem::Integer(n),
            TomlData::Bool(b) => item == TomlItem::Bool(b),
            TomlData::Other => item is Other,
            TomlData::Array(xs) => item matches TomlItem::Array(ys) && ys@.len() == xs.len()
                && forall|k: int| 0 <= k < xs.len() ==> item_reads(#[trigger] ys@[k], xs[k], depth - 1),
            TomlData::InlineTable(es) => item matches TomlItem::Table(t) && t.entries@.len()
                == es.len() && forall|k: int|
                0 <= k < es.len() ==> (#[trigger] t.entries@[k]).key@ == es[k].0 && item_reads(
                    t.entries@[k].item,
                    es[k].1,
                    depth - 1,
                ),
            TomlData::Table(es) => item matches TomlItem::Table(t) && t.entries@.len() == es.len()
                && forall|k: int|
                0 <= k < es.len() ==> (#[trigger] t.entries@[k]).key@ == es[k].0 && item_reads(
                    t.entries@[k].item,
                    es[k].1,
                    depth - 2,
                ),
            TomlData::ArrayOfTables(tss) => item matches TomlItem::ArrayOfTables(ts) && ts@.len()
                == tss.len() && (forall|i: int|
                0 <= i < tss.len() ==> (#[trigger] ts@[i]).entries@.len() == tss[i].len()) && (
            forall|i: int, k: int|
                0 <= i < tss.len() && 0 <= k < tss[i].len() ==> (#[trigger] ts@[i].entries@[k]).key@
                    == tss[i][k].0 && item_reads(ts@[i].entries@[k].item, tss[i][k].1, depth - 2)),
        }
    }
}

/// `t` is what the reader makes of a table with the entries `entries` when
/// it follows at most `depth` levels: the same keys in the same order, each
/// item read one level down.
pub open spec fn table_reads(t: TomlTable, entries: Seq<(Seq<char>, TomlData)>, depth: int) -> bool {
    &&& t.entries@.len() == entries.len()
    &&& forall|k: int|
        0 <= k < entries.len() ==> (#[trigger] t.entries@[k]).key@ == entries[k].0 && item_reads(
            t.entries@[k].item,
            entries[k].1,
            depth - 1,
        )
}

// ---------------------------------------------------------------------------
// Reading a document with `toml_edit`
// ---------------------------------------------------------------------------

#[verifier::external_type_specification]
#[verifier::external_body]
pub struct ExDocumentMut(toml_edit::DocumentMut);

#[verifier::external_type_specification]
#[verifier::external_body]
pub struct ExTomlError(toml_edit::TomlError);

#[verifier::external_type_specification]
#[verifier::external_body]
pub struct ExItem(toml_edit::Item);

#[verifier::external_type_specification]
#[verifier::external_body]
pub struct ExValue(toml_edit::Value);

#[verifier::external_type_specification]
#[verifier::external_body]
pub struct ExTable(toml_edit::Table);

#[verifier::external_type_specification]
#[verifier::external_body]
pub struct ExInlineTable(toml_edit::InlineTable);

#[verifier::external_type_specification]
#[verifier::external_body]
pub struct ExArray(toml_edit::Array);

#[verifier::external_type_specification]
#[verifier::external_body]
pub struct ExArrayOfTables(toml_edit::ArrayOfTables);

/// Whether `toml_edit` accepts `text` as a TOML document. The parser's
/// grammar is TOML 1.1; the library does not restate it.
pub uninterp spec fn toml_accepts(text: Seq<char>) -> bool;

/// The entries of the root table of the document `text` parses to, as
/// `TomlData` describes them. The parse depends on the text alone.
pub uninterp spec fn toml_document(text: Seq<char>) -> Seq<(Seq<char>, TomlData)>;

/// The entries of the root table a parsed document holds.
pub uninterp spec fn document_data(document: toml_edit::DocumentMut) -> Seq<(Seq<char>, TomlData)>;

/// The non-empty entries of a standard table, in order.
pub uninterp spec fn table_data(table: toml_edit::Table) -> Seq<(Seq<char>, TomlData)>;

/// The entries of an inline table, in order.
pub uninterp spec fn inline_table_data(table: toml_edit::InlineTable) -> Seq<(Seq<char>, TomlData)>;

/// The values of an array, in order.
pub uninterp spec fn array_data(array: toml_edit::Array) -> Seq<TomlData>;

/// The tables of an array of tables, in order, each as its entries.
pub uninterp spec fn tables_data(tables: toml_edit::ArrayOfTables) -> Seq<Seq<(Seq<char>, TomlData)>>;

/// The data an item of a table holds.
pub uninterp spec fn item_data(item: toml_edit::Item) -> TomlData;

/// The data a value holds.
pub uninterp spec fn value_data(value: toml_edit::Value) -> TomlData;

/// `<toml_edit::DocumentMut as FromStr>::from_str`: parses a document. It
/// succeeds exactly on the texts the parser accepts, and the document holds
/// the data of the text; both depend on the text alone.
#[verifier::external_body]
fn parse_document(text: &str) -> (r: Result<toml_edit::DocumentMut, toml_edit::TomlError>)
    ensures
        r is Ok <==> toml_accepts(text@),
        r matches Ok(d) ==> document_data(d) == toml_document(text@),
{
    text.parse::<toml_edit::DocumentMut>()
}

/// `<toml_edit::TomlError as Display>::fmt`, through `to_string`: the
/// error's message. Nothing is claimed of its text.
#[verifier::external_body]
fn error_message(error: &toml_edit::TomlError) -> String {
    error.to_string()
}

/// `toml_edit::DocumentMut::as_table`: the root table, which holds the
/// document's entries.
#[verifier::external_body]
pub(crate) fn document_table(document: &toml_edit::DocumentMut) -> (r: &toml_edit::Table)
    ensures
        table_data(*r) == document_data(*document),
{
    document.as_table()
}

/// `toml_edit::Table::iter`: the non-empty entries, in order, with their keys
/// copied; each item holds the data of its entry.
#[verifier::external_body]
fn table_entries(table: &toml_edit::Table) -> (r: Vec<(String, &toml_edit::Item)>)
    ensures
        r@.len() == table_data(*table).len(),
        forall|i: int|
            0 <= i < r@.len() ==> (#[trigger] r@[i]).0@ == table_data(*table)[i].0 && item_data(
                *r@[i].1,
            ) == table_data(*table)[i].1,
{
    table.iter().map(|(key, item)| (key.to_owned(), item)).collect()
}

/// `toml_edit::InlineTable::iter`: the entries, in order, with their keys
/// copied; each value holds the data of its entry.
#[verifier::external_body]
fn inline_table_entries(table: &toml_edit::InlineTable) -> (r: Vec<(String, &toml_edit::Value)>)
    ensures
        r@.len() == inline_table_data(*table).len(),
        forall|i: int|
            0 <= i < r@.len() ==> (#[trigger] r@[i]).0@ == inline_table_data(*table)[i].0
                && value_data(*r@[i].1) == inline_table_data(*table)[i].1,
{
    table.iter().map(|(key, value)| (key.to_owned(), value)).collect()
}

/// `toml_edit::Item::as_value`: the value an item holds, if it holds one; an
/// item that holds none is a table, an array of tables or empty.
#[verifier::external_body]
pub(crate) fn item_value(item: &toml_edit::Item) -> (r: Option<&toml_edit::Value>)
    ensures
        r matches Some(v) ==> item_data(*item) == value_data(*v),
        r is None ==> (item_data(*item) is Table || item_data(*item) is ArrayOfTables
            || item_data(*item) is Other),
{
    item.as_value()
}

/// `toml_edit::Item::as_table`: the standard table an item holds, if it is
/// one.
#[verifier::external_body]
pub(crate) fn item_table(item: &toml_edit::Item) -> (r: Option<&toml_edit::Table>)
    ensures
        r matches Some(t) ==> item_data(*item) == TomlData::Table(table_data(*t)),
        r is None ==> !(item_data(*item) is Table),
{
    item.as_table()
}

/// `toml_edit::Item::as_array_of_tables`: the array of tables an item holds,
/// if it is one.
#[verifier::external_body]
fn item_array_of_tables(item: &toml_edit::Item) -> (r: Option<&toml_edit::ArrayOfTables>)
    ensures
        r matches Some(a) ==> item_data(*item) == TomlData::ArrayOfTables(tables_data(*a)),
        r is None ==> !(item_data(*item) is ArrayOfTables),
{
    item.as_array_of_tables()
}

/// `toml_edit::ArrayOfTables::iter`: the tables, in order.
#[verifier::external_body]
fn array_of_tables_tables(tables: &toml_edit::ArrayOfTables) -> (r: Vec<&toml_edit::Table>)
    ensures
        r@.len() == tables_data(*tables).len(),
        forall|i: int| 0 <= i < r@.len() ==> table_data(*(#[trigger] r@[i])) == tables_data(*tables)[i],
{
    tables.iter().collect()
}

/// `toml_edit::Value::as_str`, copied: the text of a string value.
#[verifier::external_body]
fn value_str(value: &toml_edit::Value) -> (r: Option<String>)
    ensures
        r matches Some(s) ==> value_data(*value) == TomlData::Str(s@),
        r is None ==> !(value_data(*value) is Str),
{
    value.as_str().map(|s| s.to_owned())
}

/// `toml_edit::Value::as_integer`: the number of an integer value.
#[verifier::external_body]
fn value_integer(value: &toml_edit::Value) -> (r: Option<i64>)
    ensures
        r matches Some(n) ==> value_data(*value) == TomlData::Integer(n),
        r is None ==> !(value_data(*value) is Integer),
{
    value.as_integer()
}

/// `toml_edit::Value::as_bool`: the truth value of a boolean.
#[verifier::external_body]
fn value_bool(value: &toml_edit::Value) -> (r: Option<bool>)
    ensures
        r matches Some(b) ==> value_data(*value) == TomlData::Bool(b),
        r is None ==> !(value_data(*value) is Bool),
{
    value.as_bool()
}

/// `toml_edit::Value::as_array`: the array a value is, if it is one.
#[verifier::external_body]
fn value_array(value: &toml_edit::Value) -> (r: Option<&toml_edit::Array>)
    ensures
        r matches Some(a) ==> value_data(*value) == TomlData::Array(array_data(*a)),
        r is None ==> !(value_data(*value) is Array),
{
    value.as_array()
}

/// `toml_edit::Array::iter`: the values, in order.
#[verifier::external_body]
fn array_values(array: &toml_edit::Array) -> (r: Vec<&toml_edit::Value>)
    ensures
        r@.len() == array_data(*array).len(),
        forall|i: int| 0 <= i < r@.len() ==> value_data(*(#[trigger] r@[i])) == array_data(*array)[i],
{
    array.iter().collect()
}

/// `toml_edit::Value::as_inline_table`: the inline table a value is, if it
/// is one. A value is never a standard table or an array of tables.
#[verifier::external_body]
pub(crate) fn value_inline_table(value: &toml_edit::Value) -> (r: Option<&toml_edit::InlineTable>)
    ensures
        r matches Some(t) ==> value_data(*value) == TomlData::InlineTable(inline_table_data(*t)),
        r is None ==> !(value_data(*value) is InlineTable || value_data(*value) is Table
            || value_data(*value) is ArrayOfTables),
{
    value.as_inline_table()
}

// ---------------------------------------------------------------------------
// Changing a parsed document with `toml_edit`
// ---------------------------------------------------------------------------

/// The index of the first entry of `entries` whose key is `key`.
pub open spec fn data_find(entries: Seq<(Seq<char>, TomlData)>, key: Seq<char>) -> Option<int>
    decreases entries.len(),
{
    if entries.len() == 0 {
        None
    } else if entries[0].0 == key {
        Some(0)
    } else {
        match data_find(entries.drop_first(), key) {
            Some(i) => Some(i + 1),
            None => None,
        }
    }
}

/// The data of the first entry whose key is `key`.
pub open spec fn data_get(entries: Seq<(Seq<char>, TomlData)>, key: Seq<char>) -> Option<TomlData> {
    match data_find(entries, key) {
        Some(i) => Some(entries[i].1),
        None => None,
    }
}

/// The entries with the data of the entry `key` replaced, in place.
pub open spec fn data_update(
    entries: Seq<(Seq<char>, TomlData)>,
    key: Seq<char>,
    data: TomlData,
) -> Seq<(Seq<char>, TomlData)> {
    match data_find(entries, key) {
        Some(i) => entries.update(i, (key, data)),
        None => entries,
    }
}

/// The entries without the entry `key`.
pub open spec fn data_remove(entries: Seq<(Seq<char>, TomlData)>, key: Seq<char>) -> Seq<
    (Seq<char>, TomlData),
> {
    match data_find(entries, key) {
        Some(i) => entries.remove(i),
        None => entries,
    }
}

/// The data can stand as an entry of a table: a table, an inline table or
/// an array.
pub open spec fn is_container(d: TomlData) -> bool {
    d is Table || d is InlineTable || d is Array
}

/// The text `toml_edit` writes for a document: the parsed text with the
/// changes made to it, formatting and comments kept.
pub uninterp spec fn document_rendering(document: toml_edit::DocumentMut) -> Seq<char>;

/// `<toml_edit::DocumentMut as Display>::fmt`, through `to_string`: the
/// document's text.
#[verifier::external_body]
pub(crate) fn document_text(document: &toml_edit::DocumentMut) -> (r: String)
    ensures
        r@ == document_rendering(*document),
{
    document.to_string()
}

/// `<toml_edit::DocumentMut as Clone>::clone`: a copy with the same data.
#[verifier::external_body]
pub(crate) fn document_clone(document: &toml_edit::DocumentMut) -> (r: toml_edit::DocumentMut)
    ensures
        document_data(r) == document_data(*document),
{
    document.clone()
}

/// `toml_edit::DocumentMut::as_table_mut`: the root table, to change in
/// place; the document holds what the table holds once the change is made.
#[verifier::external_body]
pub(crate) fn document_root_mut(document: &mut toml_edit::DocumentMut) -> (r: &mut toml_edit::Table)
    ensures
        table_data(*r) == document_data(*old(document)),
        document_data(*final(document)) == table_data(*final(r)),
{
    document.as_table_mut()
}

/// `toml_edit::Table::get`: the item of the entry `key`, if the table has a
/// non-empty one.
#[verifier::external_body]
pub(crate) fn table_get<'a>(table: &'a toml_edit::Table, key: &str) -> (r: Option<&'a toml_edit::Item>)
    ensures
        r matches Some(i) ==> data_get(table_data(*table), key@) == Some(item_data(*i)),
        r is None ==> data_get(table_data(*table), key@) is None,
{
    table.get(key)
}

/// `toml_edit::InlineTable::get`: the value of the entry `key`, if any.
#[verifier::external_body]
pub(crate) fn inline_table_get<'a>(table: &'a toml_edit::InlineTable, key: &str) -> (r: Option<
    &'a toml_edit::Value,
>)
    ensures
        r matches Some(v) ==> data_get(inline_table_data(*table), key@) == Some(value_data(*v)),
        r is None ==> data_get(inline_table_data(*table), key@) is None,
{
    table.get(key)
}

/// `<toml_edit::Table as Clone>::clone`: a copy with the same entries.
#[verifier::external_body]
pub(crate) fn table_clone(table: &toml_edit::Table) -> (r: toml_edit::Table)
    ensures
        table_data(r) == table_data(*table),
{
    table.clone()
}

/// `<toml_edit::InlineTable as Clone>::clone`: a copy with the same entries.
#[verifier::external_body]
pub(crate) fn inline_table_clone(table: &toml_edit::InlineTable) -> (r: toml_edit::InlineTable)
    ensures
        inline_table_data(r) == inline_table_data(*table),
{
    table.clone()
}

/// `toml_edit::Table::remove`: the entry `key` removed; the others keep
/// their order.
#[verifier::external_body]
pub(crate) fn table_remove(table: &mut toml_edit::Table, key: &str)
    ensures
        table_data(*final(table)) == data_remove(table_data(*old(table)), key@),
{
    table.remove(key);
}

/// `toml_edit::InlineTable::remove`: the entry `key` removed; the others
/// keep their order.
#[verifier::external_body]
pub(crate) fn inline_table_remove(table: &mut toml_edit::InlineTable, key: &str)
    ensures
        inline_table_data(*final(table)) == data_remove(inline_table_data(*old(table)), key@),
{
    table.remove(key);
}

/// `toml_edit::Table::get_mut` on a key the table holds, written through:
/// the entry's item replaced where it stands, its key and what is written
/// around the key kept.
#[verifier::external_body]
pub(crate) fn table_replace(table: &mut toml_edit::Table, key: &str, item: toml_edit::Item)
    requires
        data_get(table_data(*old(table)), key@) is Some,
        is_container(item_data(item)),
    ensures
        table_data(*final(table)) == data_update(table_data(*old(table)), key@, item_data(item)),
{
    if let Some(slot) = table.get_mut(key) {
        *slot = item;
    }
}

/// `toml_edit::InlineTable::get_mut` on a key the table holds, written
/// through: the entry's value replaced where it stands, its key kept.
#[verifier::external_body]
pub(crate) fn inline_table_replace(table: &mut toml_edit::InlineTable, key: &str, value: toml_edit::Value)
    requires
        data_get(inline_table_data(*old(table)), key@) is Some,
    ensures
        inline_table_data(*final(table)) == data_update(
            inline_table_data(*old(table)),
            key@,
            value_data(value),
        ),
{
    if let Some(slot) = table.get_mut(key) {
        *slot = value;
    }
}

/// `<toml_edit::Item as From<Table>>::from`: the table as an item.
#[verifier::external_body]
pub(crate) fn table_item(table: toml_edit::Table) -> (r: toml_edit::Item)
    ensures
        item_data(r) == TomlData::Table(table_data(table)),
{
    toml_edit::Item::from(table)
}

/// `<toml_edit::Value as From<InlineTable>>::from`: the inline table as a
/// value.
#[verifier::external_body]
pub(crate) fn inline_table_value(table: toml_edit::InlineTable) -> (r: toml_edit::Value)
    ensures
        value_data(r) == TomlData::InlineTable(inline_table_data(table)),
{
    toml_edit::Value::from(table)
}

/// `toml_edit::Item::Value`: the value as an item.
#[verifier::external_body]
pub(crate) fn value_item(value: toml_edit::Value) -> (r: toml_edit::Item)
    ensures
        item_data(r) == value_data(value),
{
    toml_edit::Item::Value(value)
}

/// The strings as TOML string values.
pub open spec fn string_data(items: Seq<Seq<char>>) -> Seq<TomlData> {
    items.map_values(|s: Seq<char>| TomlData::Str(s))
}

/// `<toml_edit::Array as FromIterator<&String>>::from_iter`: an array of the
/// strings, in order.
#[verifier::external_body]
pub(crate) fn string_array(items: &Vec<String>) -> (r: toml_edit::Array)
    ensures
        array_data(r) == string_data(crate::text::views(items@)),
{
    items.iter().collect()
}

/// `<toml_edit::Value as From<Array>>::from`: the array as a value.
#[verifier::external_body]
pub(crate) fn array_value(array: toml_edit::Array) -> (r: toml_edit::Value)
    ensures
        value_data(r) == TomlData::Array(array_data(array)),
{
    toml_edit::Value::from(array)
}

/// Parses `text` as a document to change; `None` when it is not TOML.
pub(crate) fn parse_document_mut(text: &str) -> (r: Option<toml_edit::DocumentMut>)
    ensures
        r is Some <==> toml_accepts(text@),
        r matches Some(d) ==> document_data(d) == toml_document(text@),
{
    match parse_document(text) {
        Ok(d) => Some(d),
        Err(_) => None,
    }
}

/// How deep the reader follows nested tables and arrays; what stands deeper
/// is read as `TomlItem::Other`.
pub const MAX_DEPTH: usize = 128;

/// The item as a plain value, followed no deeper than `depth` levels.
fn read_item(item: &toml_edit::Item, depth: usize) -> (r: TomlItem)
    ensures
        item_reads(r, item_data(*item), depth as int),
    decreases depth, 1nat,
{
    if depth == 0 {
        return TomlItem::Other;
    }
    if let Some(value) = item_value(item) {
        return read_value(value, depth);
    }
    if let Some(table) = item_table(item) {
        return TomlItem::Table(read_table(table, depth - 1));
    }
    if let Some(tables) = item_array_of_tables(item) {
        let all = array_of_tables_tables(tables);
        let next = depth - 1;
        let ghost tss = tables_data(*tables);
        let mut out: Vec<TomlTable> = Vec::new();
        for i in 0..all.len()
            invariant
                next + 1 == depth,
                all@.len() == tss.len(),
                forall|k: int| 0 <= k < all@.len() ==> table_data(*(#[trigger] all@[k])) == tss[k],
                out@.len() == i,
                forall|k: int| 0 <= k < i ==> table_reads(#[trigger] out@[k], tss[k], next as int),
        {
            let t = read_table(all[i], next);
            let ghost before = out@;
            out.push(t);
            proof {
                assert forall|k: int| 0 <= k < i + 1 implies table_reads(
                    #[trigger] out@[k],
                    tss[k],
                    next as int,
                ) by {
                    if k < i {
                        assert(out@[k] == before[k]);
                    }
                }
            }
        }
        let r = TomlItem::ArrayOfTables(out);
        proof {
            assert forall|i: int, k: int|
                0 <= i < tss.len() && 0 <= k < tss[i].len() implies (#[trigger] out@[i].entries@[
                k]).key@ == tss[i][k].0 && item_reads(
                out@[i].entries@[k].item,
                tss[i][k].1,
                depth - 2,
            ) by {
                assert(table_reads(out@[i], tss[i], next as int));
            }
            assert forall|i: int| 0 <= i < tss.len() implies (#[trigger] out@[i]).entries@.len()
                == tss[i].len() by {
                assert(table_reads(out@[i], tss[i], next as int));
            }
        }
        return r;
    }
    TomlItem::Other
}

/// The value as a plain value, followed no deeper than `depth` levels.
fn read_value(value: &toml_edit::Value, depth: usize) -> (r: TomlItem)
    ensures
        item_reads(r, value_data(*value), depth as int),
    decreases depth, 0nat,
{
    if depth == 0 {
        return TomlItem::Other;
    }
    if let Some(s) = value_str(value) {
        return TomlItem::Str(s);
    }
    if let Some(n) = value_integer(value) {
        return TomlItem::Integer(n);
    }
    if let Some(b) = value_bool(value) {
        return TomlItem::Bool(b);
    }
    if let Some(array) = value_array(value) {
        let all = array_values(array);
        let next = depth - 1;
        let ghost xs = array_data(*array);
        let mut out: Vec<TomlItem> = Vec::new();
        for i in 0..all.len()
            invariant
                next + 1 == depth,
                all@.len() == xs.len(),
                forall|k: int| 0 <= k < all@.len() ==> value_data(*(#[trigger] all@[k])) == xs[k],
                out@.len() == i,
                forall|k: int| 0 <= k < i ==> item_reads(#[trigger] out@[k], xs[k], next as int),
        {
            let v = read_value(all[i], next);
            let ghost before = out@;
            out.push(v);
            proof {
                assert forall|k: int| 0 <= k < i + 1 implies item_reads(
                    #[trigger] out@[k],
                    xs[k],
                    next as int,
                ) by {
                    if k < i {
                        assert(out@[k] == before[k]);
                    }
                }
            }
        }
        return TomlItem::Array(out);
    }
    if let Some(table) = value_inline_table(value) {
        let all = inline_table_entries(table);
        let next = depth - 1;
        let ghost es = inline_table_data(*table);
        let mut entries: Vec<TomlEntry> = Vec::new();
        for i in 0..all.len()
            invariant
                next + 1 == depth,
                all@.len() == es.len(),
                forall|k: int|
                    0 <= k < all@.len() ==> (#[trigger] all@[k]).0@ == es[k].0 && value_data(
                        *all@[k].1,
                    ) == es[k].1,
                entries@.len() == i,
                forall|k: int|
                    0 <= k < i ==> (#[trigger] entries@[k]).key@ == es[k].0 && item_reads(
                        entries@[k].item,
                        es[k].1,
                        next as int,
                    ),
        {
            let key = owned(all[i].0.as_str());
            let v = read_value(all[i].1, next);
            let ghost before = entries@;
            entries.push(TomlEntry { key, item: v });
            proof {
                assert forall|k: int| 0 <= k < i + 1 implies (#[trigger] entries@[k]).key@
                    == es[k].0 && item_reads(entries@[k].item, es[k].1, next as int) by {
                    if k < i {
                        assert(entries@[k] == before[k]);
                    }
                }
            }
        }
        return TomlItem::Table(TomlTable { entries });
    }
    TomlItem::Other
}

/// The table as a plain table: the same keys in the same order, each item
/// followed no deeper than `depth - 1` levels.
fn read_table(table: &toml_edit::Table, depth: usize) -> (r: TomlTable)
    ensures
        table_reads(r, table_data(*table), depth as int),
    decreases depth, 2nat,
{
    let all = table_entries(table);
    let ghost es = table_data(*table);
    let mut entries: Vec<TomlEntry> = Vec::new();
    for i in 0..all.len()
        invariant
            all@.len() == es.len(),
            forall|k: int|
                0 <= k < all@.len() ==> (#[trigger] all@[k]).0@ == es[k].0 && item_data(*all@[k].1)
                    == es[k].1,
            entries@.len() == i,
            forall|k: int|
                0 <= k < i ==> (#[trigger] entries@[k]).key@ == es[k].0 && item_reads(
                    entries@[k].item,
                    es[k].1,
                    depth - 1,
                ),
    {
        let key = owned(all[i].0.as_str());
        let item = if depth == 0 {
            TomlItem::Other
        } else {
            read_item(all[i].1, depth - 1)
        };
        let ghost before = entries@;
        entries.push(TomlEntry { key, item });
        proof {
            assert forall|k: int| 0 <= k < i + 1 implies (#[trigger] entries@[k]).key@ == es[k].0
                && item_reads(entries@[k].item, es[k].1, depth - 1) by {
                if k < i {
                    assert(entries@[k] == before[k]);
                }
            }
        }
    }
    TomlTable { entries }
}

/// Parses `text` as a TOML document and returns its root table, read to
/// `MAX_DEPTH` levels, or the parser's message when the text is not TOML.
pub fn parse_toml(text: &str) -> (r: Result<TomlTable, String>)
    ensures
        r is Ok <==> toml_accepts(text@),
        r matches Ok(t) ==> table_reads(t, toml_document(text@), MAX_DEPTH as int),
{
    match parse_document(text) {
        Ok(document) => Ok(read_table(document_table(&document), MAX_DEPTH)),
        Err(error) => Err(error_message(&error)),
    }
}

} // verus!
