//! The parts of `toml_edit` that the library relies on. Documents, items and
//! tables stay opaque; what each call returns is given a name below, and the
//! library's contracts speak of those names.
use vstd::prelude::*;
use toml_edit::{ArrayOfTables, DocumentMut, Item, Table, TomlError};

verus! {

#[verifier::external_type_specification]
#[verifier::external_body]
pub struct ExDocumentMut(DocumentMut);

#[verifier::external_type_specification]
#[verifier::external_body]
pub struct ExItem(Item);

#[verifier::external_type_specification]
#[verifier::external_body]
pub struct ExTable(Table);

#[verifier::external_type_specification]
#[verifier::external_body]
pub struct ExArrayOfTables(ArrayOfTables);

#[verifier::external_type_specification]
#[verifier::external_body]
pub struct ExTomlError(TomlError);

/// The document that parsing a text gives, or `None` where it is not TOML.
pub uninterp spec fn parsed_document(text: Seq<char>) -> Option<DocumentMut>;

/// The root item of a document.
pub uninterp spec fn root_item(doc: DocumentMut) -> Item;

/// The field under a key of a standard or inline table item.
pub uninterp spec fn item_get(item: Item, key: Seq<char>) -> Option<Item>;

/// The item as a standard table.
pub uninterp spec fn item_table(item: Item) -> Option<Table>;

/// The item as an array of tables.
pub uninterp spec fn item_array_of_tables(item: Item) -> Option<ArrayOfTables>;

/// The elements of an array of tables, each as a table where it is one.
pub uninterp spec fn array_tables(a: ArrayOfTables) -> Seq<Option<Table>>;

/// The item under a key of a table.
pub uninterp spec fn table_get(t: Table, key: Seq<char>) -> Option<Item>;

/// The keys of a table's entries, in the table's order.
pub uninterp spec fn table_key_list(t: Table) -> Seq<Seq<char>>;

/// The item as a string value.
pub uninterp spec fn item_str(item: Item) -> Option<Seq<char>>;

/// Whether the item is a standard or an inline table.
pub uninterp spec fn item_is_table_like(item: Item) -> bool;

/// The text of a document.
pub uninterp spec fn document_string(doc: DocumentMut) -> Seq<char>;

/// A string value that carries the decor of `like`, where that is a value.
pub uninterp spec fn string_item(value: Seq<char>, like: Option<Item>) -> Item;

/// The document with the entry `key` of the table at `table`.`sub` replaced
/// by `item`; `None` where no such entry is.
pub uninterp spec fn with_entry_set(doc: DocumentMut, table: Seq<char>, sub: Seq<char>, key: Seq<char>, item: Item) -> Option<DocumentMut>;

/// The document with the field `field` of the table-like entry `key` of the
/// table at `table`.`sub` set to `item`; `None` where no such entry is.
pub uninterp spec fn with_entry_field_set(doc: DocumentMut, table: Seq<char>, sub: Seq<char>, key: Seq<char>, field: Seq<char>, item: Item) -> Option<DocumentMut>;

/// An optional reference read as an optional value.
pub open spec fn deref_opt<T>(o: Option<&T>) -> Option<T> {
    match o {
        Some(x) => Some(*x),
        None => None,
    }
}

/// Relies on `DocumentMut::as_item`: the root item, which never panics.
pub assume_specification<'a>[ DocumentMut::as_item ](doc: &'a DocumentMut) -> (r: &'a Item)
    ensures
        *r == root_item(*doc),
;

/// Relies on `Table::get`: the item under a key, if the table holds one.
pub assume_specification<'a>[ Table::get ](t: &'a Table, key: &str) -> (r: Option<&'a Item>)
    ensures
        deref_opt(r) == table_get(*t, key@),
;

/// Relies on `Item::as_table`: the item as a standard table, if it is one.
pub assume_specification[ Item::as_table ](item: &Item) -> (r: Option<&Table>)
    ensures
        deref_opt(r) == item_table(*item),
;

/// Relies on `Item::as_array_of_tables`: the item as an array of tables.
pub assume_specification[ Item::as_array_of_tables ](item: &Item) -> (r: Option<&ArrayOfTables>)
    ensures
        deref_opt(r) == item_array_of_tables(*item),
;

/// Relies on `ArrayOfTables::len`: the number of elements of the array.
pub assume_specification[ ArrayOfTables::len ](a: &ArrayOfTables) -> (r: usize)
    ensures
        r == array_tables(*a).len(),
;

/// Relies on `ArrayOfTables::get`: the element at an index, where it is a
/// table.
pub assume_specification[ ArrayOfTables::get ](a: &ArrayOfTables, index: usize) -> (r: Option<&Table>)
    ensures
        deref_opt(r) == (if index < array_tables(*a).len() { array_tables(*a)[index as int] } else { None }),
;

/// Relies on `Item::as_str`: the item as a string value, if it is one.
pub assume_specification[ Item::as_str ](item: &Item) -> (r: Option<&str>)
    ensures
        match item_str(*item) {
            Some(s) => r is Some && r->0@ == s,
            None => r is None,
        },
;

/// Relies on `Item::is_table_like`: whether the item is a standard or an
/// inline table.
pub assume_specification[ Item::is_table_like ](item: &Item) -> (r: bool)
    ensures
        r == item_is_table_like(*item),
;

/// Relies on `DocumentMut`'s `FromStr`: parses TOML text into a document
/// that keeps its formatting; its root is a table.
#[verifier::external_body]
pub(crate) fn parse_document(text: &str) -> (r: Result<DocumentMut, TomlError>)
    ensures
        match parsed_document(text@) {
            Some(d) => r is Ok && r->Ok_0 == d && item_table(root_item(d)) is Some,
            None => r is Err,
        },
{
    text.parse::<DocumentMut>()
}

/// Relies on `DocumentMut`'s `Display`, which reads the root as a table: the
/// document's text, with the formatting of all that was not changed.
#[verifier::external_body]
pub(crate) fn document_text(doc: &DocumentMut) -> (r: String)
    requires
        item_table(root_item(*doc)) is Some,
    ensures
        r@ == document_string(*doc),
{
    doc.to_string()
}

/// Relies on `TomlError`'s `Display`: the parser's description of the error.
#[verifier::external_body]
pub(crate) fn error_text(e: &TomlError) -> (r: String) {
    e.to_string()
}

/// Relies on `Item::get` with a key: the field of a standard or inline table.
#[verifier::external_body]
pub(crate) fn item_field<'a>(item: &'a Item, key: &str) -> (r: Option<&'a Item>)
    ensures
        deref_opt(r) == item_get(*item, key@),
{
    item.get(key)
}

/// Relies on `Table::iter`: the keys of the table's entries, in order.
#[verifier::external_body]
pub(crate) fn table_keys(t: &Table) -> (r: Vec<String>)
    ensures
        r@.len() == table_key_list(*t).len(),
        forall|i: int| 0 <= i < r@.len() ==> (#[trigger] r@[i])@ == table_key_list(*t)[i],
{
    t.iter().map(|(k, _)| k.to_owned()).collect()
}

/// Relies on `Value::from(&str)`, `Value::decor` and `Value::decor_mut`: a
/// string value whose surrounding whitespace and comments are those of
/// `like`, where that is a value.
#[verifier::external_body]
pub(crate) fn string_item_like(value: &str, like: Option<&Item>) -> (r: Item)
    ensures
        r == string_item(value@, deref_opt(like)),
        item_str(r) == Some(value@),
{
    let decor = like.and_then(|i| i.as_value()).map(|v| v.decor().clone()).unwrap_or_default();
    let mut v = toml_edit::Value::from(value);
    *v.decor_mut() = decor;
    Item::Value(v)
}

/// Relies on `DocumentMut::as_item_mut`, `Item::as_table_like_mut` and
/// `TableLike::get_mut`, none of which inserts a key: replaces the entry
/// `key` of the table at `table`.`sub`.
#[verifier::external_body]
pub(crate) fn set_entry(doc: &mut DocumentMut, table: &str, sub: &str, key: &str, item: Item) -> (r: bool)
    ensures
        match with_entry_set(*old(doc), table@, sub@, key@, item) {
            Some(d) => r && *final(doc) == d,
            None => !r && *final(doc) == *old(doc),
        },
        (item_table(root_item(*final(doc))) is Some) == (item_table(root_item(*old(doc))) is Some),
{
    let entry = doc.as_item_mut().as_table_like_mut().and_then(|t| t.get_mut(table))
        .and_then(|t| t.as_table_like_mut()).and_then(|t| t.get_mut(sub))
        .and_then(|t| t.as_table_like_mut()).and_then(|t| t.get_mut(key));
    match entry {
        Some(e) => {
            *e = item;
            true
        },
        None => false,
    }
}

/// Relies on the navigation of `set_entry`, `Item::as_table_like_mut`,
/// `TableLike::get_mut` and `TableLike::insert`: overwrites the field
/// `field` of the table-like entry `key` in place, key formatting kept, or
/// adds it where it is absent.
#[verifier::external_body]
pub(crate) fn set_entry_field(doc: &mut DocumentMut, table: &str, sub: &str, key: &str, field: &str, item: Item) -> (r: bool)
    requires
        item_str(item) is Some,
    ensures
        match with_entry_field_set(*old(doc), table@, sub@, key@, field@, item) {
            Some(d) => r && *final(doc) == d,
            None => !r && *final(doc) == *old(doc),
        },
        (item_table(root_item(*final(doc))) is Some) == (item_table(root_item(*old(doc))) is Some),
{
    let entry = doc.as_item_mut().as_table_like_mut().and_then(|t| t.get_mut(table))
        .and_then(|t| t.as_table_like_mut()).and_then(|t| t.get_mut(sub))
        .and_then(|t| t.as_table_like_mut()).and_then(|t| t.get_mut(key))
        .and_then(|t| t.as_table_like_mut());
    match entry {
        Some(t) => {
            match t.get_mut(field) {
                Some(v) => *v = item,
                None => drop(t.insert(field, item)),
            }
            true
        },
        None => false,
    }
}

} // verus!
