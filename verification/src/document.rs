//! TOML documents, as far as this crate builds them: tables of values, and
//! their text. The tables and values are those of the `toml` crate; what is
//! stated of them here is taken on trust from that crate.
//!
//! A table is taken as what it holds under each key. This fits the crate as
//! it is built by default, where a table keeps its entries sorted by key, so
//! that the order in which they were inserted leaves no trace.

use vstd::prelude::*;

verus! {

/// `toml::Value`, a TOML value of any kind. It is carried through as it is;
/// nothing here looks inside one.
#[verifier::external_type_specification]
#[verifier::external_body]
pub struct ExValue(toml::Value);

/// `toml::map::Map`, the table of the `toml` crate.
#[verifier::external_type_specification]
#[verifier::external_body]
#[verifier::reject_recursive_types(K)]
#[verifier::reject_recursive_types(V)]
pub struct ExTable<K, V>(toml::map::Map<K, V>);

/// `toml::ser::Error`, why a value could not be written as TOML.
#[verifier::external_type_specification]
#[verifier::external_body]
pub struct ExSerializeError(toml::ser::Error);

/// What a table holds: its keys, each with the value stored under it.
pub uninterp spec fn table_entries(t: toml::map::Map<String, toml::Value>) -> Map<
    Seq<char>,
    toml::Value,
>;

/// The TOML string value that holds the text `s`.
pub uninterp spec fn text_value(s: Seq<char>) -> toml::Value;

/// The TOML table value that holds `entries`.
pub uninterp spec fn table_value(entries: Map<Seq<char>, toml::Value>) -> toml::Value;

/// The pretty-printed TOML document of a table that holds `entries`, or
/// `None` where such a table cannot be written as a document.
pub uninterp spec fn pretty_document(entries: Map<Seq<char>, toml::Value>) -> Option<Seq<char>>;

/// The entries of a table that holds nothing.
pub open spec fn empty_table() -> Map<Seq<char>, toml::Value> {
    Map::empty()
}

/// `toml::map::Map::new` makes a table without entries.
#[verifier::external_body]
pub(crate) fn new_table() -> (t: toml::map::Map<String, toml::Value>)
    ensures
        table_entries(t) == empty_table(),
{
    toml::map::Map::new()
}

/// `toml::map::Map::insert` stores `value` under `key`; a value already
/// stored under that key is replaced, every other entry stays.
#[verifier::external_body]
pub(crate) fn table_insert(
    t: &mut toml::map::Map<String, toml::Value>,
    key: String,
    value: toml::Value,
)
    ensures
        table_entries(*final(t)) == table_entries(*old(t)).insert(key@, value),
{
    t.insert(key, value);
}

/// `toml::Value::String` wraps a text.
#[verifier::external_body]
pub(crate) fn text_of(s: String) -> (v: toml::Value)
    ensures
        v == text_value(s@),
{
    toml::Value::String(s)
}

/// `toml::Value::Table` wraps a table; the value is determined by the
/// table's entries.
#[verifier::external_body]
pub(crate) fn table_of(t: toml::map::Map<String, toml::Value>) -> (v: toml::Value)
    ensures
        v == table_value(table_entries(t)),
{
    toml::Value::Table(t)
}

/// `toml::Value::clone` gives an equal value.
#[verifier::external_body]
pub(crate) fn copy_of(value: &toml::Value) -> (v: toml::Value)
    ensures
        v == *value,
{
    value.clone()
}

/// `toml::to_string_pretty` writes a table as a document, entry by entry
/// in the order of the keys. Whether it succeeds, and the text that it gives,
/// are a function of the table's entries.
#[verifier::external_body]
pub(crate) fn to_pretty(t: &toml::map::Map<String, toml::Value>) -> (r: Result<
    String,
    toml::ser::Error,
>)
    ensures
        match r {
            Ok(s) => pretty_document(table_entries(*t)) == Some(s@),
            Err(_) => pretty_document(table_entries(*t)) is None,
        },
{
    toml::to_string_pretty(t)
}

} // verus!
