//! Reading the dependency tables of TOML manifests, as the `toml` crate
//! holds them.

use vstd::prelude::*;

verus! {

/// `toml::map::Map`, the table of the `toml` crate. What one holds is
/// `table_entries` of it.
#[verifier::external_type_specification]
#[verifier::external_body]
#[verifier::reject_recursive_types(K)]
#[verifier::reject_recursive_types(V)]
pub struct ExMap<K, V>(toml::map::Map<K, V>);

/// `toml::Value`, a value of a table. Nothing is read from one but whether
/// it is there.
#[verifier::external_type_specification]
#[verifier::external_body]
pub struct ExValue(toml::Value);

/// What the rules on manifests read of a value in a dependency table.
pub ghost enum Shape {
    /// A text, such as a version requirement.
    Text,
    /// A table, with the keys it holds.
    Table(Set<Seq<char>>),
    /// Anything else.
    Other,
}

/// What a table holds: under each of its keys, the shape of the value.
pub uninterp spec fn table_entries(table: toml::value::Table) -> Map<Seq<char>, Shape>;

/// The value of one entry of a dependency table.
pub enum Entry<'a> {
    /// A text, such as a version requirement.
    Text(&'a str),
    /// A table of further settings.
    Table(&'a toml::value::Table),
    /// Anything else.
    Other,
}

impl<'a> Entry<'a> {
    /// What the rules on manifests read of this value.
    pub open spec fn shape(&self) -> Shape {
        match self {
            Entry::Text(_) => Shape::Text,
            Entry::Table(table) => Shape::Table(table_entries(**table).dom()),
            Entry::Other => Shape::Other,
        }
    }
}

/// The keys of `entries`, in order.
pub open spec fn entry_keys(entries: Seq<(&String, Entry)>) -> Seq<Seq<char>> {
    entries.map_values(|entry: (&String, Entry)| entry.0@)
}

/// `toml::map::Map::iter`, with the entries handed out in the order in which
/// the table yields them. Believed, not proved: each key of the table comes
/// once, with the shape of its value. Nothing is said of the order, which
/// depends on how the `toml` crate was built.
#[verifier::external_body]
pub(crate) fn entries_of<'a>(table: &'a toml::value::Table) -> (entries: Vec<
    (&'a String, Entry<'a>),
>)
    ensures
        entry_keys(entries@).no_duplicates(),
        entry_keys(entries@).to_set() == table_entries(*table).dom(),
        forall|i: int|
            0 <= i < entries@.len() ==> (#[trigger] entries@[i]).1.shape() == table_entries(
                *table,
            )[entries@[i].0@],
{
    table.iter().map(|(key, value)| (key, match value {
        toml::Value::String(text) => Entry::Text(text.as_str()),
        toml::Value::Integer(_) => Entry::Other,
        toml::Value::Float(_) => Entry::Other,
        toml::Value::Boolean(_) => Entry::Other,
        toml::Value::Datetime(_) => Entry::Other,
        toml::Value::Array(_) => Entry::Other,
        toml::Value::Table(inner) => Entry::Table(inner),
    })).collect()
}

/// `toml::map::Map::get`. Believed, not proved: a value comes back where the
/// table holds the key, and only there.
#[verifier::external_body]
pub(crate) fn get<'a>(table: &'a toml::value::Table, key: &str) -> (value: Option<&'a toml::Value>)
    ensures
        value is Some <==> table_entries(*table).contains_key(key@),
{
    table.get(key)
}

} // verus!
