//! TOML tables as this library sees them, and the calls into the `toml` crate.
//!
//! A TOML value is a `toml::Value` and a table a `toml::Table`; the library
//! looks into strings and tables and carries every other value through
//! unchanged. What a table holds is seen as the list of its entries in
//! ascending key order, which is the order in which `toml::Table` keeps them.
use vstd::prelude::*;

verus! {

#[verifier::external_type_specification]
#[verifier::external_body]
pub struct ExTomlValue(toml::Value);

#[verifier::external_type_specification]
#[verifier::external_body]
#[verifier::reject_recursive_types(K)]
#[verifier::reject_recursive_types(V)]
pub struct ExTomlMap<K, V>(toml::map::Map<K, V>);

#[verifier::external_type_specification]
#[verifier::external_body]
pub struct ExTomlDeError(toml::de::Error);

#[verifier::external_type_specification]
#[verifier::external_body]
pub struct ExTomlSerError(toml::ser::Error);

/// What a TOML value holds, as far as this library looks into it: a string,
/// a table (its entries in ascending key order), or any other value, which
/// stands for itself.
pub enum TomlModel {
    Str(Seq<char>),
    Table(Seq<(Seq<char>, TomlModel)>),
    Leaf(toml::Value),
}

/// What the TOML value `v` holds.
pub uninterp spec fn toml_model(v: toml::Value) -> TomlModel;

/// What the TOML table `t` holds: its entries in ascending key order, each
/// value taken by what it holds.
pub uninterp spec fn table_entries(t: toml::map::Map<String, toml::Value>) -> Seq<
    (Seq<char>, TomlModel),
>;

/// What `toml::from_str` makes of a TOML document, when it parses.
pub uninterp spec fn toml_parse(text: Seq<char>) -> Option<TomlModel>;

/// The TOML document that `toml::to_string` writes for a table, when it can.
pub uninterp spec fn toml_render(m: TomlModel) -> Option<Seq<char>>;

/// One level of a TOML value: a string, a table, or another value.
pub enum TomlNode {
    Str(String),
    Table(toml::map::Map<String, toml::Value>),
    Other(toml::Value),
}

/// The entries of a table, each taken by what its value holds.
pub open spec fn entries_model(es: Seq<(String, toml::Value)>) -> Seq<(Seq<char>, TomlModel)> {
    es.map_values(|e: (String, toml::Value)| (e.0@, toml_model(e.1)))
}

/// Strict lexicographic order of keys, character by character (the order of
/// `String`).
pub open spec fn key_lt(a: Seq<char>, b: Seq<char>) -> bool
    decreases a.len(),
{
    if a.len() == 0 {
        b.len() > 0
    } else if b.len() == 0 {
        false
    } else if a[0] < b[0] {
        true
    } else if a[0] == b[0] {
        key_lt(a.drop_first(), b.drop_first())
    } else {
        false
    }
}

/// Are the keys of the entries strictly ascending?
pub open spec fn keys_sorted<V>(es: Seq<(Seq<char>, V)>) -> bool {
    forall|i: int, j: int| 0 <= i < j < es.len() ==> key_lt(#[trigger] es[i].0, #[trigger] es[j].0)
}

/// `toml::from_str::<toml::Table>`.
#[verifier::external_body]
pub(crate) fn toml_parse_table(text: &str) -> (r: Result<
    toml::map::Map<String, toml::Value>,
    toml::de::Error,
>)
    ensures
        r is Ok <==> toml_parse(text@) is Some,
        r matches Ok(t) ==> toml_parse(text@) == Some(TomlModel::Table(table_entries(t)))
            && keys_sorted(table_entries(t)),
{
    toml::from_str::<toml::Table>(text)
}

/// Takes one level of a `toml::Value` apart: a string, a table, or another
/// value.
#[verifier::external_body]
pub(crate) fn toml_node(v: toml::Value) -> (r: TomlNode)
    ensures
        match r {
            TomlNode::Str(s) => toml_model(v) == TomlModel::Str(s@),
            TomlNode::Table(t) => toml_model(v) == TomlModel::Table(table_entries(t))
                && keys_sorted(table_entries(t)),
            TomlNode::Other(w) => w == v && toml_model(v) == TomlModel::Leaf(v),
        },
{
    match v {
        toml::Value::String(s) => TomlNode::Str(s),
        toml::Value::Table(t) => TomlNode::Table(t),
        other => TomlNode::Other(other),
    }
}

/// `toml::Value::String`.
#[verifier::external_body]
pub(crate) fn toml_string_value(s: String) -> (r: toml::Value)
    ensures
        toml_model(r) == TomlModel::Str(s@),
{
    toml::Value::String(s)
}

/// `toml::Value::Table`.
#[verifier::external_body]
pub(crate) fn toml_table_value(t: toml::map::Map<String, toml::Value>) -> (r: toml::Value)
    ensures
        toml_model(r) == TomlModel::Table(table_entries(t)),
{
    toml::Value::Table(t)
}

/// `toml::Table::new`: a table with no entries.
#[verifier::external_body]
pub(crate) fn table_new() -> (r: toml::map::Map<String, toml::Value>)
    ensures
        table_entries(r) == Seq::<(Seq<char>, TomlModel)>::empty(),
{
    toml::Table::new()
}

/// `toml::Table::insert`: the entry for `k` is `v` afterwards, in place of
/// the one there was, else where `k` belongs in ascending order.
#[verifier::external_body]
pub(crate) fn table_put(t: &mut toml::map::Map<String, toml::Value>, k: String, v: toml::Value)
    ensures
        table_entries(*final(t)) == crate::table::table_insert(
            table_entries(*old(t)),
            k@,
            toml_model(v),
        ),
        keys_sorted(table_entries(*final(t))),
{
    t.insert(k, v);
}

/// `toml::Table::get`, the value cloned: the value under `k`, if any.
#[verifier::external_body]
pub(crate) fn table_get(t: &toml::map::Map<String, toml::Value>, k: &str) -> (r: Option<
    toml::Value,
>)
    ensures
        match crate::table::table_lookup(table_entries(*t), k@) {
            Some(m) => r matches Some(v) && toml_model(v) == m,
            None => r is None,
        },
{
    t.get(k).cloned()
}

/// `Extend` for `toml::Table`: the entries of `from` put in one after the
/// other, in ascending key order.
#[verifier::external_body]
pub(crate) fn table_put_all(
    t: &mut toml::map::Map<String, toml::Value>,
    from: toml::map::Map<String, toml::Value>,
)
    ensures
        table_entries(*final(t)) == crate::merge::table_extend(
            table_entries(*old(t)),
            table_entries(from),
        ),
        keys_sorted(table_entries(*final(t))),
{
    t.extend(from);
}

/// `IntoIterator` for `toml::Table`, collected: the entries in ascending
/// key order.
#[verifier::external_body]
pub(crate) fn table_into_entries(t: toml::map::Map<String, toml::Value>) -> (r: Vec<
    (String, toml::Value),
>)
    ensures
        entries_model(r@) == table_entries(t),
        keys_sorted(entries_model(r@)),
{
    t.into_iter().collect()
}

/// `FromIterator` for `toml::Table`, from entries whose keys are strictly
/// ascending, so that the table holds them as they are.
#[verifier::external_body]
pub(crate) fn table_from_entries(es: Vec<(String, toml::Value)>) -> (r: toml::map::Map<
    String,
    toml::Value,
>)
    requires
        keys_sorted(entries_model(es@)),
    ensures
        table_entries(r) == entries_model(es@),
{
    es.into_iter().collect()
}

/// `toml::to_string` of a table (what `Display` for `toml::Table` prints when
/// it does not fail).
#[verifier::external_body]
pub(crate) fn toml_render_table(t: &toml::map::Map<String, toml::Value>) -> (r: Result<
    String,
    toml::ser::Error,
>)
    ensures
        r is Ok <==> toml_render(TomlModel::Table(table_entries(*t))) is Some,
        r matches Ok(s) ==> toml_render(TomlModel::Table(table_entries(*t))) == Some(s@),
{
    toml::to_string(t)
}

/// The text of a TOML parse error, as its `Display` writes it.
#[verifier::external_body]
pub(crate) fn toml_de_error_text(e: &toml::de::Error) -> String {
    e.to_string()
}

/// The text of a TOML serialization error, as its `Display` writes it.
#[verifier::external_body]
pub(crate) fn toml_ser_error_text(e: &toml::ser::Error) -> String {
    e.to_string()
}

} // verus!
