//! Trusted declarations for the structured-text crate that parses the
//! wire documents: its value type is opaque here, and small wrappers
//! expose the few operations the parsers walk it with.  The documents
//! this crate writes are rendered by verified code instead.

use vstd::prelude::*;

verus! {

#[verifier::external_type_specification]
#[verifier::external_body]
pub struct ExTomlValue(toml::Value);

#[verifier::external_type_specification]
#[verifier::external_body]
#[verifier::reject_recursive_types(K)]
#[verifier::reject_recursive_types(V)]
pub struct ExTomlMap<K, V>(toml::map::Map<K, V>);

/// Relies on toml::from_str: parses a document into a value tree, or
/// reports the parse error's text.
#[verifier::external_body]
pub fn toml_parse(s: &str) -> (r: Result<toml::Value, String>) {
    toml::from_str::<toml::Value>(s).map_err(|e| format!("{}", e))
}

/// Relies on toml::Value::get: the entry of a table value under a key.
#[verifier::external_body]
pub fn value_get<'a>(v: &'a toml::Value, key: &str) -> (r: Option<&'a toml::Value>) {
    v.get(key)
}

/// Relies on toml::Value::as_str: the payload of a string value.
#[verifier::external_body]
pub fn value_as_str(v: &toml::Value) -> (r: Option<String>) {
    v.as_str().map(|s| s.to_owned())
}

/// Relies on toml::Value::as_bool: the payload of a boolean value.
#[verifier::external_body]
pub fn value_as_bool(v: &toml::Value) -> (r: Option<bool>) {
    v.as_bool()
}

/// Relies on toml::Value::as_array: the elements of an array value.
#[verifier::external_body]
pub fn value_as_array<'a>(v: &'a toml::Value) -> (r: Option<&'a Vec<toml::Value>>) {
    v.as_array()
}

/// Relies on toml::Value::as_table: the table behind a table value.
#[verifier::external_body]
pub fn value_as_table<'a>(v: &'a toml::Value) -> (r: Option<&'a toml::map::Map<String, toml::Value>>) {
    v.as_table()
}

/// Relies on toml::map::Map::keys: the keys of a table, in its order.
#[verifier::external_body]
pub fn table_keys(t: &toml::map::Map<String, toml::Value>) -> (r: Vec<String>) {
    t.keys().cloned().collect()
}

/// Relies on toml::map::Map::get: the entry of a table under a key.
#[verifier::external_body]
pub fn table_get<'a>(t: &'a toml::map::Map<String, toml::Value>, key: &str) -> (r: Option<&'a toml::Value>) {
    t.get(key)
}

} // verus!
