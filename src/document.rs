//! The TOML reader that configuration documents go through.

use std::io::Error as IoError;

use toml::de::Error as DeError;
use vstd::prelude::*;

use crate::nesting::{peak_depth, MAX_DEPTH};

verus! {

#[verifier::external_type_specification]
#[verifier::external_body]
#[verifier::reject_recursive_types(K)]
#[verifier::reject_recursive_types(V)]
pub struct ExTomlMap<K, V>(toml::map::Map<K, V>);

#[verifier::external_type_specification]
#[verifier::external_body]
pub struct ExTomlValue(toml::Value);

#[verifier::external_type_specification]
#[verifier::external_body]
pub struct ExTomlError(DeError);

#[verifier::external_type_specification]
#[verifier::external_body]
pub struct ExIoError(IoError);

/// The top-level table that the TOML reader makes of a document, each value
/// seen through `as_integer`; `None` where the document is not valid TOML.
pub uninterp spec fn toml_document(s: Seq<char>) -> Option<Map<Seq<char>, Option<i64>>>;

/// What a TOML table holds: each key with its value seen through `as_integer`.
pub uninterp spec fn table_entries(t: toml::value::Table) -> Map<Seq<char>, Option<i64>>;

/// Relies on `toml::from_str`: reads a document into its top-level table, or
/// fails on a document that is not valid TOML; the empty document is the empty
/// table. The reader descends once for each table header segment, dotted key
/// segment, array and inline table along a path, with no limit of its own; the
/// depth bound keeps that recursion within the stack.
#[verifier::external_body]
pub(crate) fn parse_table(s: &str) -> (r: Result<toml::value::Table, DeError>)
    requires
        peak_depth(s@) <= MAX_DEPTH,
    ensures
        match r {
            Ok(t) => toml_document(s@) == Some(table_entries(t)),
            Err(_) => toml_document(s@) is None,
        },
        s@.len() == 0 ==> (r is Ok && table_entries(r->Ok_0) == Map::<Seq<char>, Option<i64>>::empty()),
{
    toml::from_str(s)
}

/// Relies on `toml::map::Map::get` and `toml::Value::as_integer`: the value at
/// `key`, as an integer where it is one.
#[verifier::external_body]
pub(crate) fn table_integer(t: &toml::value::Table, key: &str) -> (r: Option<Option<i64>>)
    ensures
        r == (if table_entries(*t).contains_key(key@) {
            Some(table_entries(*t)[key@])
        } else {
            None
        }),
{
    t.get(key).map(toml::Value::as_integer)
}

} // verus!
