//! Trusted declarations for the JSON values that parameter data carries.
//!
//! Parameter values hold arbitrary JSON data. The engine never looks inside
//! such a value: it only stores it, clones it and tests its presence. The
//! declarations here let the opaque type pass through verified code.

use vstd::prelude::*;

verus! {

#[verifier::external_type_specification]
#[verifier::external_body]
pub struct ExValue(serde_json::Value);

/// Relies on serde_json::Value::clone: the derived clone of a JSON value
/// tree is equal to the original value.
pub assume_specification[ <serde_json::Value as Clone>::clone ](v: &serde_json::Value) -> (r:
    serde_json::Value)
    ensures
        r == v,
;

/// Clone an optional JSON value.
pub fn clone_opt_value(o: &Option<serde_json::Value>) -> (r: Option<serde_json::Value>)
    ensures
        r == o,
{
    match o {
        Some(v) => Some(v.clone()),
        None => None,
    }
}

} // verus!
