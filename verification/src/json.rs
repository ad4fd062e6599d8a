//! JSON values, as the `serde_json` crate holds them. The library carries
//! them along and never looks inside.

use vstd::prelude::*;

verus! {

/// `serde_json::Value`, any JSON value.
#[verifier::external_type_specification]
#[verifier::external_body]
pub struct ExJsonValue(serde_json::Value);

} // verus!
