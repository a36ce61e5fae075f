//! Identifiers for new records.
use vstd::prelude::*;

verus! {

/// Relies on `uuid::Uuid::new_v4`, rendered by its `Display` impl: a random
/// identifier. Nothing is promised of its value, and two calls may give
/// equal ones, so the store checks it before use.
#[verifier::external_body]
pub(crate) fn new_id() -> (r: String) {
    uuid::Uuid::new_v4().to_string()
}

} // verus!
