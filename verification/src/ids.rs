//! Opaque identifiers: session tokens and order ids are freshly drawn
//! random values.

use vstd::prelude::*;

verus! {

/// Relies on uuid::Uuid::new_v4, rendered in hyphenated form: a fresh
/// random opaque identifier. Nothing is assumed of its value beyond
/// being non-empty.
#[verifier::external_body]
pub(crate) fn fresh_token() -> (r: String)
    ensures
        r@.len() > 0,
{
    uuid::Uuid::new_v4().to_string()
}

} // verus!
