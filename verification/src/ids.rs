//! Fresh identifiers for requests, folders, collections and workspaces.

use vstd::prelude::*;

verus! {

/// Relies on `uuid::Uuid::new_v4` and its `Display` impl: a fresh random
/// version-4 identifier, rendered in the hyphenated form, which is always
/// thirty-six characters. The value itself is random: nothing more is
/// promised of it.
#[verifier::external_body]
pub(crate) fn fresh_id() -> (r: String)
    ensures
        r@.len() == 36,
{
    uuid::Uuid::new_v4().to_string()
}

} // verus!
