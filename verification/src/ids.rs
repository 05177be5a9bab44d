//! Fresh identifiers for groups and sessions.

use vstd::prelude::*;

verus! {

/// Relies on uuid::Uuid::new_v4 and its Display impl: a fresh random
/// version-4 identifier, rendered in the hyphenated form of 36 ASCII
/// characters.  Nothing beyond the length is assumed: in particular no
/// uniqueness, since the identifier is random.
#[verifier::external_body]
pub(crate) fn new_uuid() -> (r: String)
    ensures
        r@.len() == 36,
{
    uuid::Uuid::new_v4().to_string()
}

} // verus!
