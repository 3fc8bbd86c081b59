use vstd::prelude::*;

verus! {

/// A fresh opaque account identifier.
///
/// Relies on `uuid::Uuid::new_v4` (a random 128-bit version-4 UUID) and on
/// the uuid crate's `Display` form: 36 characters in the hyphenated layout.
/// Nothing is assumed about which value comes back, so callers must check for
/// themselves that the identifier is not already taken.
#[verifier::external_body]
pub(crate) fn fresh_identifier() -> (r: String)
    ensures
        r@.len() == 36,
{
    uuid::Uuid::new_v4().to_string()
}

} // verus!
