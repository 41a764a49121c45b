//! Fresh identifiers for stored records.

use vstd::prelude::*;

verus! {

/// Relies on uuid::Uuid::new_v4 (a random version-4 UUID) and its Display
/// impl, which writes the 36-character hyphenated form.
#[verifier::external_body]
pub(crate) fn fresh_id() -> (r: String)
    ensures
        r@.len() == 36,
        r@[8] == '-',
        r@[13] == '-',
        r@[18] == '-',
        r@[23] == '-',
{
    uuid::Uuid::new_v4().to_string()
}

} // verus!
