//! Identifiers for new rows.

use vstd::prelude::*;

verus! {

/// Draws a random identifier: `uuid::Uuid::new_v4()` written out by its
/// `Display`, the hyphenated form, which always has 36 characters. Nothing
/// else is claimed: that two draws differ is likely, not certain. (uuid
/// stops the program if the system has no random bytes to give.)
#[verifier::external_body]
pub(crate) fn fresh_id() -> (id: String)
    ensures
        id@.len() == 36,
{
    uuid::Uuid::new_v4().to_string()
}

} // verus!
