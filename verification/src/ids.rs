//! Identifier generation.

use vstd::prelude::*;

verus! {

/// Calls `uuid::Uuid::new_v4` and renders the result in its hyphenated
/// form. The identifier is drawn at random: nothing is claimed of it.
/// `new_v4` gives up where the operating system hands out no random bytes.
#[verifier::external_body]
pub(crate) fn fresh_id() -> (id: String) {
    uuid::Uuid::new_v4().to_string()
}

} // verus!
