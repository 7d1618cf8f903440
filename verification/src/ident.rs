//! Fresh identities for new rows.

use vstd::prelude::*;

verus! {

/// Draws a random identity through `uuid::Uuid::new_v4` and hands its 128
/// bits over. The outcome is random: nothing is claimed of it, and two
/// calls may give any two values.
#[verifier::external_body]
pub(crate) fn new_row_id() -> (id: u128) {
    uuid::Uuid::new_v4().as_u128()
}

} // verus!
