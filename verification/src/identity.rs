//! Fresh identifiers for the records of the stores.

use vstd::prelude::*;

verus! {

/// Calls `uuid::Uuid::new_v4` and writes the identifier out with its
/// `to_string`.
///
/// The identifier is random: no claim is made about it. `uuid` panics
/// where the system has no random bytes to give.
#[verifier::external_body]
pub(crate) fn fresh_id() -> (id: String) {
    uuid::Uuid::new_v4().to_string()
}

} // verus!
