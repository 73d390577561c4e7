use vstd::prelude::*;

verus! {

/// Relies on uuid's `Uuid::new_v4`, a randomly generated version-4 UUID,
/// carried here as its 128-bit value. Nothing is promised of the result:
/// the value is drawn from the process's random source, so callers must
/// (and do) handle every possible id, including one already in use.
#[verifier::external_body]
pub(crate) fn fresh_subscription_id() -> u128 {
    uuid::Uuid::new_v4().as_u128()
}

} // verus!
