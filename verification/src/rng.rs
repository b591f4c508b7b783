//! The one place where external randomness enters the otherwise
//! deterministic machine.

use vstd::prelude::*;

verus! {

/// Relies on rand::random: a fresh byte, uniformly distributed, drawn from
/// the process-wide generator. Nothing can be promised of its value, so the
/// contract is empty; callers state what holds of every outcome.
#[verifier::external_body]
pub(crate) fn random_byte() -> u8 {
    rand::random::<u8>()
}

} // verus!
