//! The engine's three windows on the outside world: the wall clock, a source
//! of randomness, and fresh opaque tokens.  Each is a thin trusted wrapper;
//! nothing is promised of their results beyond what the callee documents,
//! and every verified function that consumes such a result takes it as a
//! plain argument and is proved for every value of it.

use vstd::prelude::*;

verus! {

/// Relies on chrono's `Utc::now`: the current unix time, truncated to 32
/// bits.  A clock reading; nothing can be promised of its value.
#[verifier::external_body]
pub fn unix_now_seconds() -> u32 {
    chrono::Utc::now().timestamp() as u32
}

/// Relies on rand's `random`: a fresh pseudo-random 64-bit value.  Random;
/// nothing can be promised of its value.
#[verifier::external_body]
pub fn random_u64() -> u64 {
    rand::random::<u64>()
}

/// Relies on uuid's `Uuid::new_v4` and its hyphenated rendering: a freshly
/// drawn opaque token.  Random; nothing can be promised of its value.
#[verifier::external_body]
pub fn fresh_token() -> String {
    uuid::Uuid::new_v4().to_string()
}

} // verus!
