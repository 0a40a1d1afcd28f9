//! Token claims assembled for the external auth collaborator.
//!
//! This crate does not authenticate anyone; it states what a bearer
//! token must carry: the subject and an expiry one day after issue.  Signing
//! and verification stay with the collaborator.

use vstd::prelude::*;

verus! {

/// Seconds a bearer token stays valid: one day.
pub const TOKEN_LIFETIME_SECS: usize = 86400;

/// The claims carried by a bearer token.
pub struct Claims {
    pub sub: String,
    pub exp: usize,
}

impl Claims {
    /// Claims for `sub`, issued at `now` (seconds), expiring one day later.
    pub fn new(sub: String, now: i64) -> (c: Claims)
        requires
            0 <= now,
            now + TOKEN_LIFETIME_SECS <= usize::MAX,
        ensures
            c.sub@ == sub@,
            c.exp == now + TOKEN_LIFETIME_SECS,
    {
        Claims { sub, exp: (now as usize) + TOKEN_LIFETIME_SECS }
    }
}

} // verus!
