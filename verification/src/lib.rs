//! Abuse-mitigation gate: a verified rate-limit counter and blacklist matcher.
//!
//! The crate decides, per incoming request, whether the caller's IP or the
//! requested URL is blocked and whether the caller exceeds the allowed request
//! rate.  The decision engines and the entry store are verified; an HTTP layer
//! around them only moves plain values in and out.

use vstd::prelude::*;

pub mod blacklist;
pub mod claims;
pub mod entry;
pub mod gate;
pub mod ip_api;
pub mod ids;
pub mod limiter;
pub mod store;
pub mod url_api;

verus! {

/// Outcome taxonomy for the curation operations.
///
/// `NotFound`: the identifier is well formed but no record carries it.
/// `InvalidIdentifier`: the identifier string is malformed.
/// `StoreUnavailable`: the persistence backing a store call is unreachable;
/// the in-memory store never produces it, a remote store maps its faults here.
/// `RateLimitExceeded`: a policy rejection, not a fault.
#[derive(Clone, Copy, Debug, PartialEq, Eq, Structural)]
pub enum GateError {
    NotFound,
    InvalidIdentifier,
    StoreUnavailable,
    RateLimitExceeded,
}

impl GateError {
    /// The HTTP status the boundary reports for this outcome: a malformed
    /// identifier is the client's fault, a missing record is not found, an
    /// unreachable store is a server fault, and a rate rejection is the
    /// dedicated too-many-requests status.
    pub fn http_status(&self) -> (s: u16)
        ensures
            s == (match *self {
                GateError::NotFound => 404u16,
                GateError::InvalidIdentifier => 400u16,
                GateError::StoreUnavailable => 500u16,
                GateError::RateLimitExceeded => 429u16,
            }),
    {
        match self {
            GateError::NotFound => 404,
            GateError::InvalidIdentifier => 400,
            GateError::StoreUnavailable => 500,
            GateError::RateLimitExceeded => 429,
        }
    }
}

} // verus!
