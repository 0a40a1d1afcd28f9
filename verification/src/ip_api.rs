//! Curation request records for IP entries, as the HTTP layer hands them in.

use vstd::prelude::*;

use crate::entry::Status;

verus! {

/// Payload for adding an IP entry to the blacklist.
pub struct InputData {
    pub ip_address: String,
}

/// Payload for editing an IP entry: the replacement value and status.
/// The status arrives here already validated into the closed enum.
pub struct UpdateInputData {
    pub ip_address: String,
    pub status: Status,
}

} // verus!
