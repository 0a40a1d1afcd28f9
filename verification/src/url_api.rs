//! Curation request records for URL entries, as the HTTP layer hands them in.

use vstd::prelude::*;

use crate::entry::Status;

verus! {

/// Payload for adding a URL entry to the blacklist.
pub struct InputData {
    pub url: String,
}

/// Payload for editing a URL entry: the replacement value and status.
/// The status arrives here already validated into the closed enum.
pub struct UpdateInputData {
    pub url: String,
    pub status: Status,
}

} // verus!
