//! Blacklist entries: a governed IP or URL value with a lifecycle status.

use vstd::prelude::*;

verus! {

/// Lifecycle status of a blacklist entry.  Only `Blocked` entries take part
/// in matching; `Disabled` entries stay in the store but are inert.
#[derive(Clone, Copy, Debug, PartialEq, Eq, Structural)]
pub enum Status {
    Blocked,
    Disabled,
}

/// One blacklist record: a surrogate identifier assigned by the store, the
/// governed IP or URL string, its status, and its two timestamps (seconds).
#[derive(Debug)]
pub struct Entry {
    pub id: u64,
    pub value: String,
    pub status: Status,
    pub created_at: i64,
    pub updated_at: i64,
}

/// The mathematical model of an [`Entry`]: the same record with the value as
/// a character sequence and the timestamps as unbounded integers.
pub struct EntryModel {
    pub id: u64,
    pub value: Seq<char>,
    pub status: Status,
    pub created_at: int,
    pub updated_at: int,
}

impl EntryModel {
    /// A well-formed entry governs a non-empty value.
    pub open spec fn wf(self) -> bool {
        self.value.len() > 0
    }
}

impl View for Entry {
    type V = EntryModel;

    open spec fn view(&self) -> EntryModel {
        EntryModel {
            id: self.id,
            value: self.value@,
            status: self.status,
            created_at: self.created_at as int,
            updated_at: self.updated_at as int,
        }
    }
}

impl Entry {
    /// A fresh entry starts out `Blocked` with both timestamps at the time of
    /// creation.
    pub fn new(id: u64, value: String, now: i64) -> (e: Entry)
        requires
            value@.len() > 0,
        ensures
            e@ == (EntryModel {
                id,
                value: value@,
                status: Status::Blocked,
                created_at: now as int,
                updated_at: now as int,
            }),
            e@.wf(),
    {
        Entry { id, value, status: Status::Blocked, created_at: now, updated_at: now }
    }
}

impl Clone for Entry {
    fn clone(&self) -> (r: Self)
        ensures
            r@ == self@,
    {
        Entry {
            id: self.id,
            value: self.value.clone(),
            status: self.status,
            created_at: self.created_at,
            updated_at: self.updated_at,
        }
    }
}

} // verus!
