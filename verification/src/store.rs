//! The entry store: keyed persistence for blacklist entries.
//!
//! An [`EntryStore`] owns a collection of [`Entry`] records and assigns each
//! a fresh surrogate identifier on creation.  Every operation is atomic with
//! respect to the store value it runs on; a caller that shares a store across
//! threads serialises access to it, which makes each call here one
//! linearization point.

use vstd::prelude::*;

use crate::entry::{Entry, EntryModel, Status};
use crate::GateError;

verus! {

/// No two entries carry the same identifier.
pub open spec fn unique_ids(s: Seq<EntryModel>) -> bool {
    forall|i: int, j: int| 0 <= i < j < s.len() ==> s[i].id != s[j].id
}

/// Some entry in `s` carries the identifier `id`.
pub open spec fn has_entry(s: Seq<EntryModel>, id: u64) -> bool {
    exists|i: int| 0 <= i < s.len() && s[i].id == id
}

/// The index of the entry carrying `id`; meaningful when `has_entry` holds
/// and `unique_ids` makes it the only such index.
pub open spec fn entry_index(s: Seq<EntryModel>, id: u64) -> int {
    choose|i: int| 0 <= i < s.len() && s[i].id == id
}

/// The entry carrying `id`; meaningful when `has_entry(s, id)` holds.
pub open spec fn lookup(s: Seq<EntryModel>, id: u64) -> EntryModel {
    s[entry_index(s, id)]
}

/// The sub-sequence of entries whose status is `Blocked`, in store order.
pub open spec fn blocked_only(s: Seq<EntryModel>) -> Seq<EntryModel> {
    s.filter(|e: EntryModel| e.status == Status::Blocked)
}

/// Newest creation time first: the standard audit-display order.
pub open spec fn sorted_newest_first(s: Seq<EntryModel>) -> bool {
    forall|i: int, j: int| 0 <= i <= j < s.len() ==> s[i].created_at >= s[j].created_at
}

/// Appending an entry extends the blocked sub-sequence exactly when the entry
/// is blocked.
pub proof fn lemma_blocked_only_push(s: Seq<EntryModel>, e: EntryModel)
    ensures
        blocked_only(s.push(e)) == (if e.status == Status::Blocked {
            blocked_only(s).push(e)
        } else {
            blocked_only(s)
        }),
{
    broadcast use vstd::prelude::Seq::lemma_filter_push;

}

/// When `s` has unique identifiers and position `i` carries `id`, then `i` is
/// the position `entry_index` picks.
pub proof fn lemma_entry_index_unique(s: Seq<EntryModel>, id: u64, i: int)
    requires
        unique_ids(s),
        0 <= i < s.len(),
        s[i].id == id,
    ensures
        has_entry(s, id),
        entry_index(s, id) == i,
        lookup(s, id) == s[i],
{
    assert(has_entry(s, id));
    let j = entry_index(s, id);
    if i < j {
        assert(s[i].id != s[j].id);
    } else if j < i {
        assert(s[j].id != s[i].id);
    }
}

/// CRUD round trip over the store model.  Adding an entry makes a fetch by
/// its fresh identifier return exactly the added value with status
/// `Blocked`; editing it makes a subsequent fetch return the new value and
/// status with a strictly later `updated_at` while the creation time stays;
/// deleting it leaves the store as it was, so a subsequent fetch, edit or
/// delete of that identifier reports `NotFound` under the operations'
/// contracts.
pub proof fn lemma_crud_round_trip(
    s: Seq<EntryModel>,
    id: u64,
    v1: Seq<char>,
    v2: Seq<char>,
    st2: Status,
    t1: int,
    t2: int,
)
    requires
        unique_ids(s),
        forall|i: int| 0 <= i < s.len() ==> (#[trigger] s[i]).id != id,
        t2 > t1,
    ensures
        ({
            let e1 = EntryModel {
                id,
                value: v1,
                status: Status::Blocked,
                created_at: t1,
                updated_at: t1,
            };
            let e2 = EntryModel { id, value: v2, status: st2, created_at: t1, updated_at: t2 };
            let s1 = s.push(e1);
            let s2 = s1.update(entry_index(s1, id), e2);
            let s3 = s2.remove(entry_index(s2, id));
            &&& has_entry(s1, id) && lookup(s1, id) == e1
            &&& has_entry(s2, id) && lookup(s2, id) == e2
            &&& lookup(s2, id).updated_at > lookup(s1, id).updated_at
            &&& lookup(s2, id).created_at == lookup(s1, id).created_at
            &&& s3 =~= s
            &&& !has_entry(s3, id)
        }),
{
    let e1 = EntryModel { id, value: v1, status: Status::Blocked, created_at: t1, updated_at: t1 };
    let e2 = EntryModel { id, value: v2, status: st2, created_at: t1, updated_at: t2 };
    let s1 = s.push(e1);
    assert(s1[s.len() as int] == e1);
    assert(unique_ids(s1));
    lemma_entry_index_unique(s1, id, s.len() as int);
    let s2 = s1.update(entry_index(s1, id), e2);
    assert(s2 =~= s.push(e2));
    assert(s2[s.len() as int] == e2);
    assert(unique_ids(s2));
    lemma_entry_index_unique(s2, id, s.len() as int);
    let s3 = s2.remove(entry_index(s2, id));
    assert(s3 =~= s);
    if has_entry(s3, id) {
        let i = choose|i: int| 0 <= i < s3.len() && s3[i].id == id;
        assert(s[i].id != id);
    }
}

/// In-memory keyed store of blacklist entries.  Identifiers are handed out
/// in increasing order, so they never repeat and never collide with a live
/// entry.
pub struct EntryStore {
    entries: Vec<Entry>,
    next_id: u64,
}

impl View for EntryStore {
    type V = Seq<EntryModel>;

    closed spec fn view(&self) -> Seq<EntryModel> {
        self.entries@.map_values(|e: Entry| e@)
    }
}

impl EntryStore {
    /// The identifier the next insertion will receive.
    pub closed spec fn fresh_id(self) -> u64 {
        self.next_id
    }

    /// Store invariant: every entry is well formed, identifiers are unique,
    /// and all of them lie below the next fresh one.
    pub open spec fn wf(self) -> bool {
        &&& forall|i: int| 0 <= i < self@.len() ==> (#[trigger] self@[i]).wf()
        &&& forall|i: int|
            0 <= i < self@.len() ==> (#[trigger] self@[i]).id < self.fresh_id()
        &&& unique_ids(self@)
    }

    /// A fresh identifier is available; only an astronomical number of
    /// insertions could exhaust the space.
    pub open spec fn can_insert(self) -> bool {
        self.fresh_id() < u64::MAX
    }

    /// An empty store.
    pub fn new() -> (s: EntryStore)
        ensures
            s@ =~= Seq::<EntryModel>::empty(),
            s.wf(),
            s.can_insert(),
    {
        EntryStore { entries: Vec::new(), next_id: 0 }
    }

    /// Create a new entry for `value` at time `now`: it is appended with a
    /// fresh identifier, status `Blocked`, and both timestamps at `now`.
    pub fn insert(&mut self, value: String, now: i64) -> (id: u64)
        requires
            old(self).wf(),
            old(self).can_insert(),
            value@.len() > 0,
        ensures
            final(self).wf(),
            id == old(self).fresh_id(),
            final(self).fresh_id() == id + 1,
            final(self)@ == old(self)@.push(
                EntryModel {
                    id,
                    value: value@,
                    status: Status::Blocked,
                    created_at: now as int,
                    updated_at: now as int,
                },
            ),
    {
        let id = self.next_id;
        self.next_id = self.next_id + 1;
        let ghost old_view = self@;
        let e = Entry::new(id, value, now);
        self.entries.push(e);
        proof {
            assert(self@ =~= old_view.push(e@));
        }
        id
    }

    /// Look the entry with identifier `id` up; `None` exactly when no entry
    /// carries it.
    pub fn find(&self, id: u64) -> (r: Option<Entry>)
        requires
            self.wf(),
        ensures
            r is Some <==> has_entry(self@, id),
            r matches Some(e) ==> e@ == lookup(self@, id) && e@.id == id,
    {
        let n = self.entries.len();
        let mut i: usize = 0;
        while i < n
            invariant
                self.wf(),
                n == self.entries.len(),
                i <= n,
                forall|j: int| 0 <= j < i ==> self@[j].id != id,
            decreases n - i,
        {
            if self.entries[i].id == id {
                proof {
                    lemma_entry_index_unique(self@, id, i as int);
                }
                return Some(self.entries[i].clone());
            }
            i = i + 1;
        }
        None
    }

    /// Replace value and status of the entry carrying `id` and refresh its
    /// `updated_at`, or report `NotFound` when no entry carries `id`; the
    /// creation time is kept.
    pub fn update(&mut self, id: u64, value: String, status: Status, now: i64) -> (r: Result<
        (),
        GateError,
    >)
        requires
            old(self).wf(),
            value@.len() > 0,
        ensures
            final(self).wf(),
            final(self).fresh_id() == old(self).fresh_id(),
            r is Ok <==> has_entry(old(self)@, id),
            has_entry(old(self)@, id) ==> final(self)@ == old(self)@.update(
                entry_index(old(self)@, id),
                EntryModel {
                    id,
                    value: value@,
                    status,
                    created_at: lookup(old(self)@, id).created_at,
                    updated_at: now as int,
                },
            ),
            !has_entry(old(self)@, id) ==> r == Err::<(), GateError>(GateError::NotFound)
                && final(self)@ == old(self)@,
    {
        let n = self.entries.len();
        let mut i: usize = 0;
        while i < n
            invariant
                *self == *old(self),
                self.wf(),
                value@.len() > 0,
                n == self.entries.len(),
                i <= n,
                forall|j: int| 0 <= j < i ==> self@[j].id != id,
            decreases n - i,
        {
            if self.entries[i].id == id {
                let ghost old_view = self@;
                proof {
                    lemma_entry_index_unique(self@, id, i as int);
                }
                let created = self.entries[i].created_at;
                self.entries[i] = Entry {
                    id,
                    value,
                    status,
                    created_at: created,
                    updated_at: now,
                };
                proof {
                    assert(self@ =~= old_view.update(
                        i as int,
                        EntryModel {
                            id,
                            value: value@,
                            status,
                            created_at: created as int,
                            updated_at: now as int,
                        },
                    ));
                    assert forall|k: int| 0 <= k < self@.len() implies (#[trigger] self@[k]).id
                        == old_view[k].id by {}
                    assert forall|k: int| 0 <= k < self@.len() implies (#[trigger] self@[k]).wf()
                        by {
                        if k == i as int {
                            assert(self@[k].value == value@);
                        } else {
                            assert(self@[k] == old_view[k]);
                            assert(old_view[k].wf());
                        }
                    }
                }
                return Ok(());
            }
            i = i + 1;
        }
        Err(GateError::NotFound)
    }

    /// Remove the entry carrying `id`, or report `NotFound` when no entry
    /// carries it.  The removal is a hard delete: no tombstone remains.
    pub fn delete(&mut self, id: u64) -> (r: Result<(), GateError>)
        requires
            old(self).wf(),
        ensures
            final(self).wf(),
            final(self).fresh_id() == old(self).fresh_id(),
            r is Ok <==> has_entry(old(self)@, id),
            has_entry(old(self)@, id) ==> final(self)@ == old(self)@.remove(
                entry_index(old(self)@, id),
            ),
            !has_entry(old(self)@, id) ==> r == Err::<(), GateError>(GateError::NotFound)
                && final(self)@ == old(self)@,
    {
        let n = self.entries.len();
        let mut i: usize = 0;
        while i < n
            invariant
                *self == *old(self),
                self.wf(),
                n == self.entries.len(),
                i <= n,
                forall|j: int| 0 <= j < i ==> self@[j].id != id,
            decreases n - i,
        {
            if self.entries[i].id == id {
                let ghost old_view = self@;
                proof {
                    lemma_entry_index_unique(self@, id, i as int);
                }
                self.entries.remove(i);
                proof {
                    assert(self@ =~= old_view.remove(i as int));
                }
                return Ok(());
            }
            i = i + 1;
        }
        Err(GateError::NotFound)
    }

    /// The number of entries held.
    pub fn len(&self) -> (n: usize)
        ensures
            n == self@.len(),
    {
        self.entries.len()
    }

    /// The entry at position `i`, in store order.
    pub fn get(&self, i: usize) -> (e: &Entry)
        requires
            i < self@.len(),
        ensures
            e@ == self@[i as int],
    {
        &self.entries[i]
    }

    /// The "show all active blocks" query: every entry whose status is
    /// `Blocked`, ordered newest creation time first for audit display.
    #[verifier::loop_isolation(false)]
    pub fn list_blocked(&self) -> (r: Vec<Entry>)
        requires
            self.wf(),
        ensures
            r@.map_values(|e: Entry| e@).to_multiset() == blocked_only(self@).to_multiset(),
            sorted_newest_first(r@.map_values(|e: Entry| e@)),
            forall|i: int| 0 <= i < r@.len() ==> (#[trigger] r@[i]@).status == Status::Blocked,
    {
        broadcast use vstd::seq_lib::group_to_multiset_ensures;

        let mut out: Vec<Entry> = Vec::new();
        let n = self.entries.len();
        let mut i: usize = 0;
        proof {
            assert(self@.take(0) =~= Seq::<EntryModel>::empty());
            assert(blocked_only(self@.take(0)) =~= Seq::<EntryModel>::empty());
            assert(out@.map_values(|e: Entry| e@) =~= Seq::<EntryModel>::empty());
        }
        while i < n
            invariant
                self.wf(),
                n == self.entries.len(),
                i <= n,
                out@.map_values(|e: Entry| e@).to_multiset() == blocked_only(
                    self@.take(i as int),
                ).to_multiset(),
                sorted_newest_first(out@.map_values(|e: Entry| e@)),
                forall|k: int|
                    0 <= k < out@.len() ==> (#[trigger] out@[k]@).status == Status::Blocked,
            decreases n - i,
        {
            let ghost pre = self@.take(i as int);
            let ghost cur = self@[i as int];
            proof {
                assert(self@.take(i + 1) =~= pre.push(cur));
                lemma_blocked_only_push(pre, cur);
            }
            let e = &self.entries[i];
            if e.status == Status::Blocked {
                let ghost old_out = out@.map_values(|e: Entry| e@);
                let ghost old_len = out@.len();
                let mut j: usize = 0;
                while j < out.len() && out[j].created_at >= e.created_at
                    invariant
                        j <= out.len(),
                        out@.map_values(|e: Entry| e@) == old_out,
                        old_len == out@.len(),
                        cur == self@[i as int],
                        *e == self.entries@[i as int],
                        forall|k: int| 0 <= k < j ==> (#[trigger] old_out[k]).created_at
                            >= cur.created_at,
                    decreases out.len() - j,
                {
                    proof {
                        assert(old_out[j as int] == out@[j as int]@);
                        assert(cur == self.entries@[i as int]@);
                        assert(cur.created_at == (*e).created_at as int);
                        assert(old_out[j as int].created_at >= cur.created_at);
                    }
                    j = j + 1;
                }
                let ghost jj = j as int;
                proof {
                    assert(jj == old_len || old_out[jj].created_at < cur.created_at);
                }
                out.insert(j, e.clone());
                proof {
                    let m = out@.map_values(|e: Entry| e@);
                    assert(m =~= old_out.insert(jj, cur));
                    assert forall|a: int, b: int| 0 <= a <= b < m.len() implies m[a].created_at
                        >= m[b].created_at by {
                        if a < jj && b < jj {
                            assert(m[a] == old_out[a] && m[b] == old_out[b]);
                        } else if a < jj && b == jj {
                            assert(m[a] == old_out[a] && m[b] == cur);
                        } else if a < jj && b > jj {
                            assert(m[a] == old_out[a] && m[b] == old_out[b - 1]);
                        } else if a == jj && b == jj {
                        } else if a == jj && b > jj {
                            assert(m[a] == cur && m[b] == old_out[b - 1]);
                            assert(old_out[jj].created_at >= old_out[b - 1].created_at);
                        } else {
                            assert(m[a] == old_out[a - 1] && m[b] == old_out[b - 1]);
                        }
                    }
                    assert(sorted_newest_first(m));
                }
            }
            i = i + 1;
        }
        proof {
            assert(self@.take(n as int) =~= self@);
        }
        out
    }
}

} // verus!
