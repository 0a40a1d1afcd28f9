//! One facade object composing the blacklist matcher, the rate
//! limiter and the two entry stores, exposing the decision API consumed by
//! the request pipeline and the curation API consumed by the admin layer.
//!
//! A decision call always returns a definite outcome; the in-memory stores
//! cannot fail, so this gate never produces `Decision::StoreError` itself.
//! A deployment that keeps the stores behind remote persistence maps a store
//! fault to that outcome rather than admitting by default: it fails
//! closed.

use vstd::prelude::*;

use crate::blacklist;
use crate::entry::{Entry, EntryModel, Status};
use crate::ids;
use crate::ip_api;
use crate::limiter::{Counter, CounterStore, RateLimitCheck, RateLimitPolicy, spec_rate_step};
use crate::store;
use crate::store::EntryStore;
use crate::url_api;
use crate::GateError;

verus! {

/// The terminal outcome of a gate decision, naming the sub-check that
/// rejected, so the caller can pick the matching response code.
#[derive(Clone, Copy, Debug, PartialEq, Eq, Structural)]
pub enum Decision {
    Admit,
    RejectIpBlocked,
    RejectUrlBlocked,
    RejectRateLimited,
    StoreError,
}

/// The abuse-mitigation gate: IP rules, URL rules, rate counters, and the
/// fixed rate policy.
pub struct Gate {
    ip_rules: EntryStore,
    url_rules: EntryStore,
    counters: CounterStore,
    policy: RateLimitPolicy,
}

impl Gate {
    /// The IP-entry collection, in store order.
    pub closed spec fn ip_view(self) -> Seq<EntryModel> {
        self.ip_rules@
    }

    /// The URL-entry collection, in store order.
    pub closed spec fn url_view(self) -> Seq<EntryModel> {
        self.url_rules@
    }

    /// The per-key rate counters.
    pub closed spec fn counters_view(self) -> Map<Seq<char>, Counter> {
        self.counters@
    }

    /// The fixed rate policy.
    pub closed spec fn policy(self) -> RateLimitPolicy {
        self.policy
    }

    /// The identifier the next IP entry will receive.
    pub closed spec fn ip_fresh_id(self) -> u64 {
        self.ip_rules.fresh_id()
    }

    /// The identifier the next URL entry will receive.
    pub closed spec fn url_fresh_id(self) -> u64 {
        self.url_rules.fresh_id()
    }

    /// Gate invariant: both stores, the counter store and the policy are
    /// well formed.
    pub closed spec fn wf(self) -> bool {
        &&& self.ip_rules.wf()
        &&& self.url_rules.wf()
        &&& self.counters.wf(self.policy)
        &&& self.policy.wf()
    }

    /// Identifier space left for another IP entry.
    pub open spec fn can_add_ip_rule(self) -> bool {
        self.ip_fresh_id() < u64::MAX
    }

    /// Identifier space left for another URL entry.
    pub open spec fn can_add_url_rule(self) -> bool {
        self.url_fresh_id() < u64::MAX
    }

    /// The collections other than the counters are left as they were.
    pub open spec fn same_rules(self, other: Gate) -> bool {
        &&& self.ip_view() == other.ip_view()
        &&& self.url_view() == other.url_view()
        &&& self.ip_fresh_id() == other.ip_fresh_id()
        &&& self.url_fresh_id() == other.url_fresh_id()
        &&& self.policy() == other.policy()
    }

    /// A fresh gate with the given policy: no rules, no counters.
    pub fn new(policy: RateLimitPolicy) -> (g: Gate)
        requires
            policy.wf(),
        ensures
            g.wf(),
            g.ip_view() =~= Seq::<EntryModel>::empty(),
            g.url_view() =~= Seq::<EntryModel>::empty(),
            g.counters_view() =~= Map::<Seq<char>, Counter>::empty(),
            g.policy() == policy,
            g.can_add_ip_rule(),
            g.can_add_url_rule(),
    {
        Gate {
            ip_rules: EntryStore::new(),
            url_rules: EntryStore::new(),
            counters: CounterStore::new(),
            policy,
        }
    }

    /// Exact-match lookup: is some blocked IP entry's value exactly `ip`?
    pub fn is_ip_blocked(&self, ip: &String) -> (r: bool)
        requires
            self.wf(),
        ensures
            r == blacklist::some_blocked_value_equals(self.ip_view(), ip@),
    {
        blacklist::is_ip_blocked(&self.ip_rules, ip)
    }

    /// Two-tier lookup: does some blocked URL entry match `url`?
    pub fn is_url_blocked(&self, url: &String) -> (r: bool)
        requires
            self.wf(),
        ensures
            r == blacklist::some_blocked_rule_matches(self.url_view(), url@),
    {
        blacklist::is_url_blocked(&self.url_rules, url)
    }

    /// The atomic rate check for one request record at time `now`.
    pub fn check_rate(&mut self, check: &RateLimitCheck, now: i64) -> (admitted: bool)
        requires
            old(self).wf(),
            now >= 0,
        ensures
            final(self).wf(),
            final(self).same_rules(*old(self)),
            ({
                let key = check.ip_address@;
                let prev = if old(self).counters_view().dom().contains(key) {
                    Some(old(self).counters_view()[key])
                } else {
                    None::<Counter>
                };
                let step = spec_rate_step(prev, now, old(self).policy());
                &&& admitted == step.0
                &&& final(self).counters_view() == old(self).counters_view().insert(key, step.1)
            }),
    {
        self.counters.check(&check.ip_address, now, &self.policy)
    }

    /// The combined decision for one inbound request: IP block first, then
    /// URL block, then the rate limit.  Only a request that reaches the rate
    /// check touches the counters; a blocked request is not counted.
    pub fn decide(&mut self, ip: &String, url: &String, now: i64) -> (d: Decision)
        requires
            old(self).wf(),
            now >= 0,
        ensures
            final(self).wf(),
            final(self).same_rules(*old(self)),
            ({
                if blacklist::some_blocked_value_equals(old(self).ip_view(), ip@) {
                    d == Decision::RejectIpBlocked && final(self).counters_view() == old(
                        self,
                    ).counters_view()
                } else if blacklist::some_blocked_rule_matches(old(self).url_view(), url@) {
                    d == Decision::RejectUrlBlocked && final(self).counters_view() == old(
                        self,
                    ).counters_view()
                } else {
                    let prev = if old(self).counters_view().dom().contains(ip@) {
                        Some(old(self).counters_view()[ip@])
                    } else {
                        None::<Counter>
                    };
                    let step = spec_rate_step(prev, now, old(self).policy());
                    &&& d == (if step.0 {
                        Decision::Admit
                    } else {
                        Decision::RejectRateLimited
                    })
                    &&& final(self).counters_view() == old(self).counters_view().insert(
                        ip@,
                        step.1,
                    )
                }
            }),
    {
        if blacklist::is_ip_blocked(&self.ip_rules, ip) {
            Decision::RejectIpBlocked
        } else if blacklist::is_url_blocked(&self.url_rules, url) {
            Decision::RejectUrlBlocked
        } else if self.counters.check(ip, now, &self.policy) {
            Decision::Admit
        } else {
            Decision::RejectRateLimited
        }
    }

    /// Add an IP entry: status `Blocked`, both timestamps at `now`; the new
    /// entry's identifier is returned as its decimal string.
    pub fn add_ip_rule(&mut self, data: ip_api::InputData, now: i64) -> (id: String)
        requires
            old(self).wf(),
            old(self).can_add_ip_rule(),
            data.ip_address@.len() > 0,
        ensures
            final(self).wf(),
            final(self).ip_view() == old(self).ip_view().push(
                EntryModel {
                    id: old(self).ip_fresh_id(),
                    value: data.ip_address@,
                    status: Status::Blocked,
                    created_at: now as int,
                    updated_at: now as int,
                },
            ),
            id@ == ids::spec_decimal(old(self).ip_fresh_id() as int),
            ids::valid_id_string(id@),
            ids::digits_value(id@) == old(self).ip_fresh_id(),
            final(self).ip_fresh_id() == old(self).ip_fresh_id() + 1,
            final(self).url_view() == old(self).url_view(),
            final(self).url_fresh_id() == old(self).url_fresh_id(),
            final(self).counters_view() == old(self).counters_view(),
            final(self).policy() == old(self).policy(),
    {
        let num = self.ip_rules.insert(data.ip_address, now);
        ids::format_entry_id(num)
    }

    /// Fetch the IP entry named by the identifier string `id`.
    pub fn get_ip_rule(&self, id: &str) -> (r: Result<Entry, GateError>)
        requires
            self.wf(),
        ensures
            !ids::valid_id_string(id@) ==> r == Err::<Entry, GateError>(
                GateError::InvalidIdentifier,
            ),
            ids::valid_id_string(id@) ==> ({
                let n = ids::digits_value(id@) as u64;
                if store::has_entry(self.ip_view(), n) {
                    r matches Ok(e) && e@ == store::lookup(self.ip_view(), n)
                } else {
                    r == Err::<Entry, GateError>(GateError::NotFound)
                }
            }),
    {
        match ids::parse_entry_id(id) {
            Err(_) => Err(GateError::InvalidIdentifier),
            Ok(n) => match self.ip_rules.find(n) {
                Some(e) => Ok(e),
                None => Err(GateError::NotFound),
            },
        }
    }

    /// Edit the IP entry named by `id`: replace value and status, refresh
    /// `updated_at`, keep the creation time.
    pub fn edit_ip_rule(&mut self, id: &str, data: ip_api::UpdateInputData, now: i64) -> (r:
        Result<(), GateError>)
        requires
            old(self).wf(),
            data.ip_address@.len() > 0,
        ensures
            final(self).wf(),
            final(self).ip_fresh_id() == old(self).ip_fresh_id(),
            final(self).url_view() == old(self).url_view(),
            final(self).url_fresh_id() == old(self).url_fresh_id(),
            final(self).counters_view() == old(self).counters_view(),
            final(self).policy() == old(self).policy(),
            !ids::valid_id_string(id@) ==> r == Err::<(), GateError>(GateError::InvalidIdentifier)
                && final(self).ip_view() == old(self).ip_view(),
            ids::valid_id_string(id@) ==> ({
                let n = ids::digits_value(id@) as u64;
                if store::has_entry(old(self).ip_view(), n) {
                    r is Ok && final(self).ip_view() == old(self).ip_view().update(
                        store::entry_index(old(self).ip_view(), n),
                        EntryModel {
                            id: n,
                            value: data.ip_address@,
                            status: data.status,
                            created_at: store::lookup(old(self).ip_view(), n).created_at,
                            updated_at: now as int,
                        },
                    )
                } else {
                    r == Err::<(), GateError>(GateError::NotFound) && final(self).ip_view() == old(
                        self,
                    ).ip_view()
                }
            }),
    {
        match ids::parse_entry_id(id) {
            Err(_) => Err(GateError::InvalidIdentifier),
            Ok(n) => self.ip_rules.update(n, data.ip_address, data.status, now),
        }
    }

    /// Delete the IP entry named by `id`.
    pub fn delete_ip_rule(&mut self, id: &str) -> (r: Result<(), GateError>)
        requires
            old(self).wf(),
        ensures
            final(self).wf(),
            final(self).ip_fresh_id() == old(self).ip_fresh_id(),
            final(self).url_view() == old(self).url_view(),
            final(self).url_fresh_id() == old(self).url_fresh_id(),
            final(self).counters_view() == old(self).counters_view(),
            final(self).policy() == old(self).policy(),
            !ids::valid_id_string(id@) ==> r == Err::<(), GateError>(GateError::InvalidIdentifier)
                && final(self).ip_view() == old(self).ip_view(),
            ids::valid_id_string(id@) ==> ({
                let n = ids::digits_value(id@) as u64;
                if store::has_entry(old(self).ip_view(), n) {
                    r is Ok && final(self).ip_view() == old(self).ip_view().remove(
                        store::entry_index(old(self).ip_view(), n),
                    )
                } else {
                    r == Err::<(), GateError>(GateError::NotFound) && final(self).ip_view() == old(
                        self,
                    ).ip_view()
                }
            }),
    {
        match ids::parse_entry_id(id) {
            Err(_) => Err(GateError::InvalidIdentifier),
            Ok(n) => self.ip_rules.delete(n),
        }
    }

    /// All blocked IP entries, newest creation time first.
    pub fn list_ip_rules(&self) -> (r: Vec<Entry>)
        requires
            self.wf(),
        ensures
            r@.map_values(|e: Entry| e@).to_multiset() == store::blocked_only(
                self.ip_view(),
            ).to_multiset(),
            store::sorted_newest_first(r@.map_values(|e: Entry| e@)),
    {
        self.ip_rules.list_blocked()
    }

    /// Add a URL entry: status `Blocked`, both timestamps at `now`; the new
    /// entry's identifier is returned as its decimal string.
    pub fn add_url_rule(&mut self, data: url_api::InputData, now: i64) -> (id: String)
        requires
            old(self).wf(),
            old(self).can_add_url_rule(),
            data.url@.len() > 0,
        ensures
            final(self).wf(),
            final(self).url_view() == old(self).url_view().push(
                EntryModel {
                    id: old(self).url_fresh_id(),
                    value: data.url@,
                    status: Status::Blocked,
                    created_at: now as int,
                    updated_at: now as int,
                },
            ),
            id@ == ids::spec_decimal(old(self).url_fresh_id() as int),
            ids::valid_id_string(id@),
            ids::digits_value(id@) == old(self).url_fresh_id(),
            final(self).url_fresh_id() == old(self).url_fresh_id() + 1,
            final(self).ip_view() == old(self).ip_view(),
            final(self).ip_fresh_id() == old(self).ip_fresh_id(),
            final(self).counters_view() == old(self).counters_view(),
            final(self).policy() == old(self).policy(),
    {
        let num = self.url_rules.insert(data.url, now);
        ids::format_entry_id(num)
    }

    /// Fetch the URL entry named by the identifier string `id`.
    pub fn get_url_rule(&self, id: &str) -> (r: Result<Entry, GateError>)
        requires
            self.wf(),
        ensures
            !ids::valid_id_string(id@) ==> r == Err::<Entry, GateError>(
                GateError::InvalidIdentifier,
            ),
            ids::valid_id_string(id@) ==> ({
                let n = ids::digits_value(id@) as u64;
                if store::has_entry(self.url_view(), n) {
                    r matches Ok(e) && e@ == store::lookup(self.url_view(), n)
                } else {
                    r == Err::<Entry, GateError>(GateError::NotFound)
                }
            }),
    {
        match ids::parse_entry_id(id) {
            Err(_) => Err(GateError::InvalidIdentifier),
            Ok(n) => match self.url_rules.find(n) {
                Some(e) => Ok(e),
                None => Err(GateError::NotFound),
            },
        }
    }

    /// Edit the URL entry named by `id`: replace value and status, refresh
    /// `updated_at`, keep the creation time.
    pub fn edit_url_rule(&mut self, id: &str, data: url_api::UpdateInputData, now: i64) -> (r:
        Result<(), GateError>)
        requires
            old(self).wf(),
            data.url@.len() > 0,
        ensures
            final(self).wf(),
            final(self).url_fresh_id() == old(self).url_fresh_id(),
            final(self).ip_view() == old(self).ip_view(),
            final(self).ip_fresh_id() == old(self).ip_fresh_id(),
            final(self).counters_view() == old(self).counters_view(),
            final(self).policy() == old(self).policy(),
            !ids::valid_id_string(id@) ==> r == Err::<(), GateError>(GateError::InvalidIdentifier)
                && final(self).url_view() == old(self).url_view(),
            ids::valid_id_string(id@) ==> ({
                let n = ids::digits_value(id@) as u64;
                if store::has_entry(old(self).url_view(), n) {
                    r is Ok && final(self).url_view() == old(self).url_view().update(
                        store::entry_index(old(self).url_view(), n),
                        EntryModel {
                            id: n,
                            value: data.url@,
                            status: data.status,
                            created_at: store::lookup(old(self).url_view(), n).created_at,
                            updated_at: now as int,
                        },
                    )
                } else {
                    r == Err::<(), GateError>(GateError::NotFound) && final(self).url_view()
                        == old(self).url_view()
                }
            }),
    {
        match ids::parse_entry_id(id) {
            Err(_) => Err(GateError::InvalidIdentifier),
            Ok(n) => self.url_rules.update(n, data.url, data.status, now),
        }
    }

    /// Delete the URL entry named by `id`.
    pub fn delete_url_rule(&mut self, id: &str) -> (r: Result<(), GateError>)
        requires
            old(self).wf(),
        ensures
            final(self).wf(),
            final(self).url_fresh_id() == old(self).url_fresh_id(),
            final(self).ip_view() == old(self).ip_view(),
            final(self).ip_fresh_id() == old(self).ip_fresh_id(),
            final(self).counters_view() == old(self).counters_view(),
            final(self).policy() == old(self).policy(),
            !ids::valid_id_string(id@) ==> r == Err::<(), GateError>(GateError::InvalidIdentifier)
                && final(self).url_view() == old(self).url_view(),
            ids::valid_id_string(id@) ==> ({
                let n = ids::digits_value(id@) as u64;
                if store::has_entry(old(self).url_view(), n) {
                    r is Ok && final(self).url_view() == old(self).url_view().remove(
                        store::entry_index(old(self).url_view(), n),
                    )
                } else {
                    r == Err::<(), GateError>(GateError::NotFound) && final(self).url_view()
                        == old(self).url_view()
                }
            }),
    {
        match ids::parse_entry_id(id) {
            Err(_) => Err(GateError::InvalidIdentifier),
            Ok(n) => self.url_rules.delete(n),
        }
    }

    /// All blocked URL entries, newest creation time first.
    pub fn list_url_rules(&self) -> (r: Vec<Entry>)
        requires
            self.wf(),
        ensures
            r@.map_values(|e: Entry| e@).to_multiset() == store::blocked_only(
                self.url_view(),
            ).to_multiset(),
            store::sorted_newest_first(r@.map_values(|e: Entry| e@)),
    {
        self.url_rules.list_blocked()
    }
}

} // verus!
