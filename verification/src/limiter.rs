//! The rate limiter: a per-key fixed-window counter.
//!
//! Each client IP owns one counter: the start of its current window and the
//! number of requests seen since then.  A request is admitted when it opens a
//! window (no counter yet, or the old window has elapsed) or when the counter
//! still lies below the per-window maximum; otherwise it is rejected and the
//! counter is left untouched.
//!
//! The whole read-modify-write for one key is a single call on the store, so
//! a caller that serialises access to the store gets one linearization point
//! per request: two concurrent requests for the same key can never both read
//! the same counter and both be admitted past the maximum.

use vstd::prelude::*;

verus! {

/// One rate-limit counter: requests seen since `window_start` (seconds).
#[derive(Clone, Copy, Debug, PartialEq, Eq, Structural)]
pub struct Counter {
    pub window_start: i64,
    pub count: u64,
}

/// The fixed rate policy: the window length in seconds and the number of
/// requests admitted per window.
#[derive(Clone, Copy, Debug, PartialEq, Eq, Structural)]
pub struct RateLimitPolicy {
    pub window_length: i64,
    pub max_requests: u64,
}

/// A rate-check request as handed in by the HTTP layer.
pub struct RateLimitCheck {
    pub ip_address: String,
}

impl RateLimitPolicy {
    /// A policy needs a positive window and room for at least one request.
    pub open spec fn wf(self) -> bool {
        self.window_length >= 1 && self.max_requests >= 1
    }

    /// The source policy: a one-second window admitting two requests.
    pub fn standard() -> (p: RateLimitPolicy)
        ensures
            p == (RateLimitPolicy { window_length: 1i64, max_requests: 2u64 }),
            p.wf(),
    {
        RateLimitPolicy { window_length: 1, max_requests: 2 }
    }
}

impl Counter {
    /// A live counter sits at a non-negative instant and holds between one
    /// request and the policy maximum.
    pub open spec fn wf(self, p: RateLimitPolicy) -> bool {
        0 <= self.window_start && 1 <= self.count <= p.max_requests
    }
}

/// The atomic decision-and-update for one key: from the counter found in the
/// store (or none) and the current time, the admission verdict and the
/// counter to write back.
///
/// * no counter: create one at `now` with count 1 and admit;
/// * window elapsed: reset to `now` with count 1 and admit;
/// * within the window, below the maximum: increment and admit;
/// * within the window, at the maximum: reject and leave the counter alone.
pub open spec fn spec_rate_step(prev: Option<Counter>, now: i64, p: RateLimitPolicy) -> (bool,
    Counter,
) {
    match prev {
        None => (true, Counter { window_start: now, count: 1u64 }),
        Some(c) => {
            if now - c.window_start >= p.window_length {
                (true, Counter { window_start: now, count: 1u64 })
            } else if c.count < p.max_requests {
                (true, Counter { window_start: c.window_start, count: (c.count + 1) as u64 })
            } else {
                (false, c)
            }
        },
    }
}

/// Executable form of [`spec_rate_step`].
pub fn rate_step(prev: Option<Counter>, now: i64, p: &RateLimitPolicy) -> (r: (bool, Counter))
    requires
        p.wf(),
        now >= 0,
        prev matches Some(c) ==> c.wf(*p),
    ensures
        r == spec_rate_step(prev, now, *p),
        r.1.wf(*p),
{
    match prev {
        None => (true, Counter { window_start: now, count: 1 }),
        Some(c) => {
            if now - c.window_start >= p.window_length {
                (true, Counter { window_start: now, count: 1 })
            } else if c.count < p.max_requests {
                (true, Counter { window_start: c.window_start, count: c.count + 1 })
            } else {
                (false, c)
            }
        },
    }
}

/// An unknown key's first request is always admitted, whatever the time and
/// policy: no counter exists yet, so nothing can be over the limit, and the
/// state of other keys plays no part.
pub proof fn lemma_first_request_admits(now: i64, p: RateLimitPolicy)
    ensures
        spec_rate_step(None, now, p).0,
        spec_rate_step(None, now, p).1 == (Counter { window_start: now, count: 1u64 }),
{
}

/// The fixed-window sequence under a two-request policy: for one key, the
/// first and second request inside a window are admitted, a third inside the
/// same window is rejected without touching the counter, and a request after
/// the window has elapsed resets the counter and is admitted again.
pub proof fn lemma_window_sequence(p: RateLimitPolicy, t1: i64, t2: i64, t3: i64, t4: i64)
    requires
        p.wf(),
        p.max_requests == 2,
        t1 <= t2 <= t3,
        t2 - t1 < p.window_length,
        t3 - t1 < p.window_length,
        t4 - t1 >= p.window_length,
    ensures
        ({
            let s1 = spec_rate_step(None, t1, p);
            let s2 = spec_rate_step(Some(s1.1), t2, p);
            let s3 = spec_rate_step(Some(s2.1), t3, p);
            let s4 = spec_rate_step(Some(s3.1), t4, p);
            &&& s1.0
            &&& s2.0
            &&& !s3.0
            &&& s3.1 == s2.1
            &&& s4.0
            &&& s4.1 == (Counter { window_start: t4, count: 1u64 })
        }),
{
}

/// The admissions of `n` simultaneous requests for one previously idle key,
/// applied in the order the store linearizes them: the running admission
/// count and the counter left behind.  All requests carry the same time `t`.
pub open spec fn spec_burst(n: nat, t: i64, p: RateLimitPolicy) -> (nat, Option<Counter>)
    decreases n,
{
    if n == 0 {
        (0 as nat, None::<Counter>)
    } else {
        let prior = spec_burst((n - 1) as nat, t, p);
        let step = spec_rate_step(prior.1, t, p);
        ((prior.0 + (if step.0 {
            1 as int
        } else {
            0 as int
        })) as nat, Some(step.1))
    }
}

/// Of `n` simultaneous requests for one previously idle key, exactly
/// `max_requests` are admitted (all of them when `n` is smaller) and the
/// rest are rejected, however the store orders them: with `max_requests`
/// of two, `n` requests see two admissions and `n - 2` rejections.
pub proof fn lemma_burst_admits(n: nat, t: i64, p: RateLimitPolicy)
    requires
        p.wf(),
    ensures
        spec_burst(n, t, p).0 == (if n <= p.max_requests {
            n as int
        } else {
            p.max_requests as int
        }),
        n >= 1 ==> spec_burst(n, t, p).1 == Some(
            Counter {
                window_start: t,
                count: (if n <= p.max_requests {
                    n as int
                } else {
                    p.max_requests as int
                }) as u64,
            },
        ),
    decreases n,
{
    if n > 0 {
        lemma_burst_admits((n - 1) as nat, t, p);
    }
}

/// Some pair in `s` carries the key `k`.
pub open spec fn has_key(s: Seq<(String, Counter)>, k: Seq<char>) -> bool {
    exists|i: int| 0 <= i < s.len() && s[i].0@ == k
}

/// The position of the pair carrying `k`; meaningful when `has_key` holds
/// and keys are unique.
pub open spec fn key_index(s: Seq<(String, Counter)>, k: Seq<char>) -> int {
    choose|i: int| 0 <= i < s.len() && s[i].0@ == k
}

/// No two pairs carry the same key.
pub open spec fn unique_keys(s: Seq<(String, Counter)>) -> bool {
    forall|i: int, j: int| 0 <= i < j < s.len() ==> s[i].0@ != s[j].0@
}

/// With unique keys, position `i` carrying `k` is the position `key_index`
/// picks.
proof fn lemma_key_index_unique(s: Seq<(String, Counter)>, k: Seq<char>, i: int)
    requires
        unique_keys(s),
        0 <= i < s.len(),
        s[i].0@ == k,
    ensures
        has_key(s, k),
        key_index(s, k) == i,
{
    assert(has_key(s, k));
    let j = key_index(s, k);
    if i < j {
        assert(s[i].0@ != s[j].0@);
    } else if j < i {
        assert(s[j].0@ != s[i].0@);
    }
}

/// The per-key counter store, one counter per client IP.  Its model is the
/// map from key characters to the key's counter.
pub struct CounterStore {
    counters: Vec<(String, Counter)>,
}

impl View for CounterStore {
    type V = Map<Seq<char>, Counter>;

    closed spec fn view(&self) -> Map<Seq<char>, Counter> {
        Map::new(
            |k: Seq<char>| has_key(self.counters@, k),
            |k: Seq<char>| self.counters@[key_index(self.counters@, k)].1,
        )
    }
}

impl CounterStore {
    /// Store invariant: keys are unique and every counter respects `p`.
    pub closed spec fn wf(self, p: RateLimitPolicy) -> bool {
        &&& unique_keys(self.counters@)
        &&& forall|i: int|
            0 <= i < self.counters@.len() ==> (#[trigger] self.counters@[i]).1.wf(p)
    }

    /// An empty store: no key has been seen yet.
    pub fn new() -> (s: CounterStore)
        ensures
            s@ =~= Map::<Seq<char>, Counter>::empty(),
            forall|p: RateLimitPolicy| s.wf(p),
    {
        let s = CounterStore { counters: Vec::new() };
        proof {
            assert forall|k: Seq<char>| !has_key(s.counters@, k) by {}
        }
        s
    }

    /// The atomic rate check for `key` at time `now`: one read-modify-write
    /// of the key's counter, deciding and recording in the same operation.
    #[verifier::loop_isolation(false)]
    pub fn check(&mut self, key: &String, now: i64, p: &RateLimitPolicy) -> (admitted: bool)
        requires
            old(self).wf(*p),
            p.wf(),
            now >= 0,
        ensures
            final(self).wf(*p),
            ({
                let prev = if old(self)@.dom().contains(key@) {
                    Some(old(self)@[key@])
                } else {
                    None::<Counter>
                };
                &&& admitted == spec_rate_step(prev, now, *p).0
                &&& final(self)@ == old(self)@.insert(key@, spec_rate_step(prev, now, *p).1)
            }),
    {
        let ghost s0 = self.counters@;
        let n = self.counters.len();
        let mut i: usize = 0;
        while i < n
            invariant
                *self == *old(self),
                i <= n,
                forall|j: int| 0 <= j < i ==> s0[j].0@ != key@,
            decreases n - i,
        {
            if self.counters[i].0 == *key {
                proof {
                    lemma_key_index_unique(s0, key@, i as int);
                    assert(self@.dom().contains(key@));
                    assert(self@[key@] == s0[i as int].1);
                }
                let c = self.counters[i].1;
                let r = rate_step(Some(c), now, p);
                self.counters[i].1 = r.1;
                proof {
                    let s1 = self.counters@;
                    assert(s1 == s0.update(i as int, (s0[i as int].0, r.1)));
                    assert forall|j: int| 0 <= j < s1.len() implies (#[trigger] s1[j]).0
                        == s0[j].0 by {}
                    assert(unique_keys(s1));
                    assert forall|k: Seq<char>| true implies #[trigger] has_key(s1, k) == has_key(
                        s0,
                        k,
                    ) by {
                        if has_key(s1, k) {
                            let w = choose|w: int| 0 <= w < s1.len() && s1[w].0@ == k;
                            assert(s0[w].0@ == k);
                        }
                        if has_key(s0, k) {
                            let w = choose|w: int| 0 <= w < s0.len() && s0[w].0@ == k;
                            assert(s1[w].0@ == k);
                        }
                    }
                    assert forall|k: Seq<char>| has_key(s1, k) implies self@[k] == old(
                        self,
                    )@.insert(key@, r.1)[k] by {
                        let w = key_index(s1, k);
                        assert(0 <= w < s1.len() && s1[w].0@ == k);
                        lemma_key_index_unique(s1, k, w);
                        if k == key@ {
                            lemma_key_index_unique(s1, k, i as int);
                        } else {
                            assert(w != i as int);
                            lemma_key_index_unique(s0, k, w);
                        }
                    }
                    assert(self@ =~= old(self)@.insert(key@, r.1));
                }
                return r.0;
            }
            i = i + 1;
        }
        proof {
            assert(!has_key(s0, key@));
            assert(!self@.dom().contains(key@));
        }
        let r = rate_step(None, now, p);
        self.counters.push((key.clone(), r.1));
        proof {
            let s1 = self.counters@;
            assert(s1 == s0.push((*key, r.1)));
            assert(s1[s1.len() - 1].0@ == key@);
            assert forall|j: int| 0 <= j < s0.len() implies (#[trigger] s1[j]) == s0[j] by {}
            assert(unique_keys(s1));
            assert forall|k: Seq<char>| true implies #[trigger] has_key(s1, k) == (has_key(s0, k)
                || k == key@) by {
                if has_key(s1, k) {
                    let w = choose|w: int| 0 <= w < s1.len() && s1[w].0@ == k;
                    if w < s0.len() {
                        assert(s0[w].0@ == k);
                    }
                }
                if has_key(s0, k) {
                    let w = choose|w: int| 0 <= w < s0.len() && s0[w].0@ == k;
                    assert(s1[w].0@ == k);
                }
            }
            assert forall|k: Seq<char>| has_key(s1, k) implies self@[k] == old(self)@.insert(
                key@,
                r.1,
            )[k] by {
                let w = key_index(s1, k);
                assert(0 <= w < s1.len() && s1[w].0@ == k);
                lemma_key_index_unique(s1, k, w);
                if k == key@ {
                    lemma_key_index_unique(s1, k, s1.len() - 1);
                } else {
                    assert(w < s0.len());
                    lemma_key_index_unique(s0, k, w);
                }
            }
            assert(self@ =~= old(self)@.insert(key@, r.1));
        }
        r.0
    }

}

} // verus!
