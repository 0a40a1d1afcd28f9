//! The blacklist matcher: decides whether a candidate IP or URL is governed
//! by a blocked entry.
//!
//! IP matching is an exact, case-sensitive comparison of the whole string.
//! URL matching is a two-tier policy:
//!
//! * The site root `"/"` is matched only by an entry whose value is exactly
//!   `"/"`, and such a root rule matches nothing else: the root rule must not
//!   accidentally block every path, and no prefix rule may swallow the root.
//! * Any other URL is blocked by a non-root entry whose value, compared
//!   case-insensitively, is a literal string prefix of the URL.  The match is
//!   deliberately not path-segment-aware (a rule `/admin` also blocks
//!   `/administrator`); the one boundary drawn is the query string: a rule
//!   never reaches across the `?` that starts a query, so `/login` blocks
//!   `/login/extra` but not `/login?x=1`, unless the rule's own value already
//!   extends into the query.
//!
//! Only entries whose status is `Blocked` take part in either tier.

use vstd::prelude::*;
use vstd::string::StrSliceExecFns;

use crate::entry::{EntryModel, Status};
use crate::store::EntryStore;

verus! {

/// The characters `str::to_lowercase` returns for the given characters.  The
/// result depends on the input characters alone.
pub uninterp spec fn lower_of(s: Seq<char>) -> Seq<char>;

/// Relies on `str::to_lowercase` of std: the returned string is the Unicode
/// lowercase mapping of the input, a function of the input characters alone,
/// and it is empty exactly when the input is empty.
#[verifier::external_body]
fn lowercase(s: &str) -> (r: String)
    ensures
        r@ == lower_of(s@),
        s@.len() == 0 ==> r@.len() == 0,
{
    s.to_lowercase()
}

/// The site root.
pub open spec fn root_url() -> Seq<char> {
    seq!['/']
}

/// The URL matching policy for one entry value against one candidate URL.
pub open spec fn url_rule_matches(value: Seq<char>, url: Seq<char>) -> bool {
    if value == root_url() || url == root_url() {
        value == root_url() && url == root_url()
    } else {
        &&& lower_of(value).is_prefix_of(lower_of(url))
        &&& (lower_of(url).len() == lower_of(value).len() || lower_of(url)[lower_of(
            value,
        ).len() as int] != '?')
    }
}

/// Some entry in `s` is blocked and governs exactly the value `v`.
pub open spec fn some_blocked_value_equals(s: Seq<EntryModel>, v: Seq<char>) -> bool {
    exists|i: int|
        0 <= i < s.len() && (#[trigger] s[i]).status == Status::Blocked && s[i].value == v
}

/// Some entry in `s` is blocked and its value matches the URL `url`.
pub open spec fn some_blocked_rule_matches(s: Seq<EntryModel>, url: Seq<char>) -> bool {
    exists|i: int|
        0 <= i < s.len() && (#[trigger] s[i]).status == Status::Blocked && url_rule_matches(
            s[i].value,
            url,
        )
}

/// Blacklist lifecycle: adding a blocked entry for a value makes that exact
/// value blocked while leaving every other value as it was, and disabling
/// that entry by an edit, without deleting it, makes the value unblocked
/// again — provided no other blocked entry governs the same value.
pub proof fn lemma_blacklist_lifecycle(
    s: Seq<EntryModel>,
    e: EntryModel,
    d: EntryModel,
    other: Seq<char>,
)
    requires
        !some_blocked_value_equals(s, e.value),
        e.status == Status::Blocked,
        d.status == Status::Disabled,
        other != e.value,
    ensures
        some_blocked_value_equals(s.push(e), e.value),
        some_blocked_value_equals(s.push(e), other) == some_blocked_value_equals(s, other),
        !some_blocked_value_equals(s.push(e).update(s.len() as int, d), e.value),
        s.push(e).update(s.len() as int, d).len() == s.len() + 1,
{
    let t = s.push(e);
    assert(t[s.len() as int] == e);
    if some_blocked_value_equals(t, other) {
        let i = choose|i: int|
            0 <= i < t.len() && (#[trigger] t[i]).status == Status::Blocked && t[i].value == other;
        assert(i < s.len() && s[i] == t[i]);
        assert(some_blocked_value_equals(s, other));
    }
    if some_blocked_value_equals(s, other) {
        let i = choose|i: int|
            0 <= i < s.len() && (#[trigger] s[i]).status == Status::Blocked && s[i].value == other;
        assert(t[i] == s[i]);
        assert(some_blocked_value_equals(t, other));
    }
    let u = t.update(s.len() as int, d);
    if some_blocked_value_equals(u, e.value) {
        let i = choose|i: int|
            0 <= i < u.len() && (#[trigger] u[i]).status == Status::Blocked && u[i].value
                == e.value;
        if i < s.len() {
            assert(u[i] == s[i]);
            assert(some_blocked_value_equals(s, e.value));
        } else {
            assert(u[i] == d);
        }
    }
}

/// A non-root rule whose lowercased value is a literal prefix of the
/// lowercased URL matches it, as long as the character after the prefix, if
/// any, does not start a query string.  In particular a rule blocks every
/// case variation of every extension of its value.
pub proof fn lemma_prefix_rule_matches(value: Seq<char>, url: Seq<char>)
    requires
        value != root_url(),
        url != root_url(),
        lower_of(value).is_prefix_of(lower_of(url)),
        lower_of(url).len() == lower_of(value).len() || lower_of(url)[lower_of(
            value,
        ).len() as int] != '?',
    ensures
        url_rule_matches(value, url),
{
}

/// Matching is case-insensitive: two non-root URLs with the same lowercase
/// form are matched by exactly the same rules.
pub proof fn lemma_match_case_insensitive(value: Seq<char>, u1: Seq<char>, u2: Seq<char>)
    requires
        u1 != root_url(),
        u2 != root_url(),
        lower_of(u1) == lower_of(u2),
    ensures
        url_rule_matches(value, u1) == url_rule_matches(value, u2),
{
}

/// Every rule matches its own value.
pub proof fn lemma_rule_matches_itself(value: Seq<char>)
    ensures
        url_rule_matches(value, value),
{
    if value != root_url() {
        let l = lower_of(value);
        assert(l =~= l.subrange(0, l.len() as int));
        assert(l.is_prefix_of(l));
    }
}

/// The root tier: the root rule `"/"` matches the literal root and nothing
/// else, and no non-root rule matches the root.
pub proof fn lemma_root_tier(value: Seq<char>, url: Seq<char>)
    ensures
        url_rule_matches(root_url(), url) == (url == root_url()),
        url_rule_matches(value, root_url()) == (value == root_url()),
{
}

/// The query-string boundary: a rule whose value ends before the `?` of the
/// URL's query string does not match it, whether or not the value is a
/// prefix of the URL.
pub proof fn lemma_query_string_boundary(value: Seq<char>, url: Seq<char>)
    requires
        value != root_url(),
        url != root_url(),
        lower_of(url).len() > lower_of(value).len(),
        lower_of(url)[lower_of(value).len() as int] == '?',
    ensures
        !url_rule_matches(value, url),
{
}

/// Whether `s` is exactly the one-character string `"/"`.
fn is_root(s: &str) -> (r: bool)
    ensures
        r == (s@ == root_url()),
{
    if s.unicode_len() == 1 {
        let c = s.get_char(0);
        proof {
            if c == '/' {
                assert(s@ =~= root_url());
            } else {
                assert(s@ != root_url());
            }
        }
        c == '/'
    } else {
        proof {
            assert(s@ != root_url());
        }
        false
    }
}

/// Whether the characters of `p` are a prefix of the characters of `s`.
#[verifier::loop_isolation(false)]
fn starts_with_chars(p: &str, s: &str) -> (r: bool)
    ensures
        r == p@.is_prefix_of(s@),
{
    let pn = p.unicode_len();
    let sn = s.unicode_len();
    if pn > sn {
        return false;
    }
    let mut i: usize = 0;
    while i < pn
        invariant
            i <= pn,
            forall|k: int| 0 <= k < i ==> p@[k] == s@[k],
        decreases pn - i,
    {
        if p.get_char(i) != s.get_char(i) {
            proof {
                assert(p@[i as int] != s@.subrange(0, pn as int)[i as int]);
            }
            return false;
        }
        i = i + 1;
    }
    proof {
        assert(p@ =~= s@.subrange(0, pn as int));
    }
    true
}

/// Whether the non-root entry value `value` blocks the non-root URL `url`:
/// the lowercased value is a literal prefix of the lowercased URL, and the
/// character following the matched prefix, if any, does not start a query
/// string.
fn prefix_matches(value: &str, url: &str) -> (r: bool)
    requires
        value@ != root_url(),
        url@ != root_url(),
    ensures
        r == url_rule_matches(value@, url@),
{
    let lv = lowercase(value);
    let lu = lowercase(url);
    if !starts_with_chars(lv.as_str(), lu.as_str()) {
        return false;
    }
    let vn = lv.as_str().unicode_len();
    let un = lu.as_str().unicode_len();
    if un == vn {
        true
    } else {
        lu.as_str().get_char(vn) != '?'
    }
}

/// Whether one entry blocks the URL: the entry is `Blocked` and its value
/// matches under the two-tier policy.
pub fn entry_blocks_url(value: &str, url: &str) -> (r: bool)
    ensures
        r == url_rule_matches(value@, url@),
{
    let vroot = is_root(value);
    let uroot = is_root(url);
    if vroot || uroot {
        vroot && uroot
    } else {
        prefix_matches(value, url)
    }
}

/// Exact-match lookup: is some blocked entry's value exactly `ip`?
#[verifier::loop_isolation(false)]
pub fn is_ip_blocked(store: &EntryStore, ip: &String) -> (r: bool)
    requires
        store.wf(),
    ensures
        r == some_blocked_value_equals(store@, ip@),
{
    let n = store.len();
    let mut i: usize = 0;
    while i < n
        invariant
            i <= n,
            forall|j: int|
                0 <= j < i ==> !((#[trigger] store@[j]).status == Status::Blocked
                    && store@[j].value == ip@),
        decreases n - i,
    {
        let e = store.get(i);
        if e.status == Status::Blocked && e.value == *ip {
            return true;
        }
        i = i + 1;
    }
    false
}

/// Two-tier URL lookup: is some blocked entry's value a match for `url`?
#[verifier::loop_isolation(false)]
pub fn is_url_blocked(store: &EntryStore, url: &String) -> (r: bool)
    requires
        store.wf(),
    ensures
        r == some_blocked_rule_matches(store@, url@),
{
    let n = store.len();
    let mut i: usize = 0;
    while i < n
        invariant
            i <= n,
            forall|j: int|
                0 <= j < i ==> !((#[trigger] store@[j]).status == Status::Blocked
                    && url_rule_matches(store@[j].value, url@)),
        decreases n - i,
    {
        let e = store.get(i);
        if e.status == Status::Blocked {
            if entry_blocks_url(e.value.as_str(), url.as_str()) {
                return true;
            }
        }
        i = i + 1;
    }
    false
}

} // verus!
