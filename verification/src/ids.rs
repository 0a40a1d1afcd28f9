//! Surrogate identifiers at the API boundary.
//!
//! The store assigns numeric identifiers; at the boundary they travel as
//! opaque decimal strings, safe to embed in a URL path segment.  Parsing a
//! malformed string is the `InvalidIdentifier` outcome, kept distinct from
//! `NotFound`: the former says the string can never name an entry, the latter
//! that a well-formed identifier names none right now.

use vstd::prelude::*;
use vstd::string::{StrSliceExecFns, StringExecFns};

use crate::GateError;

verus! {

/// A decimal digit.
pub open spec fn is_digit(c: char) -> bool {
    '0' <= c && c <= '9'
}

/// The numeric value of a digit character.
pub open spec fn digit_val(c: char) -> int {
    c as int - '0' as int
}

/// Every character of `s` is a decimal digit.
pub open spec fn all_digits(s: Seq<char>) -> bool {
    forall|i: int| 0 <= i < s.len() ==> is_digit(#[trigger] s[i])
}

/// The number the digit string `s` denotes, most significant digit first.
pub open spec fn digits_value(s: Seq<char>) -> int
    decreases s.len(),
{
    if s.len() == 0 {
        0
    } else {
        digits_value(s.drop_last()) * 10 + digit_val(s.last())
    }
}

/// A well-formed identifier string: non-empty, all digits, and denoting a
/// number the identifier space can hold.
pub open spec fn valid_id_string(s: Seq<char>) -> bool {
    s.len() > 0 && all_digits(s) && digits_value(s) <= u64::MAX
}

/// The digit character for a value below ten.
pub open spec fn digit_char(d: int) -> char {
    if d == 0 {
        '0'
    } else if d == 1 {
        '1'
    } else if d == 2 {
        '2'
    } else if d == 3 {
        '3'
    } else if d == 4 {
        '4'
    } else if d == 5 {
        '5'
    } else if d == 6 {
        '6'
    } else if d == 7 {
        '7'
    } else if d == 8 {
        '8'
    } else {
        '9'
    }
}

/// The canonical decimal rendering of a non-negative number: no leading
/// zeros except for the number zero itself.
pub open spec fn spec_decimal(n: int) -> Seq<char>
    decreases n,
{
    if n < 10 {
        seq![digit_char(n)]
    } else {
        spec_decimal(n / 10).push(digit_char(n % 10))
    }
}

/// A digit string denotes a non-negative number.
pub proof fn lemma_digits_value_non_negative(s: Seq<char>)
    requires
        all_digits(s),
    ensures
        digits_value(s) >= 0,
    decreases s.len(),
{
    if s.len() > 0 {
        assert(all_digits(s.drop_last())) by {
            assert(forall|i: int| 0 <= i < s.len() - 1 ==> s.drop_last()[i] == s[i]);
        }
        lemma_digits_value_non_negative(s.drop_last());
    }
}

/// Extending a digit string with further digits never shrinks its value.
pub proof fn lemma_digits_value_take_le(s: Seq<char>, j: int)
    requires
        all_digits(s),
        0 <= j <= s.len(),
    ensures
        digits_value(s.take(j)) <= digits_value(s),
    decreases s.len(),
{
    if j == s.len() {
        assert(s.take(j) =~= s);
    } else {
        let t = s.drop_last();
        assert(all_digits(t)) by {
            assert(forall|i: int| 0 <= i < t.len() ==> t[i] == s[i]);
        }
        assert(s.take(j) =~= t.take(j));
        lemma_digits_value_take_le(t, j);
        lemma_digits_value_non_negative(t);
        assert(digit_val(s.last()) >= 0);
    }
}

/// The canonical rendering is a well-formed identifier string that parses
/// back to the number it was made from.
pub proof fn lemma_decimal_round_trip(n: int)
    requires
        0 <= n <= u64::MAX,
    ensures
        valid_id_string(spec_decimal(n)),
        digits_value(spec_decimal(n)) == n,
    decreases n,
{
    if n < 10 {
        let s = spec_decimal(n);
        assert(s.len() == 1);
        assert(s.drop_last() =~= Seq::<char>::empty());
        assert(digit_val(digit_char(n)) == n);
        assert(is_digit(digit_char(n)));
        assert(digits_value(Seq::<char>::empty()) == 0);
        assert(s.last() == digit_char(n));
        assert(digits_value(s) == n);
        assert(all_digits(s));
    } else {
        lemma_decimal_round_trip(n / 10);
        let s = spec_decimal(n);
        let t = spec_decimal(n / 10);
        assert(s.drop_last() =~= t);
        assert(s.last() == digit_char(n % 10));
        assert(digit_val(digit_char(n % 10)) == n % 10);
        assert(digits_value(s) == digits_value(t) * 10 + n % 10);
        assert(digits_value(t) == n / 10);
        assert(n / 10 * 10 + n % 10 == n);
        assert(all_digits(s)) by {
            assert(forall|i: int| 0 <= i < t.len() ==> s[i] == t[i]);
            assert(s[s.len() - 1] == digit_char(n % 10));
            assert(is_digit(digit_char(n % 10)));
        }
        assert(digits_value(s) == n);
    }
}

/// Parse an identifier string: the denoted number when the string is well
/// formed, `InvalidIdentifier` otherwise.
#[verifier::loop_isolation(false)]
pub fn parse_entry_id(s: &str) -> (r: Result<u64, GateError>)
    ensures
        valid_id_string(s@) ==> r == Ok::<u64, GateError>(digits_value(s@) as u64),
        !valid_id_string(s@) ==> r == Err::<u64, GateError>(GateError::InvalidIdentifier),
{
    let n = s.unicode_len();
    if n == 0 {
        return Err(GateError::InvalidIdentifier);
    }
    let mut acc: u64 = 0;
    let mut i: usize = 0;
    while i < n
        invariant
            i <= n,
            all_digits(s@.take(i as int)),
            acc == digits_value(s@.take(i as int)),
        decreases n - i,
    {
        let c = s.get_char(i);
        let code = c as u32;
        if code < 48 || code > 57 {
            proof {
                assert(!is_digit(s@[i as int]));
            }
            return Err(GateError::InvalidIdentifier);
        }
        let d = (code - 48) as u64;
        let overflowed = match acc.checked_mul(10) {
            Some(m) => {
                match m.checked_add(d) {
                    Some(v) => {
                        acc = v;
                        false
                    },
                    None => true,
                }
            },
            None => true,
        };
        proof {
            assert(s@.take(i + 1).drop_last() =~= s@.take(i as int));
            assert(s@.take(i + 1).last() == s@[i as int]);
            assert(digit_val(s@[i as int]) == d);
            assert(digits_value(s@.take(i + 1)) == digits_value(s@.take(i as int)) * 10 + d);
        }
        if overflowed {
            proof {
                if all_digits(s@) {
                    lemma_digits_value_take_le(s@, i + 1);
                    assert(digits_value(s@) > u64::MAX);
                }
            }
            return Err(GateError::InvalidIdentifier);
        }
        i = i + 1;
    }
    proof {
        assert(s@.take(n as int) =~= s@);
    }
    Ok(acc)
}

/// The one-character string for a digit value.
fn digit_str(d: u64) -> (r: &'static str)
    requires
        d < 10,
    ensures
        r@ == seq![digit_char(d as int)],
{
    let r = if d == 0 {
        "0"
    } else if d == 1 {
        "1"
    } else if d == 2 {
        "2"
    } else if d == 3 {
        "3"
    } else if d == 4 {
        "4"
    } else if d == 5 {
        "5"
    } else if d == 6 {
        "6"
    } else if d == 7 {
        "7"
    } else if d == 8 {
        "8"
    } else {
        "9"
    };
    proof {
        reveal_strlit("0");
        reveal_strlit("1");
        reveal_strlit("2");
        reveal_strlit("3");
        reveal_strlit("4");
        reveal_strlit("5");
        reveal_strlit("6");
        reveal_strlit("7");
        reveal_strlit("8");
        reveal_strlit("9");
        assert(r@ =~= seq![digit_char(d as int)]);
    }
    r
}

/// Render an identifier as its canonical decimal string.
pub fn format_entry_id(id: u64) -> (r: String)
    ensures
        r@ == spec_decimal(id as int),
        valid_id_string(r@),
        digits_value(r@) == id,
    decreases id,
{
    proof {
        lemma_decimal_round_trip(id as int);
    }
    if id < 10 {
        let s = digit_str(id).to_owned();
        proof {
            assert(s@ =~= spec_decimal(id as int));
        }
        s
    } else {
        let mut s = format_entry_id(id / 10);
        s.append(digit_str(id % 10));
        proof {
            assert(s@ =~= spec_decimal(id as int));
        }
        s
    }
}

} // verus!
