//! Ingest support: typed reading of comma-separated values and column
//! resolution. A field reads as an integer when it is a well-formed decimal
//! in range, as a boolean for the conventional yes/no words, and as a string
//! otherwise; a column is named either by position or by header.

use vstd::prelude::*;

use vstd::string::StringExecFns;
use vstd::string::StrSliceExecFns;

use crate::errors::CoreError;
use crate::props::PropValue;
use crate::text::ascii_lower;

verus! {

broadcast use vstd::seq::group_seq_axioms;

/// A decimal digit.
pub open spec fn is_digit(c: char) -> bool {
    '0' <= c && c <= '9'
}

/// A digit's value.
pub open spec fn digit_val(c: char) -> int {
    c as int - '0' as int
}

/// Every character is a digit.
pub open spec fn all_digits(s: Seq<char>) -> bool {
    forall|i: int| 0 <= i < s.len() ==> is_digit(#[trigger] s[i])
}

/// The value of a digit string, most significant digit first.
pub open spec fn dec_value(s: Seq<char>) -> int
    decreases s.len(),
{
    if s.len() == 0 {
        0
    } else {
        dec_value(s.drop_last()) * 10 + digit_val(s.last())
    }
}

/// What a string denotes as an unsigned integer: the value of its digits,
/// absent when it is empty, holds a non-digit, or exceeds the range.
pub open spec fn parse_u64_spec(s: Seq<char>) -> Option<u64> {
    if s.len() > 0 && all_digits(s) && dec_value(s) <= u64::MAX {
        Some(dec_value(s) as u64)
    } else {
        None
    }
}

/// A digit string's value is never negative.
proof fn lemma_dec_nonneg(s: Seq<char>)
    requires
        all_digits(s),
    ensures
        dec_value(s) >= 0,
    decreases s.len(),
{
    if s.len() > 0 {
        let dl = s.drop_last();
        assert(forall|i: int| 0 <= i < dl.len() ==> dl[i] == #[trigger] s[i]);
        lemma_dec_nonneg(dl);
        assert(dec_value(dl) * 10 >= 0) by (nonlinear_arith)
            requires
                dec_value(dl) >= 0,
        ;
        assert(digit_val(s.last()) >= 0);
    }
}

/// Parses an unsigned decimal integer; `None` when the string is empty, holds
/// a non-digit, or exceeds the range.
pub fn parse_u64(s: &str) -> (r: Option<u64>)
    ensures
        r == parse_u64_spec(s@),
{
    let len = s.unicode_len();
    if len == 0 {
        return None;
    }
    let cap: u128 = u64::MAX as u128 + 1;
    let mut acc: u128 = 0;
    let mut i: usize = 0;
    while i < len
        invariant
            0 <= i <= s@.len(),
            len == s@.len(),
            cap == u64::MAX as u128 + 1,
            forall|j: int| 0 <= j < i ==> is_digit(#[trigger] s@[j]),
            if dec_value(s@.take(i as int)) <= u64::MAX {
                acc == dec_value(s@.take(i as int))
            } else {
                acc == cap
            },
            acc <= cap,
        decreases len - i,
    {
        let c = s.get_char(i);
        if c < '0' || c > '9' {
            proof {
                assert(!all_digits(s@));
            }
            return None;
        }
        let d = (c as u32 - '0' as u32) as u128;
        let t = acc * 10 + d;
        proof {
            let prefix = s@.take(i as int);
            let extended = s@.take(i as int + 1);
            assert(extended.drop_last() =~= prefix);
            assert(extended.last() == s@[i as int]);
            assert(forall|j: int| 0 <= j < prefix.len() ==> prefix[j] == #[trigger] s@[j]);
            assert(all_digits(prefix));
            lemma_dec_nonneg(prefix);
            if dec_value(prefix) > u64::MAX {
                assert(dec_value(prefix) * 10 + digit_val(s@[i as int]) > u64::MAX)
                    by (nonlinear_arith)
                    requires
                        dec_value(prefix) > u64::MAX,
                        digit_val(s@[i as int]) >= 0,
                ;
            }
        }
        if t > u64::MAX as u128 {
            acc = cap;
        } else {
            acc = t;
        }
        i += 1;
    }
    proof {
        assert(s@.take(len as int) =~= s@);
        assert(all_digits(s@));
    }
    if acc > u64::MAX as u128 {
        return None;
    }
    Some(acc as u64)
}

/// What a string denotes as a signed integer: an optional sign followed by
/// digits, absent when malformed or out of range.
pub open spec fn parse_i64_spec(s: Seq<char>) -> Option<i64> {
    if s.len() >= 1 && (s[0] == '-' || s[0] == '+') {
        match parse_u64_spec(s.drop_first()) {
            Some(v) => if s[0] == '-' {
                if v <= i64::MAX as u64 + 1 {
                    Some((-(v as int)) as i64)
                } else {
                    None
                }
            } else {
                if v <= i64::MAX as u64 {
                    Some(v as i64)
                } else {
                    None
                }
            },
            None => None,
        }
    } else {
        match parse_u64_spec(s) {
            Some(v) => if v <= i64::MAX as u64 {
                Some(v as i64)
            } else {
                None
            },
            None => None,
        }
    }
}

/// Parses a signed decimal integer; `None` when the string is malformed or
/// out of range.
pub fn parse_i64(s: &str) -> (r: Option<i64>)
    ensures
        r == parse_i64_spec(s@),
{
    let len = s.unicode_len();
    if len >= 1 {
        let first = s.get_char(0);
        if first == '-' || first == '+' {
            let rest = s.substring_char(1, len);
            proof {
                assert(rest@ =~= s@.drop_first());
            }
            let magnitude = parse_u64(rest);
            return match magnitude {
                Some(v) => {
                    if first == '-' {
                        if v <= i64::MAX as u64 + 1 {
                            Some((-(v as i128)) as i64)
                        } else {
                            None
                        }
                    } else {
                        if v <= i64::MAX as u64 {
                            Some(v as i64)
                        } else {
                            None
                        }
                    }
                },
                None => None,
            };
        }
    }
    match parse_u64(s) {
        Some(v) => if v <= i64::MAX as u64 {
            Some(v as i64)
        } else {
            None
        },
        None => None,
    }
}

/// What a comma-separated field denotes: an integer when it reads as one, a
/// boolean for the conventional words (after ASCII case folding), and the
/// bare string otherwise.
pub open spec fn csv_value_spec(s: Seq<char>) -> PropValue {
    match parse_i64_spec(s) {
        Some(n) => PropValue::Int(n),
        None => {
            let folded = ascii_lower(s);
            if folded == "true"@ || folded == "yes"@ {
                PropValue::Bool(true)
            } else if folded == "false"@ || folded == "no"@ {
                PropValue::Bool(false)
            } else {
                PropValue::Null
            }
        },
    }
}

/// Reads a comma-separated field as a typed property value: an integer when
/// it parses as one, a boolean for "true"/"yes" and "false"/"no" in any ASCII
/// case, the bare string otherwise.
pub fn parse_csv_value(value: &str) -> (r: PropValue)
    ensures
        ({
            let spec = csv_value_spec(value@);
            if spec is Null {
                r matches PropValue::Str(s) && s@ == value@
            } else {
                r@ == spec@
            }
        }),
{
    match parse_i64(value) {
        Some(n) => PropValue::Int(n),
        None => {
            let folded = crate::text::to_ascii_lowercase(value);
            if crate::ext::str_eq(folded.as_str(), "true") || crate::ext::str_eq(
                folded.as_str(),
                "yes",
            ) {
                PropValue::Bool(true)
            } else if crate::ext::str_eq(folded.as_str(), "false") || crate::ext::str_eq(
                folded.as_str(),
                "no",
            ) {
                PropValue::Bool(false)
            } else {
                PropValue::Str(value.to_owned())
            }
        },
    }
}

/// The first header equal to the name.
pub open spec fn header_idx(headers: Seq<String>, column: Seq<char>) -> Option<int>
    decreases headers.len(),
{
    if headers.len() == 0 {
        None
    } else if headers[0]@ == column {
        Some(0int)
    } else {
        match header_idx(headers.drop_first(), column) {
            Some(i) => Some(i + 1),
            None => None,
        }
    }
}

/// A header lookup is decided by the tail once the first names differ.
proof fn lemma_header_idx_skip(headers: Seq<String>, column: Seq<char>, i: int)
    requires
        0 <= i <= headers.len(),
        forall|j: int| 0 <= j < i ==> (#[trigger] headers[j])@ != column,
    ensures
        header_idx(headers, column) == match header_idx(headers.skip(i), column) {
            Some(k) => Some(k + i),
            None => None::<int>,
        },
    decreases i,
{
    if i > 0 {
        assert(headers.drop_first().skip(i - 1) =~= headers.skip(i));
        lemma_header_idx_skip(headers.drop_first(), column, i - 1);
    } else {
        assert(headers.skip(0) =~= headers);
    }
}

/// Resolves a column: a numeric name within range reads as a position,
/// otherwise the first header with that name; an unknown column is an error.
#[verifier::loop_isolation(false)]
pub fn find_column_index(headers: &Vec<String>, column: &str) -> (r: Result<usize, CoreError>)
    ensures
        match r {
            Ok(i) => (parse_u64_spec(column@) matches Some(n) && n < headers@.len() && i == n) || (
            header_idx(headers@, column@) == Some(i as int) && !(parse_u64_spec(column@) matches
                Some(n) && n < headers@.len())),
            Err(e) => header_idx(headers@, column@) is None && !(parse_u64_spec(column@) matches
                Some(n) && n < headers@.len()) && e is Internal,
        },
{
    match parse_u64(column) {
        Some(n) => {
            if (n as u128) < headers.len() as u128 {
                return Ok(n as usize);
            }
        },
        None => {},
    }
    let ghost hs = headers@;
    let mut i: usize = 0;
    while i < headers.len()
        invariant
            0 <= i <= headers@.len(),
            hs == headers@,
            forall|j: int| 0 <= j < i ==> (#[trigger] hs[j])@ != column@,
        decreases headers.len() - i,
    {
        if crate::ext::str_eq(headers[i].as_str(), column) {
            proof {
                lemma_header_idx_skip(hs, column@, i as int);
                assert(hs.skip(i as int)[0] == hs[i as int]);
            }
            return Ok(i);
        }
        i += 1;
    }
    proof {
        lemma_header_idx_skip(hs, column@, hs.len() as int);
        assert(hs.skip(hs.len() as int).len() == 0);
    }
    Err(CoreError::Internal(String::from_str("column not found")))
}

} // verus!
