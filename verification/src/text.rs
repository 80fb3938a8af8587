//! Verified string utilities: substring search and suffix trimming over
//! character sequences.

use vstd::prelude::*;

use vstd::string::StrSliceExecFns;

verus! {

broadcast use vstd::seq::group_seq_axioms;

/// The needle occurs in the haystack starting at position `k`.
pub open spec fn occurs_at(hay: Seq<char>, needle: Seq<char>, k: int) -> bool {
    0 <= k && k + needle.len() <= hay.len() && hay.subrange(k, k + needle.len()) == needle
}

/// The needle occurs somewhere in the haystack.
pub open spec fn contains_seq(hay: Seq<char>, needle: Seq<char>) -> bool {
    exists|k: int| occurs_at(hay, needle, k)
}

/// The sequence begins with the prefix.
pub open spec fn starts_with_seq(s: Seq<char>, prefix: Seq<char>) -> bool {
    prefix.len() <= s.len() && s.subrange(0, prefix.len() as int) == prefix
}

/// Whether the needle occurs at position `k` of the haystack.
fn matches_at(hay: &str, needle: &str, k: usize) -> (r: bool)
    requires
        k + needle@.len() <= hay@.len(),
        hay@.len() <= usize::MAX,
    ensures
        r == occurs_at(hay@, needle@, k as int),
{
    let needle_len = needle.unicode_len();
    let mut j: usize = 0;
    while j < needle_len
        invariant
            0 <= j <= needle@.len(),
            needle_len == needle@.len(),
            k + needle@.len() <= hay@.len(),
            hay@.len() <= usize::MAX,
            forall|m: int| 0 <= m < j ==> hay@[k + m] == needle@[m],
        decreases needle_len - j,
    {
        if hay.get_char(k + j) != needle.get_char(j) {
            proof {
                assert(hay@.subrange(k as int, k + needle@.len())[j as int] == hay@[k + j]);
            }
            return false;
        }
        j += 1;
    }
    proof {
        assert(hay@.subrange(k as int, k + needle@.len()) =~= needle@);
    }
    true
}

/// Substring search: whether the needle occurs anywhere in the haystack.
pub fn str_contains(hay: &str, needle: &str) -> (r: bool)
    ensures
        r == contains_seq(hay@, needle@),
{
    let hay_len = hay.unicode_len();
    let needle_len = needle.unicode_len();
    if needle_len > hay_len {
        proof {
            assert forall|k: int| !occurs_at(hay@, needle@, k) by {}
        }
        return false;
    }
    if needle_len == 0 {
        proof {
            assert(hay@.subrange(0, 0) =~= needle@);
            assert(occurs_at(hay@, needle@, 0));
        }
        return true;
    }
    let mut k: usize = 0;
    let last_start = hay_len - needle_len;
    while k <= last_start
        invariant
            hay_len == hay@.len(),
            needle_len == needle@.len(),
            needle_len <= hay_len,
            last_start == hay_len - needle_len,
            needle_len >= 1,
            0 <= k <= last_start + 1,
            forall|m: int| 0 <= m < k ==> !occurs_at(hay@, needle@, m),
        decreases last_start + 1 - k,
    {
        if matches_at(hay, needle, k) {
            return true;
        }
        k += 1;
    }
    proof {
        assert forall|m: int| !occurs_at(hay@, needle@, m) by {
            if m >= k {
                assert(m + needle@.len() > hay@.len());
            }
        }
    }
    false
}

/// The sequence with every trailing occurrence of a character removed.
pub open spec fn trimmed_end(s: Seq<char>, c: char) -> Seq<char>
    decreases s.len(),
{
    if s.len() == 0 {
        s
    } else if s.last() == c {
        trimmed_end(s.drop_last(), c)
    } else {
        s
    }
}

/// Removes every trailing occurrence of a character.
pub fn trim_end_char(s: &str, c: char) -> (r: String)
    ensures
        r@ == trimmed_end(s@, c),
{
    let mut end = s.unicode_len();
    proof {
        assert(s@.take(s@.len() as int) =~= s@);
    }
    while end > 0 && s.get_char(end - 1) == c
        invariant
            0 <= end <= s@.len(),
            trimmed_end(s@, c) == trimmed_end(s@.take(end as int), c),
        decreases end,
    {
        proof {
            assert(s@.take(end as int).last() == s@[end - 1]);
            assert(s@.take(end as int).drop_last() =~= s@.take(end - 1));
        }
        end -= 1;
    }
    proof {
        if end > 0 {
            assert(s@.take(end as int).last() == s@[end - 1]);
        }
        assert(trimmed_end(s@.take(end as int), c) == s@.take(end as int));
    }
    let r = s.substring_char(0, end).to_owned();
    proof {
        assert(r@ =~= s@.take(end as int));
    }
    r
}


/// The digit character of a value below ten.
pub open spec fn spec_digit(d: int) -> char {
    if d == 0 {
        '0'
    } else if d == 1 {
        '1'
    } else if d == 2 {
        '2'
    } else if d == 3 {
        '3'
    } else if d == 4 {
        '4'
    } else if d == 5 {
        '5'
    } else if d == 6 {
        '6'
    } else if d == 7 {
        '7'
    } else if d == 8 {
        '8'
    } else {
        '9'
    }
}

/// The decimal rendering of a natural number, most significant digit first.
pub open spec fn dec_of(n: nat) -> Seq<char>
    decreases n,
{
    if n < 10 {
        seq![spec_digit(n as int)]
    } else {
        dec_of(n / 10).push(spec_digit((n % 10) as int))
    }
}

/// The digit character of a value below ten.
fn digit_char(d: u64) -> (r: char)
    requires
        d < 10,
    ensures
        r == spec_digit(d as int),
{
    if d == 0 {
        '0'
    } else if d == 1 {
        '1'
    } else if d == 2 {
        '2'
    } else if d == 3 {
        '3'
    } else if d == 4 {
        '4'
    } else if d == 5 {
        '5'
    } else if d == 6 {
        '6'
    } else if d == 7 {
        '7'
    } else if d == 8 {
        '8'
    } else {
        '9'
    }
}

/// Renders a number in decimal.
pub fn u64_to_dec(n: u64) -> (r: String)
    ensures
        r@ == dec_of(n as nat),
    decreases n,
{
    if n < 10 {
        let mut s = String::new();
        crate::ext::string_push(&mut s, digit_char(n));
        proof {
            assert(s@ =~= seq![spec_digit(n as int)]);
        }
        s
    } else {
        proof {
            assert(n / 10 < n) by (nonlinear_arith)
                requires
                    n >= 10,
            ;
        }
        let mut s = u64_to_dec(n / 10);
        crate::ext::string_push(&mut s, digit_char(n % 10));
        s
    }
}


/// A character with ASCII uppercase folded to lowercase.
pub open spec fn lower_char(c: char) -> char {
    if 'A' <= c && c <= 'Z' {
        ((c as u8) + 32) as char
    } else {
        c
    }
}

/// A sequence with every ASCII uppercase letter folded to lowercase.
pub open spec fn ascii_lower(s: Seq<char>) -> Seq<char> {
    Seq::new(
        s.len(),
        |i: int|
            if 0 <= i < s.len() {
                lower_char(s[i])
            } else {
                ' '
            },
    )
}

/// Folds every ASCII uppercase letter of a string to lowercase, leaving all
/// other characters alone.
pub fn to_ascii_lowercase(s: &str) -> (r: String)
    ensures
        r@ == ascii_lower(s@),
{
    let len = s.unicode_len();
    let mut out = String::new();
    let mut i: usize = 0;
    while i < len
        invariant
            0 <= i <= s@.len(),
            len == s@.len(),
            out@ =~= ascii_lower(s@).take(i as int),
        decreases len - i,
    {
        let c = s.get_char(i);
        let folded = if 'A' <= c && c <= 'Z' {
            ((c as u8) + 32) as char
        } else {
            c
        };
        crate::ext::string_push(&mut out, folded);
        proof {
            assert(out@ =~= ascii_lower(s@).take(i as int + 1));
        }
        i += 1;
    }
    proof {
        assert(ascii_lower(s@).take(len as int) =~= ascii_lower(s@));
    }
    out
}


/// The sequence ends with the suffix.
pub open spec fn ends_with_seq(s: Seq<char>, suffix: Seq<char>) -> bool {
    suffix.len() <= s.len() && s.subrange(s.len() - suffix.len(), s.len() as int) == suffix
}

/// The sequence with every repetition of a leading prefix removed.
pub open spec fn strip_prefix_reps(s: Seq<char>, p: Seq<char>) -> Seq<char>
    decreases s.len(),
{
    if p.len() > 0 && starts_with_seq(s, p) {
        strip_prefix_reps(s.skip(p.len() as int), p)
    } else {
        s
    }
}

/// The sequence with every repetition of a trailing suffix removed.
pub open spec fn strip_suffix_reps(s: Seq<char>, p: Seq<char>) -> Seq<char>
    decreases s.len(),
{
    if p.len() > 0 && ends_with_seq(s, p) {
        strip_suffix_reps(s.take(s.len() - p.len()), p)
    } else {
        s
    }
}

/// The sequence with leading whitespace removed.
pub open spec fn trim_front_ws(s: Seq<char>) -> Seq<char>
    decreases s.len(),
{
    if s.len() > 0 && crate::ext::char_whitespace(s[0]) {
        trim_front_ws(s.drop_first())
    } else {
        s
    }
}

/// The sequence with trailing whitespace removed.
pub open spec fn trim_back_ws(s: Seq<char>) -> Seq<char>
    decreases s.len(),
{
    if s.len() > 0 && crate::ext::char_whitespace(s.last()) {
        trim_back_ws(s.drop_last())
    } else {
        s
    }
}

/// Removes every repetition of a leading prefix.
pub fn strip_prefix_reps_str(s: &str, p: &str) -> (r: String)
    ensures
        r@ == strip_prefix_reps(s@, p@),
{
    let s_len = s.unicode_len();
    let p_len = p.unicode_len();
    if p_len == 0 || p_len > s_len {
        proof {
            if p_len > 0 {
                assert(!starts_with_seq(s@, p@));
            }
        }
        return s.to_owned();
    }
    let mut start: usize = 0;
    proof {
        assert(s@.skip(0) =~= s@);
    }
    while start <= s_len - p_len && matches_at(s, p, start)
        invariant
            s_len == s@.len(),
            p_len == p@.len(),
            1 <= p_len <= s_len,
            0 <= start <= s_len,
            strip_prefix_reps(s@.skip(start as int), p@) == strip_prefix_reps(s@, p@),
        decreases s_len - start,
    {
        proof {
            let rest = s@.skip(start as int);
            assert(rest.subrange(0, p@.len() as int) =~= s@.subrange(
                start as int,
                start + p@.len(),
            ));
            assert(starts_with_seq(rest, p@));
            assert(rest.skip(p@.len() as int) =~= s@.skip(start + p@.len()));
        }
        start += p_len;
    }
    proof {
        let rest = s@.skip(start as int);
        if start + p_len <= s_len {
            assert(rest.subrange(0, p@.len() as int) =~= s@.subrange(
                start as int,
                start + p@.len(),
            ));
        }
        assert(!starts_with_seq(rest, p@));
    }
    s.substring_char(start, s_len).to_owned()
}

/// Removes every repetition of a trailing suffix.
pub fn strip_suffix_reps_str(s: &str, p: &str) -> (r: String)
    ensures
        r@ == strip_suffix_reps(s@, p@),
{
    let s_len = s.unicode_len();
    let p_len = p.unicode_len();
    if p_len == 0 || p_len > s_len {
        proof {
            if p_len > 0 {
                assert(!ends_with_seq(s@, p@));
            }
            assert(s@.take(s@.len() as int) =~= s@);
        }
        return s.to_owned();
    }
    let mut end: usize = s_len;
    proof {
        assert(s@.take(s@.len() as int) =~= s@);
    }
    while end >= p_len && matches_at(s, p, end - p_len)
        invariant
            s_len == s@.len(),
            p_len == p@.len(),
            1 <= p_len <= s_len,
            0 <= end <= s_len,
            strip_suffix_reps(s@.take(end as int), p@) == strip_suffix_reps(s@, p@),
        decreases end,
    {
        proof {
            let cur = s@.take(end as int);
            assert(cur.subrange(cur.len() - p@.len(), cur.len() as int) =~= s@.subrange(
                end - p@.len(),
                end as int,
            ));
            assert(ends_with_seq(cur, p@));
            assert(cur.take(cur.len() - p@.len()) =~= s@.take(end - p@.len()));
        }
        end -= p_len;
    }
    proof {
        let cur = s@.take(end as int);
        if end >= p_len {
            assert(cur.subrange(cur.len() - p@.len(), cur.len() as int) =~= s@.subrange(
                end - p@.len(),
                end as int,
            ));
        }
        assert(!ends_with_seq(cur, p@));
    }
    s.substring_char(0, end).to_owned()
}

/// Removes leading and trailing whitespace.
pub fn trim_ws_str(s: &str) -> (r: String)
    ensures
        r@ == trim_front_ws(trim_back_ws(s@)),
{
    let s_len = s.unicode_len();
    let mut end: usize = s_len;
    proof {
        assert(s@.take(s@.len() as int) =~= s@);
    }
    while end > 0 && crate::ext::is_whitespace_char(s.get_char(end - 1))
        invariant
            s_len == s@.len(),
            0 <= end <= s_len,
            trim_back_ws(s@.take(end as int)) == trim_back_ws(s@),
        decreases end,
    {
        proof {
            assert(s@.take(end as int).last() == s@[end - 1]);
            assert(s@.take(end as int).drop_last() =~= s@.take(end - 1));
        }
        end -= 1;
    }
    let ghost trimmed_back = s@.take(end as int);
    proof {
        if end > 0 {
            assert(trimmed_back.last() == s@[end - 1]);
        }
        assert(trim_back_ws(trimmed_back) == trimmed_back);
        assert(trimmed_back.skip(0) =~= trimmed_back);
    }
    let mut start: usize = 0;
    while start < end && crate::ext::is_whitespace_char(s.get_char(start))
        invariant
            s_len == s@.len(),
            0 <= start <= end <= s_len,
            trimmed_back == s@.take(end as int),
            trim_front_ws(trimmed_back.skip(start as int)) == trim_front_ws(trimmed_back),
        decreases end - start,
    {
        proof {
            let rest = trimmed_back.skip(start as int);
            assert(rest[0] == s@[start as int]);
            assert(rest.drop_first() =~= trimmed_back.skip(start as int + 1));
        }
        start += 1;
    }
    proof {
        let rest = trimmed_back.skip(start as int);
        if start < end {
            assert(rest[0] == s@[start as int]);
        }
        assert(trim_front_ws(rest) == rest);
        assert(rest =~= s@.subrange(start as int, end as int));
    }
    s.substring_char(start, end).to_owned()
}

} // verus!
