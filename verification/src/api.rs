//! HTTP-facing value shapes and routing helpers: the response envelope,
//! version and pagination parameters, the health answer, and tenant
//! extraction from a request path.

use vstd::prelude::*;

use vstd::string::StringExecFns;
use vstd::string::StrSliceExecFns;

verus! {

broadcast use vstd::seq::group_seq_axioms;

/// The uniform response envelope of the HTTP surface. The timestamp is an RFC
/// 3339 string.
pub struct ApiResponse<T> {
    pub success: bool,
    pub data: Option<T>,
    pub error: Option<String>,
    pub timestamp: String,
}

impl<T> ApiResponse<T> {
    /// A successful response carrying data, stamped at the given instant.
    pub fn success_at(data: T, timestamp: String) -> (r: Self)
        ensures
            r.success,
            r.data is Some,
            r.error is None,
            r.timestamp@ == timestamp@,
    {
        ApiResponse { success: true, data: Some(data), error: None, timestamp }
    }

    /// A failed response carrying a message, stamped at the given instant.
    pub fn error_at(message: String, timestamp: String) -> (r: Self)
        ensures
            !r.success,
            r.data is None,
            r.error matches Some(m) && m@ == message@,
            r.timestamp@ == timestamp@,
    {
        ApiResponse { success: false, data: None, error: Some(message), timestamp }
    }

    /// A successful response carrying data, stamped by the wall clock; an
    /// instant the clock cannot render leaves the timestamp empty.
    pub fn success(data: T) -> (r: Self)
        ensures
            r.success,
            r.data is Some,
            r.error is None,
    {
        Self::success_at(data, now_rfc3339())
    }

    /// A failed response carrying a message, stamped by the wall clock; an
    /// instant the clock cannot render leaves the timestamp empty.
    pub fn error(message: String) -> (r: Self)
        ensures
            !r.success,
            r.data is None,
            r.error matches Some(m) && m@ == message@,
    {
        Self::error_at(message, now_rfc3339())
    }
}

/// The wall clock's current instant as an RFC 3339 string; empty when the
/// clock reads an instant outside the representable range.
pub fn now_rfc3339() -> (r: String)
    ensures
        exists|m: int| r@ == #[trigger] crate::ext::rfc3339_or_empty(m),
{
    let now = crate::ext::now_micros();
    let r = match crate::ext::format_rfc3339_micros(now) {
        Some(s) => s,
        None => String::new(),
    };
    proof {
        assert(r@ == crate::ext::rfc3339_or_empty(now as int));
    }
    r
}

/// The surface's version marker.
pub struct ApiVersion {
    pub version: String,
    pub build: String,
    pub commit: Option<String>,
}

impl Default for ApiVersion {
    /// A development build without a commit marker.
    fn default() -> (r: Self)
        ensures
            r.version@ == "0.1.0"@,
            r.build@ == "development"@,
            r.commit is None,
    {
        ApiVersion {
            version: String::from_str("0.1.0"),
            build: String::from_str("development"),
            commit: None,
        }
    }
}

/// Pagination of list endpoints.
pub struct PaginationParams {
    pub page: Option<u32>,
    pub limit: Option<u32>,
    pub offset: Option<u32>,
}

impl Default for PaginationParams {
    /// The first page of one hundred entries.
    fn default() -> (r: Self)
        ensures
            r.page == Some(1u32),
            r.limit == Some(100u32),
            r.offset is None,
    {
        PaginationParams { page: Some(1), limit: Some(100), offset: None }
    }
}

/// A service health answer on the HTTP surface.
pub struct HealthStatus {
    pub status: String,
    pub version: String,
    pub timestamp: String,
}

/// Position of the first occurrence of a needle in a haystack.
pub open spec fn sub_idx(hay: Seq<char>, needle: Seq<char>, from: int) -> Option<int>
    recommends
        0 <= from <= hay.len(),
    decreases hay.len() - from,
    when 0 <= from <= hay.len()
{
    if needle.len() == 0 {
        Some(from)
    } else if from + needle.len() > hay.len() {
        None
    } else if hay.subrange(from, from + needle.len()) == needle {
        Some(from)
    } else {
        sub_idx(hay, needle, from + 1)
    }
}

/// What a successful substring search means: the match is in bounds and the
/// text there is the needle.
proof fn lemma_sub_idx_props(hay: Seq<char>, needle: Seq<char>, from: int)
    requires
        0 <= from <= hay.len(),
    ensures
        sub_idx(hay, needle, from) matches Some(k) ==> from <= k && k + needle.len() <= hay.len(),
    decreases hay.len() - from,
{
    if needle.len() > 0 && from + needle.len() <= hay.len() && hay.subrange(
        from,
        from + needle.len(),
    ) != needle {
        lemma_sub_idx_props(hay, needle, from + 1);
    }
}

/// Position of the first occurrence of a character, at or after `from`.
pub open spec fn char_idx(hay: Seq<char>, c: char, from: int) -> Option<int>
    recommends
        0 <= from <= hay.len(),
    decreases hay.len() - from,
    when 0 <= from <= hay.len()
{
    if from >= hay.len() {
        None
    } else if hay[from] == c {
        Some(from)
    } else {
        char_idx(hay, c, from + 1)
    }
}

/// The tenant segment of a graph path: the characters after the graph prefix
/// up to the next slash or the end, when the prefix occurs and the segment is
/// non-empty.
pub open spec fn tenant_in_path(path: Seq<char>) -> Option<Seq<char>> {
    match sub_idx(path, "/v1/graph/"@, 0) {
        Some(k) => {
            let seg_start = k + "/v1/graph/"@.len();
            let seg_end = match char_idx(path, '/', seg_start) {
                Some(e) => e,
                None => path.len() as int,
            };
            if seg_end > seg_start {
                Some(path.subrange(seg_start, seg_end))
            } else {
                None
            }
        },
        None => None,
    }
}

/// Finds the first occurrence of a needle.
fn find_sub(hay: &str, needle: &str) -> (r: Option<usize>)
    ensures
        match r {
            Some(k) => sub_idx(hay@, needle@, 0) == Some(k as int),
            None => sub_idx(hay@, needle@, 0) is None,
        },
{
    let hay_len = hay.unicode_len();
    let needle_len = needle.unicode_len();
    if needle_len == 0 {
        return Some(0);
    }
    if needle_len > hay_len {
        return None;
    }
    let last_start = hay_len - needle_len;
    let mut k: usize = 0;
    while k <= last_start
        invariant
            hay_len == hay@.len(),
            needle_len == needle@.len(),
            1 <= needle_len <= hay_len,
            last_start == hay_len - needle_len,
            0 <= k <= last_start + 1,
            sub_idx(hay@, needle@, k as int) == sub_idx(hay@, needle@, 0),
        decreases last_start + 1 - k,
    {
        let mut j: usize = 0;
        let mut matched = true;
        while j < needle_len
            invariant
                0 <= j <= needle_len,
                needle_len == needle@.len(),
                hay_len == hay@.len(),
                k + needle_len <= hay_len,
                matched == (forall|m: int| 0 <= m < j ==> hay@[k + m] == needle@[m]),
            decreases needle_len - j,
        {
            if hay.get_char(k + j) != needle.get_char(j) {
                matched = false;
                proof {
                    assert(!(hay@[k + j] == needle@[j as int]));
                }
                j = needle_len;
            } else {
                proof {
                    assert(hay@[k + j] == needle@[j as int]);
                }
                j += 1;
            }
        }
        if matched {
            proof {
                assert(hay@.subrange(k as int, k + needle@.len()) =~= needle@);
            }
            return Some(k);
        }
        proof {
            assert(hay@.subrange(k as int, k + needle@.len()) != needle@) by {
                let m = choose|m: int| 0 <= m < needle@.len() && hay@[k + m] != needle@[m];
                assert(hay@.subrange(k as int, k + needle@.len())[m] == hay@[k + m]);
            }
        }
        k += 1;
    }
    proof {
        assert(k + needle@.len() > hay@.len());
    }
    None
}

/// What a successful character search means: the hit is in bounds.
proof fn lemma_char_idx_props(hay: Seq<char>, c: char, from: int)
    requires
        0 <= from <= hay.len(),
    ensures
        char_idx(hay, c, from) matches Some(k) ==> from <= k < hay.len(),
    decreases hay.len() - from,
{
    if from < hay.len() && hay[from] != c {
        lemma_char_idx_props(hay, c, from + 1);
    }
}

/// Finds the first occurrence of a character at or after `from`.
fn find_char(hay: &str, c: char, from: usize) -> (r: Option<usize>)
    requires
        from <= hay@.len(),
    ensures
        match r {
            Some(k) => char_idx(hay@, c, from as int) == Some(k as int),
            None => char_idx(hay@, c, from as int) is None,
        },
{
    let len = hay.unicode_len();
    let mut i: usize = from;
    while i < len
        invariant
            from <= i <= hay@.len(),
            len == hay@.len(),
            char_idx(hay@, c, i as int) == char_idx(hay@, c, from as int),
        decreases len - i,
    {
        if hay.get_char(i) == c {
            return Some(i);
        }
        i += 1;
    }
    None
}

/// Extracts the tenant segment of a graph path: the text between the graph
/// prefix and the next slash (or the end), when present and non-empty.
pub fn extract_tenant_from_path(path: &str) -> (r: Option<String>)
    ensures
        match r {
            Some(t) => tenant_in_path(path@) == Some(t@),
            None => tenant_in_path(path@) is None,
        },
{
    let prefix = "/v1/graph/";
    let path_len = path.unicode_len();
    match find_sub(path, prefix) {
        Some(k) => {
            proof {
                lemma_sub_idx_props(path@, prefix@, 0);
            }
            let seg_start = k + prefix.unicode_len();
            proof {
                assert(seg_start <= path@.len());
                lemma_char_idx_props(path@, '/', seg_start as int);
            }
            let seg_end = match find_char(path, '/', seg_start) {
                Some(e) => e,
                None => path_len,
            };
            if seg_end > seg_start {
                let seg = path.substring_char(seg_start, seg_end).to_owned();
                Some(seg)
            } else {
                None
            }
        },
        None => None,
    }
}

} // verus!
