use reqwest::header::HeaderMap;
use vstd::prelude::*;

verus! {

#[verifier::external_type_specification]
#[verifier::external_body]
#[verifier::reject_recursive_types(T)]
pub struct ExHeaderMap<T>(reqwest::header::HeaderMap<T>);

#[verifier::external_type_specification]
#[verifier::external_body]
pub struct ExHeaderValue(reqwest::header::HeaderValue);

/// Header carrying the number of items per page.
pub const PAGE_SIZE: &'static str = "page-size";

/// Header carrying the number of items in this response.
pub const COUNT: &'static str = "count";

/// Header carrying the number of items over all pages.
pub const TOTAL_COUNT: &'static str = "total-count";

/// Header carrying the number of requests allowed in the current window.
pub const RATELIMIT_LIMIT: &'static str = "ratelimit-limit";

/// Header carrying the number of requests left in the current window.
pub const RATELIMIT_REMAINING: &'static str = "ratelimit-remaining";

/// What a header map holds: for each header name, in lower case, the bytes
/// of the first value stored under it.
pub uninterp spec fn header_values(h: HeaderMap) -> Map<Seq<char>, Seq<u8>>;

/// A header name written in lower case: ASCII letters, digits and `-`.
pub open spec fn is_lower_name(name: Seq<char>) -> bool {
    &&& name.len() > 0
    &&& forall|i: int|
        0 <= i < name.len() ==> {
            let c = #[trigger] name[i];
            ('a' <= c && c <= 'z') || ('0' <= c && c <= '9') || c == '-'
        }
}

/// Relies on HeaderMap::get, which finds the first value stored under a
/// header name (names compare in lower case), and on HeaderValue::as_bytes,
/// which gives that value's bytes.
#[verifier::external_body]
fn header_bytes(headers: &HeaderMap, name: &str) -> (r: Option<Vec<u8>>)
    requires
        is_lower_name(name@),
    ensures
        r is None <==> !header_values(*headers).contains_key(name@),
        r matches Some(v) ==> v@ == header_values(*headers)[name@],
{
    match headers.get(name) {
        Some(v) => Some(v.as_bytes().to_vec()),
        None => None,
    }
}

pub open spec fn is_digit(b: u8) -> bool {
    48 <= b && b <= 57
}

/// The number written by a sequence of decimal digits, most significant first.
pub open spec fn digits_value(d: Seq<u8>) -> nat
    decreases d.len(),
{
    if d.len() == 0 {
        0
    } else {
        digits_value(d.drop_last()) * 10 + (d.last() - 48) as nat
    }
}

/// The text after an optional leading `+`.
pub open spec fn unsigned_part(b: Seq<u8>) -> Seq<u8> {
    if b.len() > 0 && b[0] == 43 {
        b.subrange(1, b.len() as int)
    } else {
        b
    }
}

/// The value of a base-10 unsigned integer: an optional `+`, then one or more
/// ASCII digits, whose value fits in a `u32`. Anything else has no value.
pub open spec fn decimal_u32(b: Seq<u8>) -> Option<u32> {
    let d = unsigned_part(b);
    if d.len() > 0 && (forall|i: int| 0 <= i < d.len() ==> is_digit(#[trigger] d[i]))
        && digits_value(d) <= u32::MAX {
        Some(digits_value(d) as u32)
    } else {
        None
    }
}

/// The counter read from the header `name`: absent when the header is
/// missing or does not hold a valid value.
pub open spec fn header_field(h: Map<Seq<char>, Seq<u8>>, name: Seq<char>) -> Option<u32> {
    if h.contains_key(name) {
        decimal_u32(h[name])
    } else {
        None
    }
}

/// Extending a run of digits never makes its value smaller.
proof fn lemma_digits_prefix_le(d: Seq<u8>, k: int)
    requires
        0 <= k <= d.len(),
        forall|i: int| 0 <= i < d.len() ==> is_digit(#[trigger] d[i]),
    ensures
        digits_value(d.subrange(0, k)) <= digits_value(d),
    decreases d.len(),
{
    if k == d.len() {
        assert(d.subrange(0, k) =~= d);
    } else {
        let p = d.drop_last();
        lemma_digits_prefix_le(p, k);
        assert(p.subrange(0, k) =~= d.subrange(0, k));
    }
}

/// Reads a header value as a base-10 unsigned integer.
pub fn parse_header_value(b: &[u8]) -> (r: Option<u32>)
    ensures
        r == decimal_u32(b@),
{
    let n = b.len();
    let start: usize = if n > 0 && b[0] == 43u8 {
        1
    } else {
        0
    };
    let ghost d = unsigned_part(b@);
    assert(d =~= b@.subrange(start as int, n as int));
    if start == n {
        return None;
    }
    let mut acc: u64 = 0;
    let mut i: usize = start;
    while i < n
        invariant
            start <= i <= n,
            n == b@.len(),
            d == b@.subrange(start as int, n as int),
            d == unsigned_part(b@),
            forall|j: int| 0 <= j < i - start ==> is_digit(#[trigger] d[j]),
            acc == digits_value(d.subrange(0, i - start)),
            acc <= u32::MAX,
        decreases n - i,
    {
        let c = b[i];
        assert(d[i - start] == c);
        if c < 48u8 || c > 57u8 {
            assert(!is_digit(d[i - start]));
            return None;
        }
        let ghost k = i - start;
        assert(d.subrange(0, k + 1).drop_last() =~= d.subrange(0, k));
        acc = acc * 10 + (c - 48u8) as u64;
        i = i + 1;
        if acc > u32::MAX as u64 {
            proof {
                if forall|j: int| 0 <= j < d.len() ==> is_digit(#[trigger] d[j]) {
                    lemma_digits_prefix_le(d, k + 1);
                    assert(digits_value(d) > u32::MAX);
                }
            }
            return None;
        }
    }
    assert(d.subrange(0, d.len() as int) =~= d);
    Some(acc as u32)
}

/// The counter held by the header `name`, absent when the header is missing
/// or its value is not a base-10 unsigned integer that fits in a `u32`.
fn read_field(headers: &HeaderMap, name: &str) -> (r: Option<u32>)
    requires
        is_lower_name(name@),
    ensures
        r == header_field(header_values(*headers), name@),
{
    match header_bytes(headers, name) {
        Some(v) => parse_header_value(v.as_slice()),
        None => None,
    }
}

/// A response of the API: its content, with the paging and rate-limit
/// counters that came with it.
pub struct ApiResponse<T> {
    pub content: T,
    pub page_size: Option<u32>,
    pub count: Option<u32>,
    pub total_count: Option<u32>,
    pub ratelimit_limit: Option<u32>,
    pub ratelimit_remaining: Option<u32>,
}

impl<T> ApiResponse<T> {
    /// Wraps `content` with the counters read from `headers`. Each counter is
    /// read from its own header and is absent where that header is missing
    /// or does not hold a base-10 unsigned integer that fits in a `u32`;
    /// neither case affects the other counters.
    pub fn new(content: T, headers: &HeaderMap) -> (r: ApiResponse<T>)
        ensures
            r.content == content,
            r.page_size == header_field(header_values(*headers), PAGE_SIZE@),
            r.count == header_field(header_values(*headers), COUNT@),
            r.total_count == header_field(header_values(*headers), TOTAL_COUNT@),
            r.ratelimit_limit == header_field(header_values(*headers), RATELIMIT_LIMIT@),
            r.ratelimit_remaining == header_field(header_values(*headers), RATELIMIT_REMAINING@),
    {
        proof {
            reveal_strlit("page-size");
            reveal_strlit("count");
            reveal_strlit("total-count");
            reveal_strlit("ratelimit-limit");
            reveal_strlit("ratelimit-remaining");
        }
        let page_size = read_field(headers, PAGE_SIZE);
        let count = read_field(headers, COUNT);
        let total_count = read_field(headers, TOTAL_COUNT);
        let ratelimit_limit = read_field(headers, RATELIMIT_LIMIT);
        let ratelimit_remaining = read_field(headers, RATELIMIT_REMAINING);
        ApiResponse { content, page_size, count, total_count, ratelimit_limit, ratelimit_remaining }
    }
}

} // verus!
