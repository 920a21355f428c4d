use mtgio_client::response::{parse_header_value, ApiResponse};
use reqwest::header::{HeaderMap, HeaderValue};

const NAMES: [&str; 5] = [
    "Page-Size",
    "Count",
    "Total-Count",
    "Ratelimit-Limit",
    "Ratelimit-Remaining",
];

fn headers_with(values: [Option<&'static str>; 5]) -> HeaderMap {
    let mut headers = HeaderMap::new();
    for (name, value) in NAMES.iter().zip(values.iter()) {
        if let Some(v) = value {
            headers.insert(*name, HeaderValue::from_static(v));
        }
    }
    headers
}

fn fields<T>(r: &ApiResponse<T>) -> [Option<u32>; 5] {
    [r.page_size, r.count, r.total_count, r.ratelimit_limit, r.ratelimit_remaining]
}

#[test]
fn all_headers_present() {
    let headers = headers_with([Some("100"), Some("42"), Some("500"), Some("5000"), Some("4999")]);
    let r = ApiResponse::new(vec![1u8, 2, 3], &headers);
    assert_eq!(r.content, vec![1u8, 2, 3]);
    assert_eq!(r.page_size, Some(100));
    assert_eq!(r.count, Some(42));
    assert_eq!(r.total_count, Some(500));
    assert_eq!(r.ratelimit_limit, Some(5000));
    assert_eq!(r.ratelimit_remaining, Some(4999));
}

fn check_one_missing(missing: usize) {
    let mut values = [Some("1"), Some("2"), Some("3"), Some("4"), Some("5")];
    values[missing] = None;
    let r = ApiResponse::new("body", &headers_with(values));
    let got = fields(&r);
    for i in 0..5 {
        if i == missing {
            assert_eq!(got[i], None);
        } else {
            assert_eq!(got[i], Some(i as u32 + 1));
        }
    }
    assert_eq!(r.content, "body");
}

#[test]
fn missing_page_size() {
    check_one_missing(0);
}

#[test]
fn missing_count() {
    check_one_missing(1);
}

#[test]
fn missing_total_count() {
    check_one_missing(2);
}

#[test]
fn missing_ratelimit_limit() {
    check_one_missing(3);
}

#[test]
fn missing_ratelimit_remaining() {
    check_one_missing(4);
}

#[test]
fn no_headers_at_all() {
    let r = ApiResponse::new(7u64, &HeaderMap::new());
    assert_eq!(fields(&r), [None; 5]);
    assert_eq!(r.content, 7u64);
}

fn check_one_malformed(bad: usize) {
    let mut values = [Some("10"), Some("20"), Some("30"), Some("40"), Some("50")];
    values[bad] = Some("abc");
    let r = ApiResponse::new((), &headers_with(values));
    let got = fields(&r);
    for i in 0..5 {
        if i == bad {
            assert_eq!(got[i], None);
        } else {
            assert_eq!(got[i], Some((i as u32 + 1) * 10));
        }
    }
}

#[test]
fn malformed_page_size() {
    check_one_malformed(0);
}

#[test]
fn malformed_count() {
    check_one_malformed(1);
}

#[test]
fn malformed_total_count() {
    check_one_malformed(2);
}

#[test]
fn malformed_ratelimit_limit() {
    check_one_malformed(3);
}

#[test]
fn malformed_ratelimit_remaining() {
    check_one_malformed(4);
}

#[test]
fn header_names_match_in_any_case() {
    let mut headers = HeaderMap::new();
    headers.insert("PAGE-SIZE", HeaderValue::from_static("9"));
    headers.insert("ratelimit-remaining", HeaderValue::from_static("0"));
    let r = ApiResponse::new((), &headers);
    assert_eq!(r.page_size, Some(9));
    assert_eq!(r.ratelimit_remaining, Some(0));
    assert_eq!(r.count, None);
}

#[test]
fn first_of_repeated_header_is_used() {
    let mut headers = HeaderMap::new();
    headers.append("Count", HeaderValue::from_static("3"));
    headers.append("Count", HeaderValue::from_static("8"));
    let r = ApiResponse::new((), &headers);
    assert_eq!(r.count, Some(3));
}

#[test]
fn value_out_of_range_is_absent() {
    let headers = headers_with([Some("4294967295"), Some("4294967296"), None, None, None]);
    let r = ApiResponse::new((), &headers);
    assert_eq!(r.page_size, Some(u32::MAX));
    assert_eq!(r.count, None);
}

#[test]
fn value_with_non_ascii_bytes_is_absent() {
    let mut headers = HeaderMap::new();
    headers.insert("Total-Count", HeaderValue::from_bytes(b"12\xff").unwrap());
    let r = ApiResponse::new((), &headers);
    assert_eq!(r.total_count, None);
}

#[test]
fn parses_decimal_values() {
    assert_eq!(parse_header_value(b"0"), Some(0));
    assert_eq!(parse_header_value(b"007"), Some(7));
    assert_eq!(parse_header_value(b"12345"), Some(12345));
    assert_eq!(parse_header_value(b"+15"), Some(15));
    assert_eq!(parse_header_value(b"4294967295"), Some(4294967295));
}

#[test]
fn rejects_malformed_values() {
    assert_eq!(parse_header_value(b""), None);
    assert_eq!(parse_header_value(b"+"), None);
    assert_eq!(parse_header_value(b"-1"), None);
    assert_eq!(parse_header_value(b" 1"), None);
    assert_eq!(parse_header_value(b"1 "), None);
    assert_eq!(parse_header_value(b"abc"), None);
    assert_eq!(parse_header_value(b"12a"), None);
    assert_eq!(parse_header_value(b"++1"), None);
    assert_eq!(parse_header_value(b"4294967296"), None);
    assert_eq!(parse_header_value(b"99999999999999999999"), None);
}

#[test]
fn parses_like_std() {
    for text in ["0", "+0", "65535", "4294967295", "4294967296", "-0", "", "x1", "1_000"] {
        assert_eq!(parse_header_value(text.as_bytes()), text.parse::<u32>().ok(), "{}", text);
    }
}
