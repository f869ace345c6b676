use arc_devtools::http::{
    content_length_in, find_subslice, parse_content_length, request_text, ResponseBuffer,
    MAX_RESPONSE,
};
use arc_devtools::text::{chars_of, decimal_string, parse_unsigned_chars, string_of, trim_chars};

fn trimmed(s: &str) -> String {
    string_of(&trim_chars(&chars_of(s)))
}

#[test]
fn trim_removes_unicode_white_space_at_both_ends() {
    assert_eq!(trimmed("  a b \t\r\n"), "a b");
    assert_eq!(trimmed("\u{3000}x\u{a0}"), "x");
    assert_eq!(trimmed("   "), "");
    assert_eq!(trimmed(""), "");
}

#[test]
fn parse_unsigned_follows_str_parse() {
    let p = |s: &str, max: usize| parse_unsigned_chars(&chars_of(s), max);
    assert_eq!(p("9223", 65535), Some(9223));
    assert_eq!(p("+80", 65535), Some(80));
    assert_eq!(p("0080", 65535), Some(80));
    assert_eq!(p("65535", 65535), Some(65535));
    assert_eq!(p("65536", 65535), None);
    assert_eq!(p("-1", 65535), None);
    assert_eq!(p("+", 65535), None);
    assert_eq!(p("", 65535), None);
    assert_eq!(p("12a", 65535), None);
    assert_eq!(p("18446744073709551615", usize::MAX), Some(usize::MAX));
    assert_eq!(p("18446744073709551616", usize::MAX), None);
    assert_eq!(p("99999999999999999999x", usize::MAX), None);
}

#[test]
fn decimal_has_no_leading_zeros() {
    assert_eq!(decimal_string(0), "0");
    assert_eq!(decimal_string(9223), "9223");
    assert_eq!(decimal_string(u64::MAX), "18446744073709551615");
}

#[test]
fn find_subslice_finds_first_occurrence() {
    assert_eq!(find_subslice(b"ab\r\n\r\ncd\r\n\r\n", b"\r\n\r\n"), Some(2));
    assert_eq!(find_subslice(b"abc", b"abcd"), None);
    assert_eq!(find_subslice(b"abc", b"c"), Some(2));
    assert_eq!(find_subslice(b"", b"x"), None);
    assert_eq!(find_subslice(b"aaab", b"aab"), Some(1));
}

#[test]
fn content_length_header_is_found_in_any_case() {
    assert_eq!(content_length_in("HTTP/1.1 200 OK\r\nContent-Length: 12\r\n"), Some(12));
    assert_eq!(content_length_in("HTTP/1.1 200 OK\r\ncontent-LENGTH:   7  \r\nX: y"), Some(7));
    assert_eq!(content_length_in(" Content-Length :3"), Some(3));
    assert_eq!(content_length_in("HTTP/1.1 200 OK\r\nContent-Type: text/plain"), None);
    assert_eq!(content_length_in("Content-Length: abc\r\nContent-Length: 5"), None);
    assert_eq!(content_length_in("Content-Length"), None);
    assert_eq!(content_length_in("X-Content-Length: 4\r\nContent-Length: 5"), Some(5));
}

#[test]
fn content_length_of_bytes_needs_utf8() {
    assert_eq!(parse_content_length(b"HTTP/1.1 200 OK\r\nContent-Length: 42"), Some(42));
    assert_eq!(parse_content_length(b"\xff\r\nContent-Length: 42"), None);
    assert_eq!(parse_content_length(b""), None);
}

#[test]
fn response_is_complete_once_declared_length_arrived() {
    let mut b = ResponseBuffer::new();
    assert!(b.push_chunk(b"HTTP/1.1 200 OK\r\nContent-Length: 5\r\n\r\nhel"));
    assert_eq!(b.complete_body(), None);
    assert!(b.push_chunk(b"lo world"));
    assert_eq!(b.complete_body(), Some(b"hello".to_vec()));
    assert_eq!(b.body_at_close(), b"hello world".to_vec());
    assert_eq!(b.len(), 49);
}

#[test]
fn response_without_length_is_read_to_close() {
    let mut b = ResponseBuffer::new();
    assert!(b.push_chunk(b"HTTP/1.1 200 OK\r\n\r\n{\"a\":1}"));
    assert_eq!(b.complete_body(), None);
    assert_eq!(b.body_at_close(), b"{\"a\":1}".to_vec());
    let mut c = ResponseBuffer::new();
    assert!(c.push_chunk(b"no head end"));
    assert_eq!(c.body_at_close(), Vec::<u8>::new());
}

#[test]
fn response_over_the_limit_is_refused() {
    let mut b = ResponseBuffer::new();
    let big = vec![b'x'; MAX_RESPONSE];
    assert!(b.push_chunk(&big));
    assert!(!b.push_chunk(b"y"));
}

#[test]
fn request_text_names_host_with_port() {
    assert_eq!(
        request_text("GET", "/json/version", 9223),
        "GET /json/version HTTP/1.1\r\nHost: 127.0.0.1:9223\r\nAccept: */*\r\nConnection: close\r\n\r\n"
    );
    assert_eq!(
        request_text("PUT", "/json/new?about:blank", 80),
        "PUT /json/new?about:blank HTTP/1.1\r\nHost: 127.0.0.1:80\r\nAccept: */*\r\nConnection: close\r\n\r\n"
    );
}

#[test]
fn later_bytes_do_not_change_a_complete_body() {
    let mut b = ResponseBuffer::new();
    assert!(b.push_chunk(b"HTTP/1.1 200 OK\r\nContent-Length: 2\r\n\r\nok"));
    assert_eq!(b.complete_body(), Some(b"ok".to_vec()));
    assert!(b.push_chunk(b"\r\n\r\nContent-Length: 9\r\n\r\nmore"));
    assert_eq!(b.complete_body(), Some(b"ok".to_vec()));
}
