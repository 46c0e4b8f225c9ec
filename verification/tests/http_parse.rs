use mkvss::http::method::Method;
use mkvss::http::request::{parse_bytes, ParseOutcome, Request};

#[test]
fn one_token_request_line_yields_no_request() {
    assert!(Request::parse(b"GET\r\n").is_none());
}

#[test]
fn short_body_at_stream_end_fails() {
    let bytes = b"GET /keys/a HTTP/1.1\r\nContent-Length: 5\r\n\r\nab";
    assert!(Request::parse(bytes).is_none());
}

#[test]
fn empty_input_yields_no_request() {
    assert!(Request::parse(b"").is_none());
}

#[test]
fn unknown_method_yields_no_request() {
    assert!(Request::parse(b"PATCH /keys/a HTTP/1.1\r\n\r\n").is_none());
}

#[test]
fn full_request_parses_exactly() {
    let bytes = b"PUT /keys/x HTTP/1.1\r\nHost: h\r\nContent-Length: 3\r\n\r\nabcEXTRA";
    let req = Request::parse(bytes).expect("should parse");
    assert_eq!(req.method, Method::PUT);
    assert_eq!(req.path, "/keys/x");
    assert_eq!(req.body.as_deref(), Some("abc"));
}

#[test]
fn header_values_are_trimmed_and_last_wins() {
    let bytes = b"GET /keys/a HTTP/1.1\r\nX:  1  \r\nContent-Length: 10\r\nContent-Length: 2\r\n\r\nhello";
    let req = Request::parse(bytes).expect("should parse");
    assert!(req.headers.contains(&("X".to_string(), "1".to_string())));
    assert_eq!(req.body.as_deref(), Some("he"));
}

#[test]
fn header_line_without_colon_is_ignored() {
    let bytes = b"GET /keys/a HTTP/1.1\r\njunk line\r\nA: b\r\n\r\n";
    let req = Request::parse(bytes).expect("should parse");
    assert_eq!(req.headers, vec![("A".to_string(), "b".to_string())]);
}

#[test]
fn content_length_zero_or_junk_means_no_body() {
    let r0 = Request::parse(b"GET /k HTTP/1.1\r\nContent-Length: 0\r\n\r\nxyz").unwrap();
    assert!(r0.body.is_none());
    let r1 = Request::parse(b"GET /k HTTP/1.1\r\nContent-Length: ten\r\n\r\nxyz").unwrap();
    assert!(r1.body.is_none());
    let r2 = Request::parse(b"GET /k HTTP/1.1\r\nContent-Length: -1\r\n\r\nxyz").unwrap();
    assert!(r2.body.is_none());
}

#[test]
fn body_bytes_outside_utf8_become_replacement_chars() {
    let bytes = b"PUT /keys/x HTTP/1.1\r\nContent-Length: 3\r\n\r\n\xff\xfe\xff";
    let req = Request::parse(bytes).expect("should parse");
    assert_eq!(req.body.as_deref(), Some("\u{fffd}\u{fffd}\u{fffd}"));
}

#[test]
fn request_line_outside_utf8_fails() {
    assert!(Request::parse(b"GET /k\xff HTTP/1.1\r\n\r\n").is_none());
}

#[test]
fn line_without_newline_parses_at_stream_end() {
    let req = Request::parse(b"GET /keys/a").expect("should parse");
    assert_eq!(req.method, Method::GET);
    assert_eq!(req.path, "/keys/a");
    assert!(req.body.is_none());
}

#[test]
fn progress_reports_need_more_before_stream_end() {
    assert!(matches!(parse_bytes(b"GET /keys", false), ParseOutcome::NeedMore));
    assert!(matches!(
        parse_bytes(b"GET /keys/a HTTP/1.1\r\nContent-Length: 5\r\n\r\nab", false),
        ParseOutcome::NeedMore
    ));
    assert!(matches!(
        parse_bytes(b"GET /keys/a HTTP/1.1\r\n\r\n", false),
        ParseOutcome::Parsed(_)
    ));
}

#[test]
fn bare_lf_line_is_not_the_header_terminator() {
    let bytes = b"GET /k HTTP/1.1\r\n\nA: b\r\n\r\n";
    let req = Request::parse(bytes).expect("should parse");
    assert_eq!(req.headers, vec![("A".to_string(), "b".to_string())]);
}

#[test]
fn extra_request_line_tokens_are_ignored() {
    let req = Request::parse(b"GET /k HTTP/1.1 junk more\r\n\r\n").expect("should parse");
    assert_eq!(req.method, Method::GET);
    assert_eq!(req.path, "/k");
}

#[test]
fn blank_first_line_yields_no_request() {
    assert!(Request::parse(b"\r\n\r\n").is_none());
}

#[test]
fn deep_path_uses_segment_two_as_id() {
    let req = Request::parse(b"GET /keys/a/b HTTP/1.1\r\n\r\n").expect("should parse");
    assert_eq!(req.path, "/keys/a/b");
}

#[test]
fn content_length_value_survives_unicode_blanks() {
    let bytes = "GET /k HTTP/1.1\r\nContent-Length:\u{a0}5 \r\n\r\nhello".as_bytes();
    let req = Request::parse(bytes).expect("should parse");
    assert_eq!(req.body.as_deref(), Some("hello"));
}

#[test]
fn repeated_header_name_keeps_one_pair_with_last_value() {
    let bytes = b"GET /k HTTP/1.1\r\nA: 1\r\nB: x\r\nA: 2\r\n\r\n";
    let req = Request::parse(bytes).expect("should parse");
    assert_eq!(
        req.headers,
        vec![("A".to_string(), "2".to_string()), ("B".to_string(), "x".to_string())]
    );
}
