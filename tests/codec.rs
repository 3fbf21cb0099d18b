use htup::codec::{format_http_file, parse_http_file, ParseError};
use htup::request::{Headers, Request};

#[test]
fn test_parse_simple_get() {
    let content = "GET https://example.com/api";
    let req = parse_http_file(content).unwrap();
    assert_eq!(req.method, "GET");
    assert_eq!(req.url, "https://example.com/api");
    assert!(req.body.is_none());
}

#[test]
fn test_parse_post_with_headers_and_body() {
    let content = r#"POST https://api.com/users
Content-Type: application/json
Authorization: Bearer token

{
    "name": "foo"
}"#;
    let req = parse_http_file(content).unwrap();
    assert_eq!(req.method, "POST");
    assert_eq!(req.headers.get("Content-Type").unwrap(), "application/json");
    assert_eq!(req.body.unwrap(), "{\n    \"name\": \"foo\"\n}");
}

#[test]
fn minimal_input_has_no_headers() {
    let req = parse_http_file("GET https://example.com/api").unwrap();
    assert_eq!(req.method, "GET");
    assert_eq!(req.url, "https://example.com/api");
    assert_eq!(req.headers.len(), 0);
    assert!(req.headers.is_empty());
    assert_eq!(req.body, None);
}

#[test]
fn header_and_body_are_read() {
    let content = "POST https://api.com/users\nContent-Type: application/json\nAuthorization: Bearer token\n\n{\n    \"name\": \"foo\"\n}";
    let req = parse_http_file(content).unwrap();
    assert_eq!(req.method, "POST");
    assert_eq!(req.url, "https://api.com/users");
    assert_eq!(req.headers.get("Authorization").unwrap(), "Bearer token");
    assert_eq!(req.headers.len(), 2);
    assert_eq!(req.body.as_deref(), Some("{\n    \"name\": \"foo\"\n}"));
}

#[test]
fn empty_text_misses_method() {
    assert_eq!(parse_http_file("").unwrap_err(), ParseError::MissingMethod);
}

#[test]
fn blank_first_line_misses_method() {
    assert_eq!(parse_http_file("   \nHost: x").unwrap_err(), ParseError::MissingMethod);
}

#[test]
fn lone_method_misses_url() {
    assert_eq!(parse_http_file("GET").unwrap_err(), ParseError::MissingUrl);
    assert_eq!(parse_http_file("GET   \n").unwrap_err(), ParseError::MissingUrl);
}

#[test]
fn line_without_colon_is_skipped() {
    let req = parse_http_file("GET http://h\nnot a header\nAccept: */*\n").unwrap();
    assert_eq!(req.headers.len(), 1);
    assert_eq!(req.headers.get("Accept").unwrap(), "*/*");
    assert_eq!(req.body, None);
}

#[test]
fn extra_tokens_on_first_line_are_ignored() {
    let req = parse_http_file("  PUT\thttp://h/x HTTP/1.1\n").unwrap();
    assert_eq!(req.method, "PUT");
    assert_eq!(req.url, "http://h/x");
}

#[test]
fn repeated_header_keeps_last_value() {
    let req = parse_http_file("GET u\nX-A: 1\nX-B: 2\nX-A: 3\n").unwrap();
    assert_eq!(req.headers.len(), 2);
    assert_eq!(req.headers.get("X-A").unwrap(), "3");
    let names: Vec<&str> = req.headers.entries().iter().map(|e| e.0.as_str()).collect();
    assert_eq!(names, vec!["X-A", "X-B"]);
}

#[test]
fn header_split_at_first_colon_and_trimmed() {
    let req = parse_http_file("GET u\n  Host :  example.com:8080  \n").unwrap();
    assert_eq!(req.headers.get("Host").unwrap(), "example.com:8080");
}

#[test]
fn header_names_keep_their_case() {
    let req = parse_http_file("GET u\naccept: a\nAccept: b\n").unwrap();
    assert_eq!(req.headers.len(), 2);
    assert_eq!(req.headers.get("accept").unwrap(), "a");
    assert_eq!(req.headers.get("Accept").unwrap(), "b");
}

#[test]
fn blank_line_without_following_lines_gives_no_body() {
    let req = parse_http_file("GET u\nA: b\n\n").unwrap();
    assert_eq!(req.body, None);
}

#[test]
fn empty_line_after_separator_gives_empty_body() {
    let req = parse_http_file("GET u\n\n\n").unwrap();
    assert_eq!(req.body.as_deref(), Some(""));
}

#[test]
fn crlf_line_endings_are_read() {
    let req = parse_http_file("GET u\r\nA: b\r\n\r\nline1\r\nline2").unwrap();
    assert_eq!(req.url, "u");
    assert_eq!(req.headers.get("A").unwrap(), "b");
    assert_eq!(req.body.as_deref(), Some("line1\nline2"));
}

#[test]
fn body_keeps_blank_lines_inside() {
    let req = parse_http_file("GET u\n\na\n\nb").unwrap();
    assert_eq!(req.body.as_deref(), Some("a\n\nb"));
}

#[test]
fn whitespace_line_ends_headers() {
    let req = parse_http_file("GET u\nA: 1\n \t \nB: 2").unwrap();
    assert_eq!(req.headers.len(), 1);
    assert_eq!(req.body.as_deref(), Some("B: 2"));
}

#[test]
fn format_writes_the_file_layout() {
    let mut req = Request::new("POST", "http://h/p");
    req.headers.insert("A".to_string(), "1".to_string());
    req.headers.insert("B".to_string(), "2".to_string());
    req.body = Some("{}".to_string());
    assert_eq!(format_http_file(&req), "POST http://h/p\nA: 1\nB: 2\n\n{}");
}

#[test]
fn format_without_body_ends_with_blank_line() {
    let req = Request::new("GET", "http://h");
    assert_eq!(format_http_file(&req), "GET http://h\n\n");
}

#[test]
fn written_request_reads_back() {
    let mut req = Request::new("PATCH", "https://api.example.com/items/7");
    req.headers.insert("Content-Type".to_string(), "application/json".to_string());
    req.headers.insert("X-Trace".to_string(), "a:b:c".to_string());
    req.body = Some("{\n  \"a\": 1\n}".to_string());
    let back = parse_http_file(&format_http_file(&req)).unwrap();
    assert_eq!(back, req);
    let names: Vec<&str> = back.headers.entries().iter().map(|e| e.0.as_str()).collect();
    assert_eq!(names, vec!["Content-Type", "X-Trace"]);
}

#[test]
fn written_request_without_body_reads_back() {
    let mut req = Request::new("DELETE", "http://h/x");
    req.headers.insert("Accept".to_string(), "*/*".to_string());
    let back = parse_http_file(&format_http_file(&req)).unwrap();
    assert_eq!(back, req);
}

#[test]
fn headers_compare_without_order() {
    let mut a = Headers::new();
    a.insert("A".to_string(), "1".to_string());
    a.insert("B".to_string(), "2".to_string());
    let mut b = Headers::new();
    b.insert("B".to_string(), "2".to_string());
    b.insert("A".to_string(), "1".to_string());
    assert_eq!(a, b);
    b.insert("A".to_string(), "9".to_string());
    assert_ne!(a, b);
    let mut c = a.clone();
    c.insert("C".to_string(), "3".to_string());
    assert_ne!(a, c);
}

#[test]
fn parse_error_messages() {
    assert_eq!(ParseError::MissingMethod.message(), "Missing method");
    assert_eq!(ParseError::MissingUrl.message(), "Missing URL");
}
