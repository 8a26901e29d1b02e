use axon::http::request::{Method, Request};

fn padded(text: &[u8]) -> Vec<u8> {
    let mut buf = vec![0u8; 1024];
    buf[..text.len()].copy_from_slice(text);
    buf
}

#[test]
fn parse_get_request_line() {
    let request = Request::parse(b"GET /index.html HTTP/1.1\r\nHost: localhost\r\n\r\n").unwrap();
    assert_eq!(request.get_method(), Method::Get);
    assert_eq!(request.get_uri(), "/index.html");
}

#[test]
fn parse_head_request_line() {
    let request = Request::parse(b"HEAD /about HTTP/1.1\r\n\r\n").unwrap();
    assert_eq!(request.get_method(), Method::Head);
    assert_eq!(request.get_uri(), "/about");
}

#[test]
fn parse_other_methods_are_not_implemented() {
    for keyword in ["DELETE", "POST", "PUT", "get", "Get", "GETS", "HEA", ""] {
        let line = format!("{} / HTTP/1.1\r\n\r\n", keyword);
        let request = Request::parse(line.as_bytes()).unwrap();
        assert_eq!(request.get_method(), Method::NotImplemented, "keyword {:?}", keyword);
        assert_eq!(request.get_uri(), "/");
    }
}

#[test]
fn parse_reads_a_zero_padded_buffer() {
    let buf = padded(b"GET /contact HTTP/1.1\r\nAccept: */*\r\n\r\n");
    let request = Request::new(&buf);
    assert_eq!(request.get_method(), Method::Get);
    assert_eq!(request.get_uri(), "/contact");
}

#[test]
fn parse_without_target_fails() {
    assert!(Request::parse(b"GET\r\nHost: localhost\r\n\r\n").is_none());
    assert!(Request::parse(b"\r\n").is_none());
    assert!(Request::parse(b"").is_none());
    assert!(Request::parse(&padded(b"")).is_none());
}

#[test]
fn parse_looks_for_the_target_in_the_first_line_only() {
    assert!(Request::parse(b"GET\r\nHost: localhost\r\n").is_none());
    let request = Request::parse(b"GET /\r\nHost: localhost\r\n").unwrap();
    assert_eq!(request.get_uri(), "/");
}

#[test]
fn parse_rejects_bytes_that_are_not_text() {
    assert!(Request::parse(b"GET /\xff HTTP/1.1\r\n\r\n").is_none());
    assert!(Request::parse(b"GET / HTTP/1.1\r\nX: \xc3\r\n\r\n").is_none());
    assert!(Request::parse(b"GET / HTTP/1.1\r\n\r\n\xed\xa0\x80").is_none());
}

#[test]
fn parse_without_line_end_takes_the_whole_buffer() {
    let request = Request::parse(b"GET /resume").unwrap();
    assert_eq!(request.get_method(), Method::Get);
    assert_eq!(request.get_uri(), "/resume");
}

#[test]
fn parse_target_ends_at_the_second_space_or_the_line_end() {
    let request = Request::parse(b"GET /a b c\r\n").unwrap();
    assert_eq!(request.get_uri(), "/a");
    let request = Request::parse(b"GET /a\r\nb c").unwrap();
    assert_eq!(request.get_uri(), "/a");
    let request = Request::parse(b"GET /a\rb\nc d\r\n").unwrap();
    assert_eq!(request.get_uri(), "/a\rb\nc");
}

#[test]
fn parse_two_spaces_give_an_empty_target() {
    let request = Request::parse(b"GET  / HTTP/1.1\r\n").unwrap();
    assert_eq!(request.get_method(), Method::Get);
    assert_eq!(request.get_uri(), "");
    let request = Request::parse(b" / HTTP/1.1\r\n").unwrap();
    assert_eq!(request.get_method(), Method::NotImplemented);
    assert_eq!(request.get_uri(), "/");
    let request = Request::parse(b"GET \r\n").unwrap();
    assert_eq!(request.get_uri(), "");
}

#[test]
fn parse_keeps_the_target_raw() {
    let request = Request::parse("GET /caf\u{e9}/../%41?q=\u{1f600} HTTP/1.1\r\n".as_bytes()).unwrap();
    assert_eq!(request.get_uri(), "/caf\u{e9}/../%41?q=\u{1f600}");
}

#[test]
fn request_to_string_shows_method_and_target() {
    assert_eq!(Request::new(b"GET /a HTTP/1.1\r\n").to_string(), "GET /a");
    assert_eq!(Request::new(b"HEAD /b HTTP/1.1\r\n").to_string(), "HEAD /b");
    assert_eq!(Request::new(b"PATCH /c HTTP/1.1\r\n").to_string(), "UNKNOWN /c");
}
