use http_server::request::eq_ignoring_case;
use http_server::request::is_space;
use http_server::request::parse_request;

#[test]
fn request_line_gives_three_tokens() {
    let req = parse_request(b"GET /index.html HTTP/1.1\r\nHost: x\r\n\r\n").unwrap();
    assert_eq!(req.method, "GET");
    assert_eq!(req.path, "/index.html");
    assert_eq!(req.version, "HTTP/1.1");
    assert!(req.keep_alive);
}

#[test]
fn path_is_left_as_it_came() {
    let req = parse_request(b"GET /a%20b/../c?x=1&y=%2F HTTP/1.1\r\n\r\n").unwrap();
    assert_eq!(req.path, "/a%20b/../c?x=1&y=%2F");
}

#[test]
fn fewer_than_three_tokens_are_rejected() {
    assert!(parse_request(b"").is_none());
    assert!(parse_request(b"\r\n\r\n").is_none());
    assert!(parse_request(b"GET\r\n\r\n").is_none());
    assert!(parse_request(b"GET /\r\n\r\n").is_none());
    assert!(parse_request(b"GET / \r\nHTTP/1.1\r\n\r\n").is_none());
    assert!(parse_request(b"   \t  \r\nGET / HTTP/1.1\r\n\r\n").is_none());
}

#[test]
fn tokens_beyond_the_third_are_ignored() {
    let req = parse_request(b"GET / HTTP/1.1 extra tokens\r\n\r\n").unwrap();
    assert_eq!(req.method, "GET");
    assert_eq!(req.path, "/");
    assert_eq!(req.version, "HTTP/1.1");
}

#[test]
fn any_white_space_separates_tokens() {
    let req = parse_request(b"  GET\t\t/x \x0b HTTP/1.0  \r\n\r\n").unwrap();
    assert_eq!(req.method, "GET");
    assert_eq!(req.path, "/x");
    assert_eq!(req.version, "HTTP/1.0");
    let wide = "POST\u{3000}/y\u{a0}HTTP/1.1\u{2003}\r\n\r\n";
    let req = parse_request(wide.as_bytes()).unwrap();
    assert_eq!(req.method, "POST");
    assert_eq!(req.path, "/y");
    assert_eq!(req.version, "HTTP/1.1");
}

#[test]
fn white_space_is_what_the_standard_library_calls_so() {
    for code in 0u32..0x11000 {
        if let Some(c) = char::from_u32(code) {
            assert_eq!(is_space(c), c.is_whitespace(), "U+{:04X}", code);
        }
    }
}

#[test]
fn request_line_without_line_end_is_read_to_the_end() {
    let req = parse_request(b"GET / HTTP/1.1").unwrap();
    assert_eq!(req.version, "HTTP/1.1");
    assert!(req.keep_alive);
}

#[test]
fn request_line_must_be_utf8() {
    assert!(parse_request(b"GET /\xff HTTP/1.1\r\n\r\n").is_none());
    assert!(parse_request(b"GET /\xc3 HTTP/1.1\r\n\r\n").is_none());
    assert!(parse_request(b"GET /\xed\xa0\x80 HTTP/1.1\r\n\r\n").is_none());
    let req = parse_request("GET /caf\u{e9} HTTP/1.1\r\n\r\n".as_bytes()).unwrap();
    assert_eq!(req.path, "/caf\u{e9}");
}

#[test]
fn only_the_request_line_is_decoded() {
    let req = parse_request(b"GET / HTTP/1.1\r\nX-Raw: \xff\xfe\r\nConnection: close\r\n\r\n")
        .unwrap();
    assert_eq!(req.path, "/");
    assert!(!req.keep_alive);
}

#[test]
fn keep_alive_defaults_by_version() {
    assert!(parse_request(b"GET / HTTP/1.1\r\n\r\n").unwrap().keep_alive);
    assert!(!parse_request(b"GET / HTTP/1.0\r\n\r\n").unwrap().keep_alive);
    assert!(!parse_request(b"GET / HTTP/2.0\r\n\r\n").unwrap().keep_alive);
    assert!(!parse_request(b"GET / http/1.1\r\n\r\n").unwrap().keep_alive);
}

#[test]
fn connection_header_overrides_the_default() {
    let req = parse_request(b"GET / HTTP/1.1\r\nHost: x\r\nConnection: close\r\n\r\n").unwrap();
    assert!(!req.keep_alive);
    let req =
        parse_request(b"GET / HTTP/1.0\r\nHost: x\r\nConnection: keep-alive\r\n\r\n").unwrap();
    assert!(req.keep_alive);
}

#[test]
fn connection_header_is_read_without_regard_to_case_and_blanks() {
    let req = parse_request(b"GET / HTTP/1.0\r\nCONNECTION:Keep-Alive\r\n\r\n").unwrap();
    assert!(req.keep_alive);
    let req = parse_request(b"GET / HTTP/1.1\r\nconnection: \t CLOSE \t\r\n\r\n").unwrap();
    assert!(!req.keep_alive);
    let req = parse_request(b"GET / HTTP/1.1\nConnection: close\n\n").unwrap();
    assert!(!req.keep_alive);
}

#[test]
fn other_values_and_other_headers_say_nothing() {
    let req = parse_request(b"GET / HTTP/1.1\r\nConnection: upgrade\r\n\r\n").unwrap();
    assert!(req.keep_alive);
    let req = parse_request(b"GET / HTTP/1.0\r\nConnection: upgrade\r\n\r\n").unwrap();
    assert!(!req.keep_alive);
    let req = parse_request(b"GET / HTTP/1.1\r\nX-Connection: close\r\n\r\n").unwrap();
    assert!(req.keep_alive);
    let req = parse_request(b"GET / HTTP/1.1\r\nConnection : close\r\n\r\n").unwrap();
    assert!(req.keep_alive);
    let req = parse_request(b"GET / HTTP/1.1\r\nConnection close\r\n\r\n").unwrap();
    assert!(req.keep_alive);
}

#[test]
fn first_header_that_speaks_decides() {
    let req = parse_request(
        b"GET / HTTP/1.1\r\nConnection: upgrade\r\nConnection: close\r\nConnection: keep-alive\r\n\r\n",
    )
    .unwrap();
    assert!(!req.keep_alive);
}

#[test]
fn body_is_not_searched_for_headers() {
    let req = parse_request(b"POST / HTTP/1.1\r\nHost: x\r\n\r\nConnection: close\r\n").unwrap();
    assert!(req.keep_alive);
    let req = parse_request(b"POST / HTTP/1.0\r\n\r\nConnection: keep-alive\r\n\r\n").unwrap();
    assert!(!req.keep_alive);
}

#[test]
fn comparing_without_case() {
    assert!(eq_ignoring_case(b"Keep-Alive", b"keep-alive"));
    assert!(eq_ignoring_case(b"", b""));
    assert!(!eq_ignoring_case(b"keep-alive", b"keep_alive"));
    assert!(!eq_ignoring_case(b"close", b"closed"));
    assert!(!eq_ignoring_case(b"@", b"`"));
    assert!(!eq_ignoring_case(b"[", b"{"));
}
