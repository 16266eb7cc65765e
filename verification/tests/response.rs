use http_server::handlers::bad_request;
use http_server::handlers::content_too_large;
use http_server::handlers::file_bytes;
use http_server::handlers::method_not_allowed;
use http_server::handlers::not_found;
use http_server::handlers::request_timeout;
use http_server::response::build_response;
use http_server::response::HTTPStatus;

#[test]
fn test_response_formatting() {
    let resp = build_response(HTTPStatus::OK, "OK", "text/html", "200 OK");
    let text = String::from_utf8_lossy(&resp);
    assert!(text.contains("200 OK"));
}

#[test]
fn response_layout_is_exact() {
    let resp = build_response(HTTPStatus::NotFound, "Not Found", "text/plain", "gone");
    assert_eq!(
        resp,
        b"HTTP/1.1 404 Not Found\r\nContent-Length: 4\r\nContent-Type: text/plain\r\n\r\ngone".to_vec()
    );
}

#[test]
fn content_length_counts_bytes_not_characters() {
    let body = "h\u{e9}llo \u{4e16}\u{754c}";
    assert_eq!(body.chars().count(), 8);
    assert_eq!(body.len(), 13);
    let resp = http_server::handlers::file(body);
    let text = String::from_utf8(resp).unwrap();
    assert!(text.contains("\r\nContent-Length: 13\r\n"));
    assert!(text.ends_with(body));
}

#[test]
fn content_length_of_empty_and_long_bodies() {
    let empty = String::from_utf8(http_server::handlers::file("")).unwrap();
    assert!(empty.contains("\r\nContent-Length: 0\r\n"));
    assert!(empty.ends_with("\r\n\r\n"));
    let long = "x".repeat(12345);
    let text = String::from_utf8(http_server::handlers::file(&long)).unwrap();
    assert!(text.contains("\r\nContent-Length: 12345\r\n"));
}

#[test]
fn file_bytes_need_not_be_text() {
    let body = [0xffu8, 0x00, 0xfe, 0x80];
    let resp = file_bytes(&body);
    let head = b"HTTP/1.1 200 OK\r\nContent-Length: 4\r\nContent-Type: text/html\r\n\r\n";
    assert_eq!(&resp[..head.len()], &head[..]);
    assert_eq!(&resp[head.len()..], &body[..]);
}

#[test]
fn status_codes_and_reasons() {
    let all = [
        (HTTPStatus::OK, 200, "OK"),
        (HTTPStatus::BadRequest, 400, "Bad Request"),
        (HTTPStatus::NotFound, 404, "Not Found"),
        (HTTPStatus::MethodNotAllowed, 405, "Method Not Allowed"),
        (HTTPStatus::RequestTimeout, 408, "Request Timeout"),
        (HTTPStatus::ContentTooLarge, 413, "Content Too Large"),
        (HTTPStatus::ServiceUnavailable, 503, "Service Unavailable"),
    ];
    for (status, code, reason) in all {
        assert_eq!(status.code(), code);
        assert_eq!(status.reason(), reason);
    }
}

#[test]
fn notices_repeat_their_status_in_the_body() {
    let cases: [(Vec<u8>, &str); 5] = [
        (bad_request(), "400 Bad Request"),
        (not_found(), "404 Not Found"),
        (method_not_allowed(), "405 Method Not Allowed"),
        (request_timeout(), "408 Request Timeout"),
        (content_too_large(), "413 Content Too Large"),
    ];
    for (resp, line) in cases {
        let text = String::from_utf8(resp).unwrap();
        let expected = format!(
            "HTTP/1.1 {}\r\nContent-Length: {}\r\nContent-Type: text/plain\r\n\r\n{}",
            line,
            line.len(),
            line
        );
        assert_eq!(text, expected);
    }
}
