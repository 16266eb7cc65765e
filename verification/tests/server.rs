use http_server::connection::Action;
use http_server::connection::Connection;
use http_server::connection::Event;
use http_server::framer::MAX_REQUEST_SIZE;
use http_server::router::RouteTable;

/// Plays the peers and the surroundings of one connection handler. Each request arrives
/// in reads of at most the size asked for; the next one is sent once the one before has
/// been answered; after the last the peer closes its sending side. The root directory
/// is `/srv/www` and holds no files. Gives back all that was sent.
fn exchange(requests: &[&str]) -> String {
    let routes = RouteTable::standard();
    let mut connection = Connection::new(true, 30, MAX_REQUEST_SIZE);
    let mut current = 0;
    let mut consumed = 0;
    let mut sent: Vec<u8> = Vec::new();
    let mut action = connection.step(Event::Accepted, 0, &routes);
    loop {
        let event = match action {
            Action::Wait { .. } => Event::Readable,
            Action::Read { limit } => {
                if current < requests.len() {
                    let bytes = requests[current].as_bytes();
                    let end = std::cmp::min(bytes.len(), consumed + limit);
                    let data = bytes[consumed..end].to_vec();
                    consumed = end;
                    if consumed == bytes.len() {
                        current += 1;
                        consumed = 0;
                    }
                    Event::Received { data }
                } else {
                    Event::PeerClosed
                }
            }
            Action::ResolveRoot => Event::RootResolved {
                root: Some(vec!["/".to_string(), "srv".to_string(), "www".to_string()]),
            },
            Action::ReadFile { .. } => Event::FileRead { contents: None },
            Action::Send { response, .. } => {
                sent.extend_from_slice(&response);
                Event::Sent
            }
            Action::Close => break,
        };
        action = connection.step(event, 0, &routes);
    }
    String::from_utf8_lossy(&sent).into_owned()
}

fn send_request(request: &str) -> String {
    exchange(&[request])
}

#[test]
fn test_homepage_response() {
    let response = send_request("GET / HTTP/1.1\r\nHost: localhost\r\n\r\n");
    assert!(response.contains("200 OK"), "Response did not contain 200 OK:\n{}", response);
}

#[test]
fn test_400() {
    let response = send_request("GET /../password.txt HTTP/1.1\r\nHost: localhost\r\n\r\n");
    assert!(response.contains("400 Bad Request"), "Expected 400, got:\n{}", response);
}

#[test]
fn test_404() {
    let response = send_request("GET /test HTTP/1.1\r\nHost: localhost\r\n\r\n");
    assert!(response.contains("404 Not Found"), "Response did not contain 404:\n{}", response);
}

#[test]
fn test_405() {
    let response = send_request("PUT / HTTP/1.1\r\nHost: localhost\r\n\r\n");
    assert!(response.contains("405 Method Not Allowed"), "Expected 405, got:\n{}", response);
}

#[test]
fn test_413() {
    let mut large_body =
        "POST / HTTP/1.1\r\nHost: localhost\r\nContent-Length: 9000\r\n\r\n".to_string();
    large_body.push_str(&"A".repeat(9000));
    let response = send_request(&large_body);
    assert!(response.contains("413 Content Too Large"), "Expected 413, got:\n{}", response);
}

#[test]
fn homepage_response_starts_with_status_line() {
    let response = send_request("GET / HTTP/1.1\r\nHost: x\r\n\r\n");
    assert!(response.starts_with("HTTP/1.1 200 OK\r\n"));
    assert_eq!(
        response,
        "HTTP/1.1 200 OK\r\nContent-Length: 22\r\nContent-Type: text/html\r\n\r\n<h1>Welcome home!</h1>"
    );
}

#[test]
fn parent_reference_gets_bad_request() {
    let response = send_request("GET /../secret HTTP/1.1\r\nHost: x\r\n\r\n");
    assert!(response.starts_with("HTTP/1.1 400 Bad Request\r\n"));
}

#[test]
fn put_gets_method_not_allowed() {
    let response = send_request("PUT / HTTP/1.1\r\nHost: x\r\n\r\n");
    assert!(response.starts_with("HTTP/1.1 405 Method Not Allowed\r\n"));
}

#[test]
fn about_page_is_routed() {
    let response = send_request("GET /about HTTP/1.0\r\n\r\n");
    assert_eq!(
        response,
        "HTTP/1.1 200 OK\r\nContent-Length: 17\r\nContent-Type: text/html\r\n\r\n<h1>About us</h1>"
    );
}

#[test]
fn query_string_is_part_of_the_path() {
    let response = send_request("GET /about?x=1 HTTP/1.1\r\n\r\n");
    assert!(response.starts_with("HTTP/1.1 404 Not Found\r\n"));
}

#[test]
fn kept_alive_connection_serves_one_request_after_the_other() {
    let response = exchange(&["GET / HTTP/1.1\r\n\r\n", "GET /about HTTP/1.1\r\n\r\n"]);
    assert_eq!(response.matches("HTTP/1.1 200 OK\r\n").count(), 2);
    assert!(response.contains("<h1>Welcome home!</h1>HTTP/1.1 200 OK"));
    assert!(response.ends_with("<h1>About us</h1>"));
}

#[test]
fn connection_closes_after_a_request_that_asks_for_it() {
    let response =
        exchange(&["GET / HTTP/1.1\r\nConnection: close\r\n\r\n", "GET /about HTTP/1.1\r\n\r\n"]);
    assert_eq!(response.matches("HTTP/1.1 200 OK\r\n").count(), 1);
    assert!(response.ends_with("<h1>Welcome home!</h1>"));
}

#[test]
fn bytes_read_beyond_the_current_request_are_dropped() {
    let response = send_request("GET / HTTP/1.1\r\n\r\nGET /about HTTP/1.1\r\n\r\n");
    assert_eq!(response.matches("HTTP/1.1 200 OK\r\n").count(), 1);
    assert!(response.ends_with("<h1>Welcome home!</h1>"));
}

#[test]
fn connection_closes_after_an_error_response() {
    let response = exchange(&["PUT / HTTP/1.1\r\n\r\n", "GET / HTTP/1.1\r\n\r\n"]);
    assert!(response.starts_with("HTTP/1.1 405 Method Not Allowed\r\n"));
    assert!(!response.contains("200 OK"));
    let response = exchange(&["GET /a/../b HTTP/1.1\r\n\r\n", "GET / HTTP/1.1\r\n\r\n"]);
    assert!(response.starts_with("HTTP/1.1 400 Bad Request\r\n"));
    assert!(!response.contains("200 OK"));
}

#[test]
fn missing_file_leaves_the_connection_open() {
    let response = exchange(&["GET /test HTTP/1.1\r\n\r\n", "GET / HTTP/1.1\r\n\r\n"]);
    assert!(response.starts_with("HTTP/1.1 404 Not Found\r\n"));
    assert!(response.ends_with("<h1>Welcome home!</h1>"));
}
