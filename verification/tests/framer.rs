use http_server::framer::contains_terminator;
use http_server::framer::FrameStatus;
use http_server::framer::RequestFramer;
use http_server::framer::MAX_REQUEST_SIZE;

#[test]
fn terminator_is_found_anywhere() {
    assert!(contains_terminator(b"\r\n\r\n"));
    assert!(contains_terminator(b"GET / HTTP/1.1\r\n\r\n"));
    assert!(contains_terminator(b"GET / HTTP/1.1\r\nHost: x\r\n\r\nbody body"));
    assert!(contains_terminator(b"\r\r\n\r\n\n"));
    assert!(contains_terminator(b"\r\n\r\r\n\r\n"));
}

#[test]
fn terminator_needs_all_four_bytes_in_order() {
    assert!(!contains_terminator(b""));
    assert!(!contains_terminator(b"\r\n\r"));
    assert!(!contains_terminator(b"\r\n"));
    assert!(!contains_terminator(b"\n\r\n\r"));
    assert!(!contains_terminator(b"\r\n \r\n"));
    assert!(!contains_terminator(b"\n\n"));
    assert!(!contains_terminator(b"GET / HTTP/1.1\r\nHost: x\r\n"));
}

#[test]
fn terminator_may_span_reads() {
    let mut framer = RequestFramer::new(MAX_REQUEST_SIZE);
    assert_eq!(framer.push(b"GET / HTTP/1.1\r"), FrameStatus::Incomplete);
    assert_eq!(framer.push(b"\n"), FrameStatus::Incomplete);
    assert_eq!(framer.push(b"\r"), FrameStatus::Incomplete);
    assert_eq!(framer.push(b"\n"), FrameStatus::Complete);
    assert_eq!(framer.buffer(), b"GET / HTTP/1.1\r\n\r\n");
    assert_eq!(framer.status(), FrameStatus::Complete);
}

#[test]
fn size_is_judged_before_the_terminator() {
    let mut framer = RequestFramer::new(8);
    assert_eq!(framer.limit(), 8);
    assert_eq!(framer.push(b"ab\r\n\r\n"), FrameStatus::Complete);
    assert_eq!(framer.push(b"c"), FrameStatus::Complete);
    assert_eq!(framer.push(b"d"), FrameStatus::TooLarge);
    assert_eq!(framer.push(b"e"), FrameStatus::TooLarge);
}

#[test]
fn exactly_the_limit_is_too_large_and_one_less_is_not() {
    let mut head = b"GET / HTTP/1.1\r\nX: ".to_vec();
    let filler = MAX_REQUEST_SIZE - head.len() - 4;
    head.extend(std::iter::repeat(b'a').take(filler));
    head.extend_from_slice(b"\r\n\r\n");
    assert_eq!(head.len(), MAX_REQUEST_SIZE);

    let mut at_limit = RequestFramer::new(MAX_REQUEST_SIZE);
    assert_eq!(at_limit.push(&head), FrameStatus::TooLarge);

    let mut no_terminator = RequestFramer::new(MAX_REQUEST_SIZE);
    assert_eq!(no_terminator.push(&vec![b'a'; MAX_REQUEST_SIZE]), FrameStatus::TooLarge);

    let mut under = RequestFramer::new(MAX_REQUEST_SIZE);
    assert_eq!(under.push(&head[1..]), FrameStatus::Complete);

    let mut under_open = RequestFramer::new(MAX_REQUEST_SIZE);
    assert_eq!(under_open.push(&vec![b'a'; MAX_REQUEST_SIZE - 1]), FrameStatus::Incomplete);
}

#[test]
fn reset_empties_the_accumulator() {
    let mut framer = RequestFramer::new(16);
    assert_eq!(framer.push(b"0123456789abcdefXYZ"), FrameStatus::TooLarge);
    framer.reset();
    assert_eq!(framer.buffer(), b"");
    assert_eq!(framer.limit(), 16);
    assert_eq!(framer.status(), FrameStatus::Incomplete);
    assert_eq!(framer.push(b"\r\n\r\n"), FrameStatus::Complete);
}

#[test]
fn a_limit_of_zero_refuses_everything() {
    let mut framer = RequestFramer::new(0);
    assert_eq!(framer.status(), FrameStatus::TooLarge);
    assert_eq!(framer.push(b"\r\n\r\n"), FrameStatus::TooLarge);
}
