use worker_pool::http::{route, starts_with, status_line, Page, Route, Status};

#[test]
fn index_request_gets_hello_page() {
    let r = route(b"GET / HTTP/1.1\r\nHost: localhost\r\n\r\n");
    assert_eq!(r, Route { status: Status::Okay, page: Page::Hello, slow: false });
}

#[test]
fn sleep_request_is_slow() {
    let r = route(b"GET /sleep HTTP/1.1\r\n\r\n");
    assert_eq!(r, Route { status: Status::NotFound, page: Page::Hello, slow: true });
}

#[test]
fn other_request_gets_missing_page() {
    let r = route(b"GET /other HTTP/1.1\r\n\r\n");
    assert_eq!(r, Route { status: Status::Okay, page: Page::Missing, slow: false });
    let empty = route(b"");
    assert_eq!(empty, Route { status: Status::Okay, page: Page::Missing, slow: false });
}

#[test]
fn prefix_checks() {
    assert!(starts_with(b"abc", b""));
    assert!(starts_with(b"abc", b"ab"));
    assert!(starts_with(b"abc", b"abc"));
    assert!(!starts_with(b"abc", b"abcd"));
    assert!(!starts_with(b"abc", b"ac"));
}

#[test]
fn status_lines() {
    assert_eq!(status_line(Status::Okay), "HTTP/1.1 200 OK\r\n\r\n");
    assert_eq!(status_line(Status::NotFound), "HTTP/1.1 404 NOT FOUND\r\n\r\n");
}
