use simple_http_client::request::{get_request, post_request};
use simple_http_client::response::extract_body;

#[test]
fn get_request_is_exact() {
    assert_eq!(
        get_request("example.com", "/post"),
        "GET /post HTTP/1.1\r\nHost: example.com\r\nConnection: close\r\n\r\n"
    );
}

#[test]
fn post_request_is_exact() {
    assert_eq!(
        post_request("example.com", "/post", "Hello from World!"),
        "POST /post HTTP/1.1\r\nHost: example.com\r\nContent-Type: text/plain\r\n\
         Content-Length: 17\r\nConnection: close\r\n\r\nHello from World!"
    );
}

#[test]
fn post_request_declares_length_and_ends_with_body() {
    let body = "Hello from World!";
    assert_eq!(body.len(), 17);
    let text = post_request("example.com", "/post", body);
    assert!(text.contains("\r\nContent-Length: 17\r\n"));
    assert!(text.ends_with("\r\n\r\nHello from World!"));
    let (_, after_blank_line) = text.split_once("\r\n\r\n").unwrap();
    assert_eq!(after_blank_line, body);
}

#[test]
fn content_length_counts_bytes_not_characters() {
    let body = "h\u{e9}llo \u{4e16}\u{754c} \u{1f600}";
    assert_eq!(body.chars().count(), 10);
    assert_eq!(body.len(), 18);
    let text = post_request("example.com", "/", body);
    assert!(text.contains("\r\nContent-Length: 18\r\n"));
    assert!(text.ends_with(body));
}

#[test]
fn empty_post_body_has_length_zero() {
    assert_eq!(
        post_request("h", "/", ""),
        "POST / HTTP/1.1\r\nHost: h\r\nContent-Type: text/plain\r\n\
         Content-Length: 0\r\nConnection: close\r\n\r\n"
    );
}

#[test]
fn every_request_asks_to_close_the_connection() {
    assert!(get_request("h", "/").contains("\r\nConnection: close\r\n"));
    assert!(post_request("h", "/", "x").contains("\r\nConnection: close\r\n"));
}

#[test]
fn body_of_a_post_request_is_its_body() {
    for body in ["", "x", "Hello from World!", "\r\n\r\n", "\n\r\n\r\n tail", "a\r\n\r\nb\r\n\r\nc"] {
        assert_eq!(extract_body(post_request("example.com", "/post", body)), body);
    }
}

#[test]
fn get_request_has_no_body() {
    assert_eq!(extract_body(get_request("example.com", "/post")), "");
}
