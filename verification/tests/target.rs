use simple_http_client::error::ClientError;
use simple_http_client::target::{
    is_bare_path, is_host_and_port, is_single_line, needs_port_reading, needs_scheme,
    opens_with_port, parse_target, port_of, prefix_scheme, put_under_http, resolve_target,
    ParsedTarget, UrlVerdict, DEFAULT_PORT,
};

fn target(host: &str, path: &str, port: u16) -> ParsedTarget {
    ParsedTarget { host: host.to_string(), path: path.to_string(), port }
}

fn parsed(host: Option<&str>, path: &str, port: Option<u16>) -> UrlVerdict {
    UrlVerdict::Parsed {
        host: host.map(String::from),
        path: path.to_string(),
        port,
        port_or_default: port,
    }
}

/// The verdict on a URL of a scheme with the default port `default`, where
/// the parser reports no port.
fn parsed_under(default: u16, host: &str, path: &str) -> UrlVerdict {
    UrlVerdict::Parsed {
        host: Some(host.to_string()),
        path: path.to_string(),
        port: None,
        port_or_default: Some(default),
    }
}

fn missing_host() -> Result<ParsedTarget, ClientError> {
    Err(ClientError::InvalidInput("Missing host".to_string()))
}

#[test]
fn url_with_path_gives_host_path_and_default_port() {
    assert_eq!(parse_target("http://example.com/foo"), Ok(target("example.com", "/foo", 80)));
}

#[test]
fn url_without_path_defaults_to_root() {
    assert_eq!(parse_target("http://example.com"), Ok(target("example.com", "/", 80)));
}

#[test]
fn url_with_port_keeps_it() {
    assert_eq!(parse_target("http://example.com:8080/x"), Ok(target("example.com", "/x", 8080)));
}

#[test]
fn string_that_is_no_url_is_invalid_input() {
    let error = parse_target("not a url").unwrap_err();
    assert!(matches!(error, ClientError::InvalidInput(_)));
}

#[test]
fn empty_string_is_invalid_input() {
    assert_eq!(parse_target(""), Err(ClientError::InvalidInput("empty host".to_string())));
}

#[test]
fn url_without_host_is_refused_by_name() {
    assert_eq!(
        parse_target("mailto:someone@example.com"),
        Err(ClientError::InvalidInput("Missing host".to_string()))
    );
    assert_eq!(
        parse_target("data:text/plain,Stuff"),
        Err(ClientError::InvalidInput("Missing host".to_string()))
    );
}

#[test]
fn malformed_url_is_refused_with_the_parsers_reason() {
    assert_eq!(
        parse_target("http://example.com:99999/"),
        Err(ClientError::InvalidInput("invalid port number".to_string()))
    );
    assert_eq!(
        parse_target("http://[::1/"),
        Err(ClientError::InvalidInput("invalid IPv6 address".to_string()))
    );
}

#[test]
fn missing_scheme_is_no_error() {
    assert_eq!(parse_target("example.com/foo"), Ok(target("example.com", "/foo", 80)));
    assert_eq!(parse_target("example.com"), Ok(target("example.com", "/", 80)));
    assert_eq!(parse_target("//example.com:81/a/b"), Ok(target("example.com", "/a/b", 81)));
}

#[test]
fn host_and_port_without_scheme_is_no_error() {
    assert_eq!(parse_target("example.com:8080/x"), Ok(target("example.com", "/x", 8080)));
    assert_eq!(parse_target("localhost:3000"), Ok(target("localhost", "/", 3000)));
    assert_eq!(parse_target("example.com:80/x"), Ok(target("example.com", "/x", 80)));
    assert_eq!(parse_target("example.com:443"), Ok(target("example.com", "/", 443)));
    assert_eq!(parse_target("example.com:8080?q=1"), Ok(target("example.com", "/", 8080)));
    assert_eq!(parse_target("localhost:00080/a/b"), Ok(target("localhost", "/a/b", 80)));
}

#[test]
fn what_follows_the_colon_must_be_a_port_to_make_a_host_of_the_scheme() {
    assert_eq!(parse_target("example.com:x"), missing_host());
    assert_eq!(parse_target("example.com:/x"), missing_host());
    assert_eq!(parse_target("example.com:80x/y"), missing_host());
    assert_eq!(parse_target("tel:5551234"), missing_host());
    assert_eq!(
        parse_target("example.com:99999"),
        Err(ClientError::InvalidInput("invalid port number".to_string()))
    );
}

#[test]
fn written_port_is_kept_where_it_is_the_default_of_the_scheme() {
    assert_eq!(parse_target("https://example.com:443/x"), Ok(target("example.com", "/x", 443)));
    assert_eq!(parse_target("ftp://h:21/"), Ok(target("h", "/", 21)));
    assert_eq!(parse_target("wss://h:443/"), Ok(target("h", "/", 443)));
    assert_eq!(parse_target("ws://h:80/"), Ok(target("h", "/", 80)));
    assert_eq!(parse_target("http://h:80/"), Ok(target("h", "/", 80)));
    assert_eq!(parse_target("  HTTPS://Example.COM:443/x"), Ok(target("example.com", "/x", 443)));
    assert_eq!(parse_target("https://user:pw@example.com:443/x"), Ok(target("example.com", "/x", 443)));
    assert_eq!(parse_target("https://[::1]:443/"), Ok(target("[::1]", "/", 443)));
}

#[test]
fn unwritten_port_is_80_whatever_the_scheme() {
    for url in ["https://h/", "ftp://h/", "ws://h", "wss://h/", "http://h/", "foo://h/", "h"] {
        assert_eq!(parse_target(url).unwrap().port, 80);
    }
}

#[test]
fn other_written_ports_are_kept() {
    assert_eq!(parse_target("https://h:80/").unwrap().port, 80);
    assert_eq!(parse_target("https://h:8443/").unwrap().port, 8443);
    assert_eq!(parse_target("ftp://h:443/").unwrap().port, 443);
    assert_eq!(parse_target("foo://h:443/").unwrap().port, 443);
}

#[test]
fn bare_path_names_no_host() {
    assert_eq!(parse_target("/foo"), missing_host());
    assert_eq!(parse_target("/"), missing_host());
    assert_eq!(parse_target("\\foo"), missing_host());
    assert_eq!(parse_target("/foo/bar?x#y"), missing_host());
}

#[test]
fn scheme_is_accepted_but_ignored() {
    assert_eq!(parse_target("https://example.com/secure"), Ok(target("example.com", "/secure", 80)));
    assert_eq!(parse_target("ftp://example.com:2121/pub"), Ok(target("example.com", "/pub", 2121)));
}

#[test]
fn path_of_unknown_scheme_defaults_to_root() {
    assert_eq!(parse_target("foo://example.com"), Ok(target("example.com", "/", 80)));
}

#[test]
fn query_and_fragment_are_not_part_of_the_path() {
    assert_eq!(parse_target("http://example.com/a?b=c#d"), Ok(target("example.com", "/a", 80)));
}

#[test]
fn ip_hosts_are_kept_as_written_in_urls() {
    assert_eq!(parse_target("http://127.0.0.1:3000/"), Ok(target("127.0.0.1", "/", 3000)));
    assert_eq!(parse_target("http://[::1]:3000/"), Ok(target("[::1]", "/", 3000)));
}

#[test]
fn parser_is_really_asked() {
    // Upper case in scheme and host, dot segments in the path: only a URL
    // parser gives this answer.
    assert_eq!(parse_target("HTTP://EXAMPLE.com/a/../b"), Ok(target("example.com", "/b", 80)));
}

#[test]
fn resolve_keeps_host_path_and_port() {
    assert_eq!(
        resolve_target(parsed(Some("example.com"), "/foo", Some(8080)), None),
        Ok(target("example.com", "/foo", 8080))
    );
    assert_eq!(
        resolve_target(parsed(Some("example.com"), "/foo", Some(8080)), Some(1)),
        Ok(target("example.com", "/foo", 8080))
    );
}

#[test]
fn resolve_fills_in_the_defaults() {
    assert_eq!(DEFAULT_PORT, 80);
    assert_eq!(
        resolve_target(parsed(Some("example.com"), "", None), None),
        Ok(target("example.com", "/", 80))
    );
    assert_eq!(
        resolve_target(parsed_under(443, "example.com", "/"), None),
        Ok(target("example.com", "/", 80))
    );
}

#[test]
fn resolve_takes_the_written_port_before_the_default() {
    assert_eq!(
        resolve_target(parsed_under(443, "example.com", "/x"), Some(443)),
        Ok(target("example.com", "/x", 443))
    );
    assert_eq!(
        resolve_target(parsed_under(21, "h", "/"), Some(21)),
        Ok(target("h", "/", 21))
    );
}

#[test]
fn resolve_refuses_absent_and_empty_host() {
    assert_eq!(resolve_target(parsed(None, "/foo", Some(80)), None), missing_host());
    assert_eq!(resolve_target(parsed(Some(""), "/foo", Some(80)), Some(81)), missing_host());
}

#[test]
fn resolve_refuses_line_breaks_in_host_and_path() {
    let refused = Err(ClientError::InvalidInput("Line break in host or path".to_string()));
    assert_eq!(resolve_target(parsed(Some("a\r\nb"), "/", None), None), refused);
    assert_eq!(resolve_target(parsed(Some("h"), "/a\nb", None), None), refused);
    assert_eq!(resolve_target(parsed(Some("h"), "/a\rb", None), None), refused);
    assert_eq!(resolve_target(parsed(Some("h\u{e9}"), "/\u{4e16}", None), None), Ok(target("h\u{e9}", "/\u{4e16}", 80)));
}

#[test]
fn single_line_means_no_carriage_return_and_no_line_feed() {
    for text in ["", "abc", "a b\tc", "\u{e9}\u{4e16}\u{1f600}"] {
        assert!(is_single_line(text));
    }
    for text in ["\n", "\r", "a\r\nb", "\u{1f600}\n", "abc\r"] {
        assert!(!is_single_line(text));
    }
}

#[test]
fn bare_path_begins_with_one_slash() {
    for url in ["/", "/foo", "\\", "\\foo", "/\u{e9}"] {
        assert!(is_bare_path(url));
    }
    for url in ["", "foo", "//foo", "/\\foo", "\\/foo", "\\\\foo", "a/", "\u{e9}/"] {
        assert!(!is_bare_path(url));
    }
}

#[test]
fn port_is_one_to_five_digits_before_end_or_slash() {
    for path in ["8", "80", "8080", "65535", "00080", "8080/", "8080/x", "3000/a/b"] {
        assert!(opens_with_port(path));
    }
    for path in ["", "/", "x", "80x", "80x/", "123456", "123456/x", "/8080", "80\\x", "someone@example.com", "8\u{e9}"] {
        assert!(!opens_with_port(path));
    }
}

#[test]
fn host_and_port_is_a_hostless_verdict_whose_path_opens_with_a_port() {
    assert!(is_host_and_port(&parsed(None, "8080/x", None)));
    assert!(is_host_and_port(&parsed(Some(""), "3000", None)));
    assert!(!is_host_and_port(&parsed(Some("h"), "8080/x", None)));
    assert!(!is_host_and_port(&parsed(None, "someone@example.com", None)));
    assert!(!is_host_and_port(&UrlVerdict::Rejected { lacks_scheme: true, reason: "8080".to_string() }));
}

#[test]
fn port_is_read_again_only_under_a_scheme_with_another_default() {
    assert!(needs_port_reading(&parsed_under(443, "h", "/")));
    assert!(needs_port_reading(&parsed_under(21, "h", "/")));
    assert!(!needs_port_reading(&parsed_under(80, "h", "/")));
    assert!(!needs_port_reading(&parsed(Some("h"), "/", None)));
    assert!(!needs_port_reading(&parsed(Some("h"), "/", Some(443))));
    assert!(!needs_port_reading(&UrlVerdict::Rejected { lacks_scheme: false, reason: String::new() }));
}

#[test]
fn scheme_gives_way_to_http() {
    assert_eq!(put_under_http("https://example.com:443/x"), "http://example.com:443/x");
    assert_eq!(put_under_http("  WSS://h:443/a:b"), "http://h:443/a:b");
    assert_eq!(put_under_http("\u{e9}\u{4e16}:x"), "http:x");
    assert_eq!(put_under_http(":"), "http:");
    assert_eq!(put_under_http("no colon"), "no colon");
    assert_eq!(put_under_http(""), "");
}

#[test]
fn port_of_a_verdict() {
    assert_eq!(port_of(&parsed(Some("h"), "/", Some(443))), Some(443));
    assert_eq!(port_of(&parsed_under(443, "h", "/")), None);
    assert_eq!(port_of(&UrlVerdict::Rejected { lacks_scheme: false, reason: String::new() }), None);
}

#[test]
fn resolve_hands_on_the_reason_of_a_rejection() {
    for lacks_scheme in [false, true] {
        let verdict = UrlVerdict::Rejected { lacks_scheme, reason: "invalid port number".to_string() };
        assert_eq!(
            resolve_target(verdict, None),
            Err(ClientError::InvalidInput("invalid port number".to_string()))
        );
    }
}

#[test]
fn only_a_missing_scheme_asks_for_a_second_reading() {
    let relative = UrlVerdict::Rejected {
        lacks_scheme: true,
        reason: "relative URL without a base".to_string(),
    };
    let malformed =
        UrlVerdict::Rejected { lacks_scheme: false, reason: "invalid port number".to_string() };
    assert!(needs_scheme(&relative));
    assert!(!needs_scheme(&malformed));
    assert!(!needs_scheme(&parsed(Some("example.com"), "/", None)));
    assert!(!needs_scheme(&parsed(None, "x", None)));
}

#[test]
fn second_reading_has_http_in_front() {
    assert_eq!(prefix_scheme("example.com/foo"), "http://example.com/foo");
    assert_eq!(prefix_scheme(""), "http://");
}

#[test]
fn malformed_url_with_scheme_is_not_read_again() {
    // Read again behind `http://`, this input would name the host `http`.
    assert_eq!(
        parse_target("http://exa mple.com/"),
        Err(ClientError::InvalidInput("invalid international domain name".to_string()))
    );
}

#[test]
fn address_is_host_colon_port() {
    assert_eq!(target("example.com", "/", 80).address(), "example.com:80");
    assert_eq!(target("example.com", "/x", 8080).address(), "example.com:8080");
    assert_eq!(target("[::1]", "/", 65535).address(), "[::1]:65535");
    assert_eq!(target("h", "/", 0).address(), "h:0");
}

#[test]
fn parsed_targets_are_well_formed() {
    for url in ["http://example.com", "example.com", "foo://h", "https://a.b/c?d"] {
        let target = parse_target(url).unwrap();
        assert!(!target.host.is_empty());
        assert!(!target.path.is_empty());
    }
}
