use simple_http_client::error::ClientError;

#[test]
fn message_names_kind_and_detail() {
    assert_eq!(
        ClientError::InvalidInput("Missing host".to_string()).message(),
        "invalid input: Missing host"
    );
    assert_eq!(
        ClientError::ConnectionFailure("connection refused".to_string()).message(),
        "connection failed: connection refused"
    );
    assert_eq!(
        ClientError::IoFailure("broken pipe".to_string()).message(),
        "i/o failed: broken pipe"
    );
    assert_eq!(
        ClientError::UnsupportedConfiguration.message(),
        "No async runtime feature enabled"
    );
}

#[test]
fn an_empty_detail_leaves_the_kind() {
    assert_eq!(ClientError::IoFailure(String::new()).message(), "i/o failed: ");
}
