use simple_http_client::error::ClientError;
use simple_http_client::exchange::{
    select_backend, Action, Backend, Backends, Event, Exchange, Phase, Progress,
};
use simple_http_client::target::ParsedTarget;

fn example() -> ParsedTarget {
    ParsedTarget { host: "example.com".to_string(), path: "/post".to_string(), port: 8080 }
}

fn pending(progress: Progress) -> Exchange {
    match progress {
        Progress::Pending(exchange) => exchange,
        Progress::Finished(result) => panic!("finished early: {:?}", result),
    }
}

fn unexpected() -> Progress {
    Progress::Finished(Err(ClientError::IoFailure("unexpected event".to_string())))
}

#[test]
fn tokio_comes_first_then_smol() {
    assert_eq!(select_backend(Backends { tokio: true, smol: true }), Ok(Backend::Tokio));
    assert_eq!(select_backend(Backends { tokio: true, smol: false }), Ok(Backend::Tokio));
    assert_eq!(select_backend(Backends { tokio: false, smol: true }), Ok(Backend::Smol));
}

#[test]
fn no_backend_is_unsupported() {
    assert_eq!(
        select_backend(Backends { tokio: false, smol: false }),
        Err(ClientError::UnsupportedConfiguration)
    );
}

#[test]
fn exchange_begins_by_connecting() {
    let exchange = Exchange::begin(Backend::Smol, &example(), "request".to_string());
    assert_eq!(exchange.backend, Backend::Smol);
    assert_eq!(exchange.phase, Phase::Connecting);
    assert_eq!(exchange.address, "example.com:8080");
    assert_eq!(exchange.request, "request");
    assert_eq!(exchange.pending(), Action::Connect("example.com:8080".to_string()));
}

#[test]
fn get_exchange_carries_the_get_request() {
    let exchange = Exchange::get(Backend::Tokio, &example());
    assert_eq!(exchange.backend, Backend::Tokio);
    assert_eq!(exchange.phase, Phase::Connecting);
    assert_eq!(exchange.address, "example.com:8080");
    assert_eq!(
        exchange.request,
        "GET /post HTTP/1.1\r\nHost: example.com\r\nConnection: close\r\n\r\n"
    );
}

#[test]
fn post_exchange_carries_the_post_request() {
    let exchange = Exchange::post(Backend::Smol, &example(), "Hello from World!");
    assert_eq!(exchange.phase, Phase::Connecting);
    assert_eq!(
        exchange.request,
        "POST /post HTTP/1.1\r\nHost: example.com\r\nContent-Type: text/plain\r\n\
         Content-Length: 17\r\nConnection: close\r\n\r\nHello from World!"
    );
}

#[test]
fn exchange_connects_sends_receives_and_ends_with_the_body() {
    let exchange = Exchange::get(Backend::Tokio, &example());
    let request = exchange.request.clone();
    assert_eq!(exchange.pending(), Action::Connect("example.com:8080".to_string()));

    let exchange = pending(exchange.advance(Event::Connected));
    assert_eq!(exchange.phase, Phase::Sending);
    assert_eq!(exchange.pending(), Action::Send(request.clone()));

    let exchange = pending(exchange.advance(Event::Sent));
    assert_eq!(exchange.phase, Phase::Receiving);
    assert_eq!(exchange.request, request);
    assert_eq!(exchange.address, "example.com:8080");
    assert_eq!(exchange.backend, Backend::Tokio);
    assert_eq!(exchange.pending(), Action::Receive);

    let raw = "HTTP/1.1 200 OK\r\nContent-Type: text/plain\r\n\r\nHello from World!";
    assert_eq!(
        exchange.advance(Event::Received(raw.to_string())),
        Progress::Finished(Ok("Hello from World!".to_string()))
    );
}

#[test]
fn response_without_headers_is_the_body() {
    let exchange = pending(Exchange::get(Backend::Smol, &example()).advance(Event::Connected));
    let exchange = pending(exchange.advance(Event::Sent));
    assert_eq!(
        exchange.advance(Event::Received("just text".to_string())),
        Progress::Finished(Ok("just text".to_string()))
    );
}

#[test]
fn error_status_is_no_error() {
    let exchange = pending(Exchange::get(Backend::Smol, &example()).advance(Event::Connected));
    let exchange = pending(exchange.advance(Event::Sent));
    assert_eq!(
        exchange.advance(Event::Received("HTTP/1.1 500 Oops\r\n\r\nerror page".to_string())),
        Progress::Finished(Ok("error page".to_string()))
    );
}

#[test]
fn failure_to_connect_is_a_connection_failure() {
    let exchange = Exchange::get(Backend::Tokio, &example());
    assert_eq!(
        exchange.advance(Event::Failed("connection refused".to_string())),
        Progress::Finished(Err(ClientError::ConnectionFailure("connection refused".to_string())))
    );
}

#[test]
fn failure_to_send_is_an_io_failure() {
    let exchange = pending(Exchange::get(Backend::Tokio, &example()).advance(Event::Connected));
    assert_eq!(
        exchange.advance(Event::Failed("broken pipe".to_string())),
        Progress::Finished(Err(ClientError::IoFailure("broken pipe".to_string())))
    );
}

#[test]
fn failure_to_receive_is_an_io_failure() {
    let exchange = pending(Exchange::get(Backend::Tokio, &example()).advance(Event::Connected));
    let exchange = pending(exchange.advance(Event::Sent));
    assert_eq!(
        exchange.advance(Event::Failed("connection reset".to_string())),
        Progress::Finished(Err(ClientError::IoFailure("connection reset".to_string())))
    );
}

#[test]
fn event_out_of_turn_ends_the_exchange() {
    let connecting = Exchange::get(Backend::Tokio, &example());
    let sending = pending(connecting.clone().advance(Event::Connected));
    let receiving = pending(sending.clone().advance(Event::Sent));

    assert_eq!(connecting.clone().advance(Event::Sent), unexpected());
    assert_eq!(connecting.advance(Event::Received("x".to_string())), unexpected());
    assert_eq!(sending.clone().advance(Event::Connected), unexpected());
    assert_eq!(sending.advance(Event::Received("x".to_string())), unexpected());
    assert_eq!(receiving.clone().advance(Event::Connected), unexpected());
    assert_eq!(receiving.advance(Event::Sent), unexpected());
}

#[test]
fn no_step_leads_back_to_connecting() {
    let connecting = Exchange::get(Backend::Tokio, &example());
    let sending = pending(connecting.clone().advance(Event::Connected));
    let receiving = pending(sending.clone().advance(Event::Sent));
    for exchange in [connecting, sending, receiving] {
        let events = [
            Event::Connected,
            Event::Sent,
            Event::Received("x".to_string()),
            Event::Failed("y".to_string()),
        ];
        for event in events {
            if let Progress::Pending(next) = exchange.clone().advance(event) {
                assert_ne!(next.phase, Phase::Connecting);
                assert!(!matches!(next.pending(), Action::Connect(_)));
            }
        }
    }
}
