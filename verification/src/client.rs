//! The client: one call, one exchange.

use vstd::prelude::*;
use crate::error::{ClientError, ErrorModel};
use crate::exchange::{
    lemma_served_exchange_yields_body, select_backend, selected_backend, served, Backends,
    EventModel, Exchange, ExchangeModel, Phase, ProgressModel,
};
use crate::request::{lemma_get_has_no_body, lemma_post_body_follows_blank_line};
use crate::response::body_of;
use crate::target::{lemma_target_is_well_formed, parse_target, target_of};

verus! {

/// A plain-text HTTP/1.1 client for GET and POST.
///
/// The client holds nothing: every call stands for itself, with its own
/// exchange and, in the caller's hands, its own socket.
#[derive(Debug, Clone, Copy, PartialEq, Eq)]
pub struct SimpleHttpClient;

/// The exchange that a GET of `url` begins, or the error with which the call fails.
///
/// Without a backend the call fails as unsupported, whatever the URL. With
/// one, a URL that has no target fails as invalid input.
pub open spec fn get_call(available: Backends, url: Seq<char>) -> Result<
    ExchangeModel,
    ErrorModel,
> {
    match selected_backend(available) {
        None => Err(ErrorModel::UnsupportedConfiguration),
        Some(backend) => match target_of(url) {
            Ok(target) => Ok(ExchangeModel::get(backend, target)),
            Err(error) => Err(error),
        },
    }
}

/// The exchange that a POST of `body` to `url` begins, or the error with
/// which the call fails.
pub open spec fn post_call(available: Backends, url: Seq<char>, body: Seq<char>) -> Result<
    ExchangeModel,
    ErrorModel,
> {
    match selected_backend(available) {
        None => Err(ErrorModel::UnsupportedConfiguration),
        Some(backend) => match target_of(url) {
            Ok(target) => Ok(ExchangeModel::post(backend, target, body)),
            Err(error) => Err(error),
        },
    }
}

/// Whether a result and its model say the same.
pub open spec fn same_call(
    result: Result<Exchange, ClientError>,
    model: Result<ExchangeModel, ErrorModel>,
) -> bool {
    match result {
        Ok(exchange) => model == Ok::<ExchangeModel, ErrorModel>(exchange@),
        Err(error) => model == Err::<ExchangeModel, ErrorModel>(error@),
    }
}

impl SimpleHttpClient {
    /// Begins an HTTP GET of `url`.
    ///
    /// The exchange that comes back is to be driven on the backend it names;
    /// it ends with the response body.
    pub fn get(available: Backends, url: &str) -> (result: Result<Exchange, ClientError>)
        ensures
            same_call(result, get_call(available, url@)),
            result matches Ok(exchange) ==> body_of(exchange@.request) == Seq::<char>::empty(),
    {
        proof {
            if get_call(available, url@) is Ok {
                lemma_request_carries_body(available, url@, None);
            }
        }
        match select_backend(available) {
            Err(error) => Err(error),
            Ok(backend) => match parse_target(url) {
                Err(error) => Err(error),
                Ok(target) => Ok(Exchange::get(backend, &target)),
            },
        }
    }

    /// Begins an HTTP POST of the plain text `body` to `url`.
    ///
    /// Whatever the URL and the body hold, the first blank line of the
    /// request is the one that ends its head, and the body follows it as it
    /// is.
    pub fn post(available: Backends, url: &str, body: &str) -> (result: Result<
        Exchange,
        ClientError,
    >)
        ensures
            same_call(result, post_call(available, url@, body@)),
            result matches Ok(exchange) ==> body_of(exchange@.request) == body@,
    {
        proof {
            if post_call(available, url@, body@) is Ok {
                lemma_request_carries_body(available, url@, Some(body@));
            }
        }
        match select_backend(available) {
            Err(error) => Err(error),
            Ok(backend) => match parse_target(url) {
                Err(error) => Err(error),
                Ok(target) => Ok(Exchange::post(backend, &target, body)),
            },
        }
    }
}

/// The exchange that a call begins, or the error with which it fails: a GET
/// where there is no body to send, a POST where there is one.
pub open spec fn call(available: Backends, url: Seq<char>, body: Option<Seq<char>>) -> Result<
    ExchangeModel,
    ErrorModel,
> {
    match body {
        None => get_call(available, url),
        Some(text) => post_call(available, url, text),
    }
}

/// What a call sends ends with its first blank line and the body of the
/// call: a peer that splits the request there finds the body as it was
/// given, and for a GET nothing. No URL can put a blank line into the head.
pub proof fn lemma_request_carries_body(
    available: Backends,
    url: Seq<char>,
    body: Option<Seq<char>>,
)
    requires
        call(available, url, body) is Ok,
    ensures
        body_of(call(available, url, body)->Ok_0.request) == match body {
            Some(text) => text,
            None => Seq::<char>::empty(),
        },
{
    lemma_target_is_well_formed(url);
    let target = target_of(url)->Ok_0;
    match body {
        Some(text) => lemma_post_body_follows_blank_line(target.host, target.path, text),
        None => lemma_get_has_no_body(target.host, target.path),
    }
}

/// Asking twice gives the same. Two calls with the same backends at hand,
/// the same URL and the same body, if any, either both fail, with the same
/// error, or begin the same exchange; and where the peer then sends both the
/// same, both end with the same body. A call takes nothing from the calls
/// before it.
pub proof fn lemma_call_is_repeatable(
    available: Backends,
    url: Seq<char>,
    body: Option<Seq<char>>,
    first: Result<Exchange, ClientError>,
    second: Result<Exchange, ClientError>,
    raw: Seq<char>,
)
    requires
        same_call(first, call(available, url, body)),
        same_call(second, call(available, url, body)),
    ensures
        first is Ok <==> second is Ok,
        first is Err ==> first->Err_0@ == second->Err_0@,
        first is Ok ==> {
            &&& first->Ok_0@ == second->Ok_0@
            &&& ProgressModel::Pending(first->Ok_0@).run(served(raw)) == ProgressModel::Finished(
                Ok(body_of(raw)),
            )
            &&& ProgressModel::Pending(second->Ok_0@).run(served(raw)) == ProgressModel::Finished(
                Ok(body_of(raw)),
            )
        },
{
    if first is Ok {
        lemma_served_exchange_yields_body(first->Ok_0@, raw);
    }
}

/// A failed call leaves nothing behind. A call whose connection cannot be
/// opened ends with that connection failure; and a call made after it, with
/// any URL that has a target, begins as it would have begun without the
/// failure and, served by its peer, ends with the body of what the peer sent.
pub proof fn lemma_failure_is_isolated(
    available: Backends,
    failing_url: Seq<char>,
    failing_body: Option<Seq<char>>,
    reason: Seq<char>,
    url: Seq<char>,
    body: Option<Seq<char>>,
    raw: Seq<char>,
)
    requires
        call(available, failing_url, failing_body) is Ok,
        call(available, url, body) is Ok,
    ensures
        ProgressModel::Pending(call(available, failing_url, failing_body)->Ok_0).run(
            seq![EventModel::Failed(reason)],
        ) == ProgressModel::Finished(Err(ErrorModel::ConnectionFailure(reason))),
        ProgressModel::Pending(call(available, url, body)->Ok_0).run(served(raw))
            == ProgressModel::Finished(Ok(body_of(raw))),
{
    reveal_with_fuel(ProgressModel::run, 2);
    let failing = call(available, failing_url, failing_body)->Ok_0;
    assert(failing.phase == Phase::Connecting);
    let events = seq![EventModel::Failed(reason)];
    assert(events.drop_first() =~= Seq::<EventModel>::empty());
    assert(failing.step(events[0]) == ProgressModel::Finished(
        Err(ErrorModel::ConnectionFailure(reason)),
    ));
    lemma_served_exchange_yields_body(call(available, url, body)->Ok_0, raw);
}

} // verus!
