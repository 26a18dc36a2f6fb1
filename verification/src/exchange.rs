//! One request-response cycle, step by step.
//!
//! An [`Exchange`] never touches a socket. It tells its caller what to do
//! next ([`Exchange::pending`]), takes what came of it ([`Exchange::advance`])
//! and so moves from connecting to sending to receiving, or ends. The first
//! failure ends it: there is one connection attempt per exchange, and no retry.

use vstd::prelude::*;
use vstd::string::StringExecFns;
use crate::error::{ClientError, ErrorModel};
use crate::request::{get_request, get_request_text, post_request, post_request_text};
use crate::response::{body_of, extract_body};
use crate::target::{ParsedTarget, TargetModel};

verus! {

/// A backend that can drive the socket work of an exchange.
#[derive(Debug, Clone, Copy, PartialEq, Eq, Structural)]
pub enum Backend {
    Tokio,
    Smol,
}

/// The backends that are at hand.
#[derive(Debug, Clone, Copy, PartialEq, Eq, Structural)]
pub struct Backends {
    pub tokio: bool,
    pub smol: bool,
}

/// The backend that drives a call: Tokio where it is at hand, else Smol, else none.
pub open spec fn selected_backend(available: Backends) -> Option<Backend> {
    if available.tokio {
        Some(Backend::Tokio)
    } else if available.smol {
        Some(Backend::Smol)
    } else {
        None
    }
}

/// Picks the backend for a call, or fails where none is at hand.
pub fn select_backend(available: Backends) -> (result: Result<Backend, ClientError>)
    ensures
        match result {
            Ok(backend) => selected_backend(available) == Some(backend),
            Err(error) => selected_backend(available) is None
                && error@ == ErrorModel::UnsupportedConfiguration,
        },
{
    if available.tokio {
        Ok(Backend::Tokio)
    } else if available.smol {
        Ok(Backend::Smol)
    } else {
        Err(ClientError::UnsupportedConfiguration)
    }
}

/// How far an exchange has come.
#[derive(Debug, Clone, Copy, PartialEq, Eq, Structural)]
pub enum Phase {
    /// The connection is being opened.
    Connecting,
    /// The request is being written.
    Sending,
    /// The response is being read, until the peer closes the connection.
    Receiving,
}

/// A request-response cycle under way.
#[derive(Debug, Clone, PartialEq, Eq)]
pub struct Exchange {
    pub backend: Backend,
    pub phase: Phase,
    pub address: String,
    pub request: String,
}

/// An [`Exchange`] as a mathematical value.
pub ghost struct ExchangeModel {
    pub backend: Backend,
    pub phase: Phase,
    pub address: Seq<char>,
    pub request: Seq<char>,
}

impl View for Exchange {
    type V = ExchangeModel;

    open spec fn view(&self) -> ExchangeModel {
        ExchangeModel {
            backend: self.backend,
            phase: self.phase,
            address: self.address@,
            request: self.request@,
        }
    }
}

/// What the caller of an exchange has to do next.
#[derive(Debug, Clone, PartialEq, Eq)]
pub enum Action {
    /// Open a TCP connection to this address (`host:port`).
    Connect(String),
    /// Write the whole of this text to the connection.
    Send(String),
    /// Read from the connection until the peer closes it.
    Receive,
}

/// An [`Action`] as a mathematical value.
pub ghost enum ActionModel {
    Connect(Seq<char>),
    Send(Seq<char>),
    Receive,
}

impl View for Action {
    type V = ActionModel;

    open spec fn view(&self) -> ActionModel {
        match self {
            Action::Connect(address) => ActionModel::Connect(address@),
            Action::Send(text) => ActionModel::Send(text@),
            Action::Receive => ActionModel::Receive,
        }
    }
}

/// What came of an action.
#[derive(Debug, Clone, PartialEq, Eq)]
pub enum Event {
    /// The connection is open.
    Connected,
    /// The request is written.
    Sent,
    /// The peer closed the connection; this is all it sent.
    Received(String),
    /// The action failed, for this reason.
    Failed(String),
}

/// An [`Event`] as a mathematical value.
pub ghost enum EventModel {
    Connected,
    Sent,
    Received(Seq<char>),
    Failed(Seq<char>),
}

impl View for Event {
    type V = EventModel;

    open spec fn view(&self) -> EventModel {
        match self {
            Event::Connected => EventModel::Connected,
            Event::Sent => EventModel::Sent,
            Event::Received(text) => EventModel::Received(text@),
            Event::Failed(reason) => EventModel::Failed(reason@),
        }
    }
}

/// Where an exchange stands after an event.
#[derive(Debug, PartialEq, Eq)]
pub enum Progress {
    /// The exchange goes on: its next action is pending.
    Pending(Exchange),
    /// The exchange is over, with the response body or with the error.
    Finished(Result<String, ClientError>),
}

/// A [`Progress`] as a mathematical value.
pub ghost enum ProgressModel {
    Pending(ExchangeModel),
    Finished(Result<Seq<char>, ErrorModel>),
}

impl View for Progress {
    type V = ProgressModel;

    open spec fn view(&self) -> ProgressModel {
        match self {
            Progress::Pending(exchange) => ProgressModel::Pending(exchange@),
            Progress::Finished(Ok(body)) => ProgressModel::Finished(Ok(body@)),
            Progress::Finished(Err(error)) => ProgressModel::Finished(Err(error@)),
        }
    }
}

/// The reason given where an event does not answer the pending action.
pub open spec fn unexpected_event() -> Seq<char> {
    "unexpected event"@
}

impl ExchangeModel {
    /// The exchange for `request` to `target`, before anything is done.
    pub open spec fn begin(backend: Backend, target: TargetModel, request: Seq<char>) -> Self {
        ExchangeModel { backend, phase: Phase::Connecting, address: target.address(), request }
    }

    /// The exchange that gets `target`.
    pub open spec fn get(backend: Backend, target: TargetModel) -> Self {
        Self::begin(backend, target, get_request_text(target.host, target.path))
    }

    /// The exchange that posts `body` to `target`.
    pub open spec fn post(backend: Backend, target: TargetModel, body: Seq<char>) -> Self {
        Self::begin(backend, target, post_request_text(target.host, target.path, body))
    }

    /// The action that is pending in this phase.
    pub open spec fn pending(self) -> ActionModel {
        match self.phase {
            Phase::Connecting => ActionModel::Connect(self.address),
            Phase::Sending => ActionModel::Send(self.request),
            Phase::Receiving => ActionModel::Receive,
        }
    }

    /// One step: where the exchange stands once `event` has come in.
    ///
    /// The event that answers the pending action moves the exchange on, and
    /// the response that was read ends it with its body. A failure ends it:
    /// as a connection failure while connecting, as an I/O failure later. An
    /// event that does not answer the pending action ends it as an I/O failure.
    pub open spec fn step(self, event: EventModel) -> ProgressModel {
        match (self.phase, event) {
            (Phase::Connecting, EventModel::Connected) => ProgressModel::Pending(
                ExchangeModel { phase: Phase::Sending, ..self },
            ),
            (Phase::Connecting, EventModel::Failed(reason)) => ProgressModel::Finished(
                Err(ErrorModel::ConnectionFailure(reason)),
            ),
            (Phase::Sending, EventModel::Sent) => ProgressModel::Pending(
                ExchangeModel { phase: Phase::Receiving, ..self },
            ),
            (Phase::Receiving, EventModel::Received(raw)) => ProgressModel::Finished(
                Ok(body_of(raw)),
            ),
            (_, EventModel::Failed(reason)) => ProgressModel::Finished(
                Err(ErrorModel::IoFailure(reason)),
            ),
            _ => ProgressModel::Finished(Err(ErrorModel::IoFailure(unexpected_event()))),
        }
    }
}

impl ProgressModel {
    /// Where things stand once all of `events` have come in, one after the
    /// other. Events that come after the end change nothing.
    pub open spec fn run(self, events: Seq<EventModel>) -> ProgressModel
        decreases events.len(),
    {
        if events.len() == 0 {
            self
        } else {
            match self {
                ProgressModel::Pending(exchange) => exchange.step(events[0]).run(
                    events.drop_first(),
                ),
                ProgressModel::Finished(_) => self,
            }
        }
    }
}

/// The events of an exchange in which nothing fails and the peer sends `raw`.
pub open spec fn served(raw: Seq<char>) -> Seq<EventModel> {
    seq![EventModel::Connected, EventModel::Sent, EventModel::Received(raw)]
}

/// An exchange in which nothing fails ends with the body of what the peer
/// sent, whatever the request was and whatever the peer's status line says.
pub proof fn lemma_served_exchange_yields_body(exchange: ExchangeModel, raw: Seq<char>)
    requires
        exchange.phase == Phase::Connecting,
    ensures
        ProgressModel::Pending(exchange).run(served(raw)) == ProgressModel::Finished(
            Ok(body_of(raw)),
        ),
{
    reveal_with_fuel(ProgressModel::run, 4);
    let events = served(raw);
    let after_connect = ExchangeModel { phase: Phase::Sending, ..exchange };
    let after_send = ExchangeModel { phase: Phase::Receiving, ..exchange };
    assert(events.drop_first() =~= seq![EventModel::Sent, EventModel::Received(raw)]);
    assert(events.drop_first().drop_first() =~= seq![EventModel::Received(raw)]);
    assert(events.drop_first().drop_first().drop_first() =~= Seq::<EventModel>::empty());
    assert(exchange.step(events[0]) == ProgressModel::Pending(after_connect));
    assert(after_connect.step(events[1]) == ProgressModel::Pending(after_send));
    assert(after_send.step(events[2]) == ProgressModel::Finished(Ok(body_of(raw))));
}

/// There is one connection attempt per exchange: no step leads back to
/// connecting, and a step that goes on keeps backend, address and request.
pub proof fn lemma_one_connection_attempt(exchange: ExchangeModel, event: EventModel)
    ensures
        exchange.step(event) matches ProgressModel::Pending(next) ==> {
            &&& next.phase != Phase::Connecting
            &&& !(next.pending() is Connect)
            &&& next.backend == exchange.backend
            &&& next.address == exchange.address
            &&& next.request == exchange.request
        },
{
}

/// The first failure ends the exchange at once: as a connection failure
/// where the connection could not be opened, as an I/O failure where writing
/// or reading failed. The reason is handed on as it came.
pub proof fn lemma_failure_ends_exchange(exchange: ExchangeModel, reason: Seq<char>)
    ensures
        exchange.step(EventModel::Failed(reason)) == ProgressModel::Finished(
            Err(
                if exchange.phase == Phase::Connecting {
                    ErrorModel::ConnectionFailure(reason)
                } else {
                    ErrorModel::IoFailure(reason)
                },
            ),
        ),
{
}

/// What is over stays over: no event changes the result of an exchange.
pub proof fn lemma_finished_is_final(
    result: Result<Seq<char>, ErrorModel>,
    events: Seq<EventModel>,
)
    ensures
        ProgressModel::Finished(result).run(events) == ProgressModel::Finished(result),
{
}

/// Every exchange is over after three events at the latest.
pub proof fn lemma_three_events_end_exchange(exchange: ExchangeModel, events: Seq<EventModel>)
    requires
        events.len() >= 3,
    ensures
        ProgressModel::Pending(exchange).run(events) is Finished,
{
    reveal_with_fuel(ProgressModel::run, 4);
    let first = exchange.step(events[0]);
    let rest = events.drop_first();
    match first {
        ProgressModel::Finished(result) => {
            lemma_finished_is_final(result, rest);
        },
        ProgressModel::Pending(second_exchange) => {
            let second = second_exchange.step(rest[0]);
            let rest2 = rest.drop_first();
            match second {
                ProgressModel::Finished(result) => {
                    lemma_finished_is_final(result, rest2);
                },
                ProgressModel::Pending(third_exchange) => {
                    let third = third_exchange.step(rest2[0]);
                    assert(third is Finished);
                    lemma_finished_is_final(third->Finished_0, rest2.drop_first());
                },
            }
        },
    }
}

impl Exchange {
    /// Starts the exchange that sends `request` to `target`.
    pub fn begin(backend: Backend, target: &ParsedTarget, request: String) -> (exchange: Exchange)
        ensures
            exchange@ == ExchangeModel::begin(backend, target@, request@),
    {
        Exchange { backend, phase: Phase::Connecting, address: target.address(), request }
    }

    /// Starts a GET exchange with `target`.
    pub fn get(backend: Backend, target: &ParsedTarget) -> (exchange: Exchange)
        ensures
            exchange@ == ExchangeModel::get(backend, target@),
    {
        let request: String = get_request(target.host.as_str(), target.path.as_str());
        Exchange::begin(backend, target, request)
    }

    /// Starts a POST exchange that carries `body` to `target`.
    pub fn post(backend: Backend, target: &ParsedTarget, body: &str) -> (exchange: Exchange)
        ensures
            exchange@ == ExchangeModel::post(backend, target@, body@),
    {
        let request: String = post_request(target.host.as_str(), target.path.as_str(), body);
        Exchange::begin(backend, target, request)
    }

    /// The action that the caller has to perform now.
    pub fn pending(&self) -> (action: Action)
        ensures
            action@ == self@.pending(),
    {
        match self.phase {
            Phase::Connecting => Action::Connect(self.address.clone()),
            Phase::Sending => Action::Send(self.request.clone()),
            Phase::Receiving => Action::Receive,
        }
    }

    /// Takes what came of the pending action and moves on, or ends.
    pub fn advance(self, event: Event) -> (progress: Progress)
        ensures
            progress@ == self@.step(event@),
    {
        let Exchange { backend, phase, address, request } = self;
        match phase {
            Phase::Connecting => match event {
                Event::Connected => Progress::Pending(
                    Exchange { backend, phase: Phase::Sending, address, request },
                ),
                Event::Failed(reason) => Progress::Finished(
                    Err(ClientError::ConnectionFailure(reason)),
                ),
                _ => Progress::Finished(
                    Err(ClientError::IoFailure(String::from_str("unexpected event"))),
                ),
            },
            Phase::Sending => match event {
                Event::Sent => Progress::Pending(
                    Exchange { backend, phase: Phase::Receiving, address, request },
                ),
                Event::Failed(reason) => Progress::Finished(Err(ClientError::IoFailure(reason))),
                _ => Progress::Finished(
                    Err(ClientError::IoFailure(String::from_str("unexpected event"))),
                ),
            },
            Phase::Receiving => match event {
                Event::Received(raw) => Progress::Finished(Ok(extract_body(raw))),
                Event::Failed(reason) => Progress::Finished(Err(ClientError::IoFailure(reason))),
                _ => Progress::Finished(
                    Err(ClientError::IoFailure(String::from_str("unexpected event"))),
                ),
            },
        }
    }
}

} // verus!
