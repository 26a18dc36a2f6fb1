//! From a URL to the place a request goes to: host, port and path.
//!
//! The URL grammar itself is the `url` crate's. This module holds what the
//! client makes of the parser's answers: which input is read how, which
//! answers name a target, which defaults apply, and which inputs are refused.
//!
//! The scheme of a URL is accepted and ignored: the client speaks plain HTTP
//! to whatever host and port the URL names, and a URL may leave its scheme
//! out.

use vstd::prelude::*;
use vstd::string::{StrSliceExecFns, StringExecFns};
use crate::ascii::{cut_at_first, from_first, holds};
use crate::decimal::{decimal, decimal_string};
use crate::error::{ClientError, ErrorModel};
use crate::request::single_line;

verus! {

/// The port of plain HTTP, used where a URL names none.
pub const DEFAULT_PORT: u16 = 80;

/// What the URL parser made of an input, in plain values.
#[derive(Debug, Clone, PartialEq, Eq)]
pub enum UrlVerdict {
    /// The input is a URL.
    ///
    /// `host` is absent where the URL has no authority part, as in `mailto:`
    /// or `data:` URLs. `port` is what the parser reports as the port: it is
    /// absent where the input names none, and also where the input names the
    /// default port of its scheme. `port_or_default` is that port or, where
    /// it is absent, the default port of the scheme, if the parser knows one.
    Parsed { host: Option<String>, path: String, port: Option<u16>, port_or_default: Option<u16> },
    /// The input is no URL. `lacks_scheme` tells that the parser found no
    /// scheme at its head; `reason` is the parser's name for the defect.
    Rejected { lacks_scheme: bool, reason: String },
}

/// A [`UrlVerdict`] as a mathematical value.
pub ghost enum VerdictModel {
    Parsed {
        host: Option<Seq<char>>,
        path: Seq<char>,
        port: Option<u16>,
        port_or_default: Option<u16>,
    },
    Rejected { lacks_scheme: bool, reason: Seq<char> },
}

impl View for UrlVerdict {
    type V = VerdictModel;

    open spec fn view(&self) -> VerdictModel {
        match self {
            UrlVerdict::Parsed { host, path, port, port_or_default } => VerdictModel::Parsed {
                host: match host {
                    Some(h) => Some(h@),
                    None => None,
                },
                path: path@,
                port: *port,
                port_or_default: *port_or_default,
            },
            UrlVerdict::Rejected { lacks_scheme, reason } => VerdictModel::Rejected {
                lacks_scheme: *lacks_scheme,
                reason: reason@,
            },
        }
    }
}

/// The verdict of the `url` crate's parser on `input`.
pub uninterp spec fn url_verdict(input: Seq<char>) -> VerdictModel;

/// Runs the `url` crate's parser on `input` and copies out what the client reads.
///
/// Trusted: the call is `url::Url::parse`. Of an accepted input the verdict
/// holds the results of `Url::host_str`, `Url::path`, `Url::port` and
/// `Url::port_or_known_default`; of a refused one it holds whether the error
/// is `url::ParseError::RelativeUrlWithoutBase`, and the error's `Display`
/// text. The contract claims only that this verdict is a function of the
/// input.
#[verifier::external_body]
fn parse_url(input: &str) -> (verdict: UrlVerdict)
    ensures
        verdict@ == url_verdict(input@),
{
    match url::Url::parse(input) {
        Ok(parsed) => UrlVerdict::Parsed {
            host: parsed.host_str().map(String::from),
            path: String::from(parsed.path()),
            port: parsed.port(),
            port_or_default: parsed.port_or_known_default(),
        },
        Err(error) => UrlVerdict::Rejected {
            lacks_scheme: error == url::ParseError::RelativeUrlWithoutBase,
            reason: error.to_string(),
        },
    }
}

/// Where a request goes: the host to connect to, the port, and the path to ask for.
#[derive(Debug, Clone, PartialEq, Eq)]
pub struct ParsedTarget {
    pub host: String,
    pub path: String,
    pub port: u16,
}

/// A [`ParsedTarget`] as a mathematical value.
pub ghost struct TargetModel {
    pub host: Seq<char>,
    pub path: Seq<char>,
    pub port: u16,
}

impl View for ParsedTarget {
    type V = TargetModel;

    open spec fn view(&self) -> TargetModel {
        TargetModel { host: self.host@, path: self.path@, port: self.port }
    }
}

impl TargetModel {
    /// A target names a host and a path, each of one line: they go into the
    /// head of the request as they are.
    pub open spec fn wf(self) -> bool {
        &&& self.host.len() > 0
        &&& self.path.len() > 0
        &&& single_line(self.host)
        &&& single_line(self.path)
    }

    /// The socket address of the target: host, a colon, the port in decimal.
    pub open spec fn address(self) -> Seq<char> {
        self.host + ":"@ + decimal(self.port as nat)
    }
}

/// The text of the error for a URL without a host.
pub open spec fn missing_host() -> Seq<char> {
    "Missing host"@
}

/// The text of the error for a URL whose host or path holds a line break.
pub open spec fn line_break() -> Seq<char> {
    "Line break in host or path"@
}

/// Whether `c` is a slash or a backslash.
pub open spec fn is_slash(c: char) -> bool {
    c == '/' || c == '\\'
}

/// Whether `c` is a decimal digit.
pub open spec fn is_digit(c: char) -> bool {
    '0' <= c <= '9'
}

/// Whether `url` is a bare path: it begins with a single slash or backslash.
/// Such an input names no host.
pub open spec fn bare_path(url: Seq<char>) -> bool {
    url.len() > 0 && is_slash(url[0]) && (url.len() == 1 || !is_slash(url[1]))
}

/// Whether the first `k` characters of `path` are a port: one to five
/// digits, with the end of the path or a slash behind them.
pub open spec fn port_ends_at(path: Seq<char>, k: int) -> bool {
    &&& 1 <= k <= 5
    &&& k <= path.len()
    &&& forall|i: int| 0 <= i < k ==> is_digit(#[trigger] path[i])
    &&& (k == path.len() || path[k] == '/')
}

/// Whether `path` opens with a port.
pub open spec fn port_opens(path: Seq<char>) -> bool {
    port_ends_at(path, 1) || port_ends_at(path, 2) || port_ends_at(path, 3) || port_ends_at(
        path,
        4,
    ) || port_ends_at(path, 5)
}

/// Whether a verdict says that the input has no scheme at its head.
pub open spec fn wants_scheme(verdict: VerdictModel) -> bool {
    verdict matches VerdictModel::Rejected { lacks_scheme, .. } && lacks_scheme
}

/// Whether a verdict shows an input of the form `host:port`, with or without
/// a path behind it: to the parser the host was a scheme, so that the URL
/// has no host, and its path opens with the port.
pub open spec fn host_and_port(verdict: VerdictModel) -> bool {
    verdict matches VerdictModel::Parsed { host, path, .. } && (host is None || host->0.len() == 0)
        && port_opens(path)
}

/// The input as it is read where it has no scheme: with `http://` in front.
pub open spec fn with_scheme(url: Seq<char>) -> Seq<char> {
    "http://"@ + url
}

/// Whether a verdict leaves open which port the input names: the parser
/// reports none, and the scheme has a default port of its own. The input may
/// then name no port, or that default port.
pub open spec fn wants_port_reading(verdict: VerdictModel) -> bool {
    verdict matches VerdictModel::Parsed { port, port_or_default, .. } && port is None
        && port_or_default is Some && port_or_default->0 != DEFAULT_PORT
}

/// The input with `http` in the place of its scheme: what stands before the
/// first colon gives way. Read so, a port that the input names is reported
/// by the parser unless it is 80.
pub open spec fn under_http(url: Seq<char>) -> Seq<char> {
    match from_first(url, ':') {
        Some(tail) => "http"@ + tail,
        None => url,
    }
}

/// The port that a verdict reports.
pub open spec fn port_in(verdict: VerdictModel) -> Option<u16> {
    match verdict {
        VerdictModel::Parsed { port, .. } => port,
        VerdictModel::Rejected { .. } => None,
    }
}

/// The port that `url` names beyond what its first verdict shows: where that
/// verdict leaves the port open, the port that the parser reports for the
/// input under `http`.
pub open spec fn written_port(url: Seq<char>, first: VerdictModel) -> Option<u16> {
    if wants_port_reading(first) {
        port_in(url_verdict(under_http(url)))
    } else {
        None
    }
}

/// The target that a verdict names, or the error it amounts to.
///
/// A parsed URL names a target if it has a host. Its path stands for itself,
/// an empty one for `/`. Its port is the port that the verdict reports, else
/// the port `written` in the input, else [`DEFAULT_PORT`]. A host or a path
/// with a line break in it names no target. Everything else is invalid input
/// too.
pub open spec fn resolve(verdict: VerdictModel, written: Option<u16>) -> Result<
    TargetModel,
    ErrorModel,
> {
    match verdict {
        VerdictModel::Parsed { host, path, port, port_or_default } => {
            if host is None || host->0.len() == 0 {
                Err(ErrorModel::InvalidInput(missing_host()))
            } else if !single_line(host->0) || !single_line(path) {
                Err(ErrorModel::InvalidInput(line_break()))
            } else {
                Ok(
                    TargetModel {
                        host: host->0,
                        path: if path.len() == 0 {
                            "/"@
                        } else {
                            path
                        },
                        port: if port is Some {
                            port->0
                        } else if written is Some {
                            written->0
                        } else {
                            DEFAULT_PORT
                        },
                    },
                )
            }
        },
        VerdictModel::Rejected { lacks_scheme, reason } => Err(ErrorModel::InvalidInput(reason)),
    }
}

/// The target of `url`, or the error with which it is refused.
///
/// - An input in which the parser finds no scheme is read with `http://` in
///   front, unless it is a bare path, which names no host.
/// - An input of the form `host:port` is read with `http://` in front too.
/// - Every other input is read as it is. Where it names the default port of
///   its scheme, that port is learned from a reading under `http`.
pub open spec fn target_of(url: Seq<char>) -> Result<TargetModel, ErrorModel> {
    let first = url_verdict(url);
    if wants_scheme(first) && bare_path(url) {
        Err(ErrorModel::InvalidInput(missing_host()))
    } else if wants_scheme(first) || host_and_port(first) {
        resolve(url_verdict(with_scheme(url)), None)
    } else {
        resolve(first, written_port(url, first))
    }
}

/// Every target that a verdict names is well formed.
pub proof fn lemma_resolved_target_is_well_formed(verdict: VerdictModel, written: Option<u16>)
    ensures
        resolve(verdict, written) matches Ok(target) ==> target.wf(),
{
    reveal_strlit("/");
}

/// Every target that a URL names is well formed.
pub proof fn lemma_target_is_well_formed(url: Seq<char>)
    ensures
        target_of(url) matches Ok(target) ==> target.wf(),
{
    lemma_resolved_target_is_well_formed(url_verdict(with_scheme(url)), None);
    lemma_resolved_target_is_well_formed(url_verdict(url), written_port(url, url_verdict(url)));
}

/// A port that the parser reports is the port of the target; 80 is the port
/// only where neither the verdict nor the input under `http` shows one.
pub proof fn lemma_port_of_target(verdict: VerdictModel, written: Option<u16>)
    requires
        resolve(verdict, written) is Ok,
    ensures
        ({
            let port = resolve(verdict, written)->Ok_0.port;
            &&& port_in(verdict) is Some ==> port == port_in(verdict)->0
            &&& port_in(verdict) is None && written is Some ==> port == written->0
            &&& port_in(verdict) is None && written is None ==> port == DEFAULT_PORT
        }),
{
}

/// Whether a result and its model say the same.
pub open spec fn same_target(
    result: Result<ParsedTarget, ClientError>,
    model: Result<TargetModel, ErrorModel>,
) -> bool {
    match result {
        Ok(target) => model == Ok::<TargetModel, ErrorModel>(target@),
        Err(error) => model == Err::<TargetModel, ErrorModel>(error@),
    }
}

impl ParsedTarget {
    /// The socket address to connect to, as `host:port`.
    pub fn address(&self) -> (text: String)
        ensures
            text@ == self@.address(),
    {
        let mut text: String = self.host.clone();
        text.append(":");
        let port: usize = self.port as usize;
        text.append(decimal_string(port).as_str());
        text
    }
}

/// Tells whether `text` is of one line.
pub fn is_single_line(text: &str) -> (single: bool)
    ensures
        single == single_line(text@),
{
    let broken: bool = holds(text, 13, Ghost('\r')) || holds(text, 10, Ghost('\n'));
    !broken
}

/// Tells whether `url` is a bare path.
pub fn is_bare_path(url: &str) -> (bare: bool)
    ensures
        bare == bare_path(url@),
{
    let n: usize = url.unicode_len();
    if n == 0 {
        return false;
    }
    let first: char = url.get_char(0);
    if !(first == '/' || first == '\\') {
        return false;
    }
    if n == 1 {
        return true;
    }
    let second: char = url.get_char(1);
    !(second == '/' || second == '\\')
}

/// Tells whether `path` opens with a port.
pub fn opens_with_port(path: &str) -> (opens: bool)
    ensures
        opens == port_opens(path@),
{
    let n: usize = path.unicode_len();
    let mut k: usize = 0;
    let mut digits: bool = true;
    while digits && k < n && k < 6
        invariant
            n == path@.len(),
            k <= n,
            k <= 6,
            forall|i: int| 0 <= i < k ==> is_digit(#[trigger] path@[i]),
            !digits ==> k < n && !is_digit(path@[k as int]),
        decreases (if digits { 1int } else { 0int }), 6 - k,
    {
        let c: char = path.get_char(k);
        if '0' <= c && c <= '9' {
            k = k + 1;
        } else {
            digits = false;
        }
    }
    if k < 1 || k > 5 {
        false
    } else if k == n {
        true
    } else {
        let next: char = path.get_char(k);
        next == '/'
    }
}

/// Tells whether the parser found no scheme at the head of the input.
pub fn needs_scheme(verdict: &UrlVerdict) -> (needs: bool)
    ensures
        needs == wants_scheme(verdict@),
{
    match verdict {
        UrlVerdict::Rejected { lacks_scheme, .. } => *lacks_scheme,
        UrlVerdict::Parsed { .. } => false,
    }
}

/// Tells whether the input behind `verdict` is of the form `host:port`.
pub fn is_host_and_port(verdict: &UrlVerdict) -> (is: bool)
    ensures
        is == host_and_port(verdict@),
{
    match verdict {
        UrlVerdict::Parsed { host, path, .. } => {
            let hostless: bool = match host {
                Some(name) => name.as_str().is_empty(),
                None => true,
            };
            hostless && opens_with_port(path.as_str())
        },
        UrlVerdict::Rejected { .. } => false,
    }
}

/// Puts `http://` in front of `url`.
pub fn prefix_scheme(url: &str) -> (prefixed: String)
    ensures
        prefixed@ == with_scheme(url@),
{
    let mut prefixed: String = String::from_str("http://");
    prefixed.append(url);
    prefixed
}

/// Tells whether `verdict` leaves open which port the input names.
pub fn needs_port_reading(verdict: &UrlVerdict) -> (needs: bool)
    ensures
        needs == wants_port_reading(verdict@),
{
    match verdict {
        UrlVerdict::Parsed { port, port_or_default, .. } => match (port, port_or_default) {
            (None, Some(default)) => *default != DEFAULT_PORT,
            _ => false,
        },
        UrlVerdict::Rejected { .. } => false,
    }
}

/// Puts `http` in the place of the scheme of `url`.
pub fn put_under_http(url: &str) -> (text: String)
    ensures
        text@ == under_http(url@),
{
    match cut_at_first(url, 58, Ghost(':')) {
        Some(tail) => {
            let mut text: String = String::from_str("http");
            text.append(tail);
            text
        },
        None => String::from_str(url),
    }
}

/// The port that `verdict` reports.
pub fn port_of(verdict: &UrlVerdict) -> (port: Option<u16>)
    ensures
        port == port_in(verdict@),
{
    match verdict {
        UrlVerdict::Parsed { port, .. } => *port,
        UrlVerdict::Rejected { .. } => None,
    }
}

/// Turns the parser's verdict, and the port learned from the input under
/// `http`, into a target, or into the error that the verdict amounts to.
pub fn resolve_target(verdict: UrlVerdict, written: Option<u16>) -> (result: Result<
    ParsedTarget,
    ClientError,
>)
    ensures
        same_target(result, resolve(verdict@, written)),
        result matches Ok(target) ==> target@.wf(),
{
    proof {
        lemma_resolved_target_is_well_formed(verdict@, written);
    }
    match verdict {
        UrlVerdict::Parsed { host, path, port, port_or_default } => {
            let name: String = match host {
                Some(name) => name,
                None => String::new(),
            };
            if name.as_str().is_empty() {
                Err(ClientError::InvalidInput(String::from_str("Missing host")))
            } else if !is_single_line(name.as_str()) || !is_single_line(path.as_str()) {
                Err(ClientError::InvalidInput(String::from_str("Line break in host or path")))
            } else {
                let path: String = if path.as_str().is_empty() {
                    String::from_str("/")
                } else {
                    path
                };
                let port: u16 = match port {
                    Some(reported) => reported,
                    None => match written {
                        Some(named) => named,
                        None => DEFAULT_PORT,
                    },
                };
                Ok(ParsedTarget { host: name, path, port })
            }
        },
        UrlVerdict::Rejected { lacks_scheme, reason } => Err(ClientError::InvalidInput(reason)),
    }
}

/// Parses `url` into the target of a request.
///
/// A missing scheme is no error: the input is then read as if `http://`
/// stood in front of it. A port that the URL names is the port of the
/// target, whatever its scheme; 80 is the port where it names none. A URL
/// that does not parse, or that names no host, is refused as invalid input.
pub fn parse_target(url: &str) -> (result: Result<ParsedTarget, ClientError>)
    ensures
        same_target(result, target_of(url@)),
        result matches Ok(target) ==> target@.wf(),
{
    let first: UrlVerdict = parse_url(url);
    let lacking: bool = needs_scheme(&first);
    if lacking && is_bare_path(url) {
        Err(ClientError::InvalidInput(String::from_str("Missing host")))
    } else if lacking || is_host_and_port(&first) {
        let prefixed: String = prefix_scheme(url);
        resolve_target(parse_url(prefixed.as_str()), None)
    } else {
        let written: Option<u16> = if needs_port_reading(&first) {
            let replaced: String = put_under_http(url);
            port_of(&parse_url(replaced.as_str()))
        } else {
            None
        };
        resolve_target(first, written)
    }
}

} // verus!
