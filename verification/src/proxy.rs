//! Passing requests on to a service, and answering where that is not possible.
use vstd::prelude::*;
use vstd::string::*;

use crate::paths::{copy_bytes, opt_bytes};
use crate::text::{concat2, concat4, decimal, decimal_text};
use crate::text::{eq_ignore_ascii_case, same_ignoring_ascii_case, same_text};
use hyper::header::{HeaderMap, HeaderValue};

verus! {

// ---------------------------------------------------------------- headers

/// `http::HeaderMap`: the headers of a request.
#[verifier::external_type_specification]
#[verifier::external_body]
#[verifier::reject_recursive_types(T)]
pub struct ExHeaderMap<T>(HeaderMap<T>);

/// `http::HeaderValue`: the value of a header.
#[verifier::external_type_specification]
#[verifier::external_body]
pub struct ExHeaderValue(HeaderValue);

/// The lines that a header map holds, name and value, in the order in which it hands them out.
pub uninterp spec fn header_list(headers: HeaderMap) -> Seq<(Seq<char>, Seq<u8>)>;

/// What lines of names and values hold.
pub open spec fn lines_view(lines: Seq<(String, Vec<u8>)>) -> Seq<(Seq<char>, Seq<u8>)> {
    lines.map_values(|l: (String, Vec<u8>)| (l.0@, l.1@))
}

/// The value on the first line that has the name `name`.
pub open spec fn first_value(lines: Seq<(Seq<char>, Seq<u8>)>, name: Seq<char>) -> Option<Seq<u8>>
    decreases lines.len(),
{
    if lines.len() == 0 {
        None
    } else if lines[0].0 == name {
        Some(lines[0].1)
    } else {
        first_value(lines.drop_first(), name)
    }
}

/// `HeaderMap::iter`: every line of the map, name and value, once.
#[verifier::external_body]
fn header_lines(headers: &HeaderMap) -> (r: Vec<(String, Vec<u8>)>)
    ensures
        lines_view(r@) == header_list(*headers),
{
    headers.iter().map(|(k, v)| (k.as_str().to_string(), v.as_bytes().to_vec())).collect()
}

/// Whether `name` is a header name of at most 64 small letters and hyphens.
pub open spec fn plain_name(name: Seq<char>) -> bool {
    &&& 0 < name.len() <= 64
    &&& forall|i: int| 0 <= i < name.len() ==> 'a' <= #[trigger] name[i] <= 'z' || name[i] == '-'
}

/// `HeaderMap::get`: the value of a header, the first one where there are several. It is stated
/// for names of small letters and hyphens only: others are read in other ways when they are looked
/// up than when they were put in.
#[verifier::external_body]
fn header_value(headers: &HeaderMap, name: &str) -> (r: Option<Vec<u8>>)
    requires
        plain_name(name@),
    ensures
        match r {
            Some(value) => first_value(header_list(*headers), name@) == Some(value@),
            None => first_value(header_list(*headers), name@) is None,
        },
{
    headers.get(name).map(|v| v.as_bytes().to_vec())
}

/// Whether a byte of a header is a visible character, a space or a tab.
pub open spec fn visible(b: u8) -> bool {
    32 <= b < 127 || b == 9
}

/// The text of a header value, if every byte of it is visible ASCII.
pub open spec fn value_text(value: Seq<u8>) -> Option<Seq<char>> {
    if forall|i: int| 0 <= i < value.len() ==> visible(#[trigger] value[i]) {
        Some(value.map_values(|b: u8| b as char))
    } else {
        None
    }
}

/// The text of a header value, if every byte of it is visible ASCII.
pub fn header_text(value: &Vec<u8>) -> (r: Option<String>)
    ensures
        match r {
            Some(text) => value_text(value@) == Some(text@),
            None => value_text(value@) is None,
        },
{
    let mut out: String = String::new();
    let mut i: usize = 0;
    while i < value.len()
        invariant
            i <= value@.len(),
            forall|j: int| 0 <= j < i ==> visible(#[trigger] value@[j]),
            out@ == value@.take(i as int).map_values(|b: u8| b as char),
        decreases value@.len() - i,
    {
        let b: u8 = value[i];
        if !((32 <= b && b < 127) || b == 9) {
            assert(!visible(value@[i as int]));
            return None;
        }
        out.push(b as char);
        assert(out@ =~= value@.take(i + 1).map_values(|b: u8| b as char));
        i += 1;
    }
    assert(value@.take(i as int) =~= value@);
    Some(out)
}

/// The text of a header that may be absent: empty where it is, or is not visible ASCII.
pub open spec fn text_or_empty(value: Option<Seq<u8>>) -> Seq<char> {
    match value {
        Some(v) => match value_text(v) {
            Some(t) => t,
            None => Seq::empty(),
        },
        None => Seq::empty(),
    }
}

/// The text of a header that may be absent: empty where it is, or is not visible ASCII.
pub fn header_text_or_empty(value: &Option<Vec<u8>>) -> (r: String)
    ensures
        r@ == text_or_empty(opt_bytes(*value)),
{
    match value {
        Some(v) => match header_text(v) {
            Some(t) => t,
            None => String::new(),
        },
        None => String::new(),
    }
}

/// The host that a request with the header lines `lines` is for.
pub open spec fn host_of(lines: Seq<(Seq<char>, Seq<u8>)>) -> Seq<char> {
    text_or_empty(first_value(lines, "host"@))
}

/// The host that a request is for.
pub fn request_host(headers: &HeaderMap) -> (r: String)
    ensures
        r@ == text_or_empty(first_value(header_list(*headers), "host"@)),
        r@ == host_of(header_list(*headers)),
{
    proof {
        reveal_strlit("host");
    }
    header_text_or_empty(&header_value(headers, "host"))
}

/// The key of a request for a WebSocket.
pub fn websocket_key(headers: &HeaderMap) -> (r: String)
    ensures
        r@ == text_or_empty(first_value(header_list(*headers), "sec-websocket-key"@)),
{
    proof {
        reveal_strlit("sec-websocket-key");
    }
    header_text_or_empty(&header_value(headers, "sec-websocket-key"))
}

/// Whether a value of the header `upgrade` asks for a WebSocket.
pub open spec fn names_websocket(value: Option<Seq<u8>>) -> bool {
    value matches Some(v) && (value_text(v) matches Some(t) && same_ignoring_ascii_case(
        t,
        "websocket"@,
    ))
}

/// Whether a value of the header `upgrade` asks for a WebSocket.
pub fn is_websocket_value(value: &Option<Vec<u8>>) -> (r: bool)
    ensures
        r == names_websocket(opt_bytes(*value)),
{
    match value {
        Some(v) => match header_text(v) {
            Some(t) => eq_ignore_ascii_case(t.as_str(), "websocket"),
            None => false,
        },
        None => false,
    }
}

/// Whether a request asks for a WebSocket.
pub fn is_websocket_upgrade(headers: &HeaderMap) -> (r: bool)
    ensures
        r == names_websocket(first_value(header_list(*headers), "upgrade"@)),
{
    proof {
        reveal_strlit("upgrade");
    }
    is_websocket_value(&header_value(headers, "upgrade"))
}

/// Whether a header is one of the two that are left out when a request is passed on: exactly
/// `Connection` and `Transfer-Encoding`. Names are in small letters here.
pub open spec fn left_out(name: Seq<char>) -> bool {
    name == "connection"@ || name == "transfer-encoding"@
}

/// The lines that are passed on: all but those of `Connection` and `Transfer-Encoding`.
pub open spec fn passed_on(lines: Seq<(Seq<char>, Seq<u8>)>) -> Seq<(Seq<char>, Seq<u8>)> {
    lines.filter(|l: (Seq<char>, Seq<u8>)| !left_out(l.0))
}

/// Keeps the header lines that are passed on to the service: all but those of `Connection` and
/// `Transfer-Encoding`.
pub fn forward_lines(lines: Vec<(String, Vec<u8>)>) -> (r: Vec<(String, Vec<u8>)>)
    ensures
        lines_view(r@) == passed_on(lines_view(lines@)),
{
    let ghost all = lines_view(lines@);
    let ghost keep = |l: (Seq<char>, Seq<u8>)| !left_out(l.0);
    let mut out: Vec<(String, Vec<u8>)> = Vec::new();
    let mut i: usize = 0;
    proof {
        reveal(Seq::filter);
        assert(lines_view(out@) =~= all.take(0).filter(keep));
    }
    while i < lines.len()
        invariant
            i <= lines@.len(),
            all == lines_view(lines@),
            keep == (|l: (Seq<char>, Seq<u8>)| !left_out(l.0)),
            lines_view(out@) == all.take(i as int).filter(keep),
        decreases lines@.len() - i,
    {
        let ghost was = out@;
        proof {
            reveal(Seq::filter);
            assert(all.take(i + 1).drop_last() =~= all.take(i as int));
        }
        let name = lines[i].0.as_str();
        if !same_text(name, "connection") && !same_text(name, "transfer-encoding") {
            let value: Vec<u8> = copy_bytes(&lines[i].1);
            out.push((name.to_owned(), value));
            assert(lines_view(out@) =~= lines_view(was).push(all[i as int]));
        }
        i += 1;
    }
    assert(all.take(i as int) =~= all);
    out
}

// ---------------------------------------------------------------- requests

/// What `http::Uri` makes of a text: the URI written out again, or why it is none.
pub uninterp spec fn parsed_uri(text: Seq<char>) -> Result<Seq<char>, Seq<char>>;

/// `Uri::from_str`: the text is taken apart as a URI. What comes of a given text is left to the
/// name `parsed_uri`.
#[verifier::external_body]
fn parse_uri(text: &str) -> (r: Result<String, String>)
    ensures
        match r {
            Ok(uri) => parsed_uri(text@) == Ok::<Seq<char>, Seq<char>>(uri@),
            Err(e) => parsed_uri(text@) == Err::<Seq<char>, Seq<char>>(e@),
        },
{
    match text.parse::<hyper::Uri>() {
        Ok(uri) => Ok(uri.to_string()),
        Err(e) => Err(e.to_string()),
    }
}

/// The URL of `path_and_query` at the service that listens on `port`.
pub open spec fn service_url(
    scheme: Seq<char>,
    port: u16,
    path_and_query: Option<&str>,
) -> Seq<char> {
    scheme + "://127.0.0.1:"@ + decimal(port as nat) + match path_and_query {
        Some(p) => p@,
        None => "/"@,
    }
}

fn url_of(scheme: &str, port: u16, path_and_query: Option<&str>) -> (r: String)
    ensures
        r@ == service_url(scheme@, port, path_and_query),
{
    let number: String = decimal_text(port as u64);
    let path = match path_and_query {
        Some(p) => p,
        None => "/",
    };
    concat4(scheme, "://127.0.0.1:", number.as_str(), path)
}

/// How a request is passed on.
pub enum ProxyPlan {
    /// As a WebSocket, to this URL.
    WebSocket { url: String },
    /// As a request for this URI, with these headers. The method and the body stay what they are.
    Http { uri: String, headers: Vec<(String, Vec<u8>)> },
}

/// Whether `r` is how a request with the header lines `lines` is passed on.
pub open spec fn is_plan(
    lines: Seq<(Seq<char>, Seq<u8>)>,
    path_and_query: Option<&str>,
    port: u16,
    r: Result<ProxyPlan, String>,
) -> bool {
    let upgrade = names_websocket(first_value(lines, "upgrade"@));
    let uri = parsed_uri(service_url("http"@, port, path_and_query));
    match r {
        Ok(ProxyPlan::WebSocket { url }) => {
            &&& upgrade
            &&& url@ == service_url("ws"@, port, path_and_query)
        },
        Ok(ProxyPlan::Http { uri: target, headers: sent }) => {
            &&& !upgrade
            &&& uri == Ok::<Seq<char>, Seq<char>>(target@)
            &&& lines_view(sent@) == passed_on(lines)
        },
        Err(e) => !upgrade && uri == Err::<Seq<char>, Seq<char>>(e@),
    }
}

/// How a request with the given headers, path and query is passed on to the service that listens
/// on `upstream_port`.
pub fn proxy_request(
    headers: &HeaderMap,
    path_and_query: Option<&str>,
    upstream_port: u16,
) -> (r: Result<ProxyPlan, String>)
    ensures
        ({
            let lines = header_list(*headers);
            let upgrade = names_websocket(first_value(lines, "upgrade"@));
            let uri = parsed_uri(service_url("http"@, upstream_port, path_and_query));
            match r {
                Ok(ProxyPlan::WebSocket { url }) => {
                    &&& upgrade
                    &&& url@ == service_url("ws"@, upstream_port, path_and_query)
                },
                Ok(ProxyPlan::Http { uri: target, headers: sent }) => {
                    &&& !upgrade
                    &&& uri == Ok::<Seq<char>, Seq<char>>(target@)
                    &&& lines_view(sent@) == passed_on(lines)
                },
                Err(e) => !upgrade && uri == Err::<Seq<char>, Seq<char>>(e@),
            }
        }),
        is_plan(header_list(*headers), path_and_query, upstream_port, r),
{
    if is_websocket_upgrade(headers) {
        return Ok(ProxyPlan::WebSocket { url: url_of("ws", upstream_port, path_and_query) });
    }
    let url: String = url_of("http", upstream_port, path_and_query);
    match parse_uri(url.as_str()) {
        Ok(uri) => Ok(ProxyPlan::Http { uri, headers: forward_lines(header_lines(headers)) }),
        Err(e) => Err(e),
    }
}

// ---------------------------------------------------------------- responses

pub const NOT_FOUND: u16 = 404;

pub const BAD_GATEWAY: u16 = 502;

pub const INTERNAL_SERVER_ERROR: u16 = 500;

pub const SWITCHING_PROTOCOLS: u16 = 101;

/// A response with headers of text.
#[derive(Debug)]
pub struct Response {
    pub status: u16,
    pub headers: Vec<(String, String)>,
    pub body: String,
}

/// What a `Response` holds.
pub struct ResponseView {
    pub status: u16,
    pub headers: Seq<(Seq<char>, Seq<char>)>,
    pub body: Seq<char>,
}

impl View for Response {
    type V = ResponseView;

    open spec fn view(&self) -> ResponseView {
        ResponseView {
            status: self.status,
            headers: self.headers@.map_values(|h: (String, String)| (h.0@, h.1@)),
            body: self.body@,
        }
    }
}

/// A response that says `message` in plain text.
pub open spec fn error_view(status: u16, message: Seq<char>) -> ResponseView {
    ResponseView {
        status: status,
        headers: seq![("Content-Type"@, "text/plain"@)],
        body: message,
    }
}

/// A response that says `message` in plain text.
pub fn error_response(status: u16, message: String) -> (r: Response)
    requires
        100 <= status <= 999,
    ensures
        r@ == error_view(status, message@),
{
    let mut headers: Vec<(String, String)> = Vec::new();
    headers.push(("Content-Type".to_owned(), "text/plain".to_owned()));
    let r = Response { status, headers, body: message };
    assert(r@.headers =~= error_view(status, r.body@).headers);
    r
}

/// What went wrong with a request, and why.
pub enum Failure {
    /// The service cannot be reached.
    Upstream,
    /// The WebSocket of the service cannot be reached.
    WebSocket,
    /// The service of this name did not start.
    Start(Seq<char>),
    /// The request could not be handled.
    Internal,
}

/// The answer to a request that failed for the reason `error`.
pub open spec fn failure_view(failure: Failure, error: Seq<char>) -> ResponseView {
    match failure {
        Failure::Upstream => error_view(BAD_GATEWAY, "Failed to connect to upstream: "@ + error),
        Failure::WebSocket => error_view(
            BAD_GATEWAY,
            "WebSocket upstream connection failed: "@ + error,
        ),
        Failure::Start(name) => error_view(
            BAD_GATEWAY,
            "Failed to start service '"@ + name + "': "@ + error,
        ),
        Failure::Internal => error_view(INTERNAL_SERVER_ERROR, "Internal error: "@ + error),
    }
}

/// The answer where the service cannot be reached.
pub fn upstream_failed(error: &str) -> (r: Response)
    ensures
        r@ == error_view(BAD_GATEWAY, "Failed to connect to upstream: "@ + error@),
        r@ == failure_view(Failure::Upstream, error@),
{
    error_response(BAD_GATEWAY, concat2("Failed to connect to upstream: ", error))
}

/// The answer where the service `name` did not start.
pub fn start_failed(name: &str, error: &str) -> (r: Response)
    ensures
        r@ == error_view(
            BAD_GATEWAY,
            "Failed to start service '"@ + name@ + "': "@ + error@,
        ),
        r@ == failure_view(Failure::Start(name@), error@),
{
    error_response(BAD_GATEWAY, concat4("Failed to start service '", name, "': ", error))
}

/// The answer where a request could not be handled.
pub fn internal_error(error: &str) -> (r: Response)
    ensures
        r@ == error_view(INTERNAL_SERVER_ERROR, "Internal error: "@ + error@),
        r@ == failure_view(Failure::Internal, error@),
{
    error_response(INTERNAL_SERVER_ERROR, concat2("Internal error: ", error))
}

// ---------------------------------------------------------------- WebSockets

/// The accept value for a WebSocket key: the SHA-1 of the key and a fixed text, in base 64.
pub uninterp spec fn websocket_accept(key: Seq<u8>) -> Seq<char>;

/// `tungstenite::handshake::derive_accept_key`: the accept value for a WebSocket key. What it is
/// for a given key is left to the name `websocket_accept`.
pub assume_specification[ tokio_tungstenite::tungstenite::handshake::derive_accept_key ](
    request_key: &[u8],
) -> (r: String)
    ensures
        r@ == websocket_accept(request_key@),
;

/// The accept value for the WebSocket key `key`.
pub fn tungstenite_accept_key(key: &str) -> (r: String)
    ensures
        r@ == websocket_accept(vstd::utf8::encode_utf8(key@)),
{
    tokio_tungstenite::tungstenite::handshake::derive_accept_key(key.as_bytes())
}

/// The response that turns a connection into a WebSocket.
pub open spec fn switching_view(accept: Seq<char>) -> ResponseView {
    ResponseView {
        status: SWITCHING_PROTOCOLS,
        headers: seq![
            ("Upgrade"@, "websocket"@),
            ("Connection"@, "Upgrade"@),
            ("Sec-WebSocket-Accept"@, accept),
        ],
        body: Seq::empty(),
    }
}

/// The response that turns a connection into a WebSocket, for the accept value `accept`.
pub fn switching_response(accept: String) -> (r: Response)
    ensures
        r@ == switching_view(accept@),
{
    let ghost text = accept@;
    let mut headers: Vec<(String, String)> = Vec::new();
    headers.push(("Upgrade".to_owned(), "websocket".to_owned()));
    headers.push(("Connection".to_owned(), "Upgrade".to_owned()));
    headers.push(("Sec-WebSocket-Accept".to_owned(), accept));
    let r = Response { status: SWITCHING_PROTOCOLS, headers, body: String::new() };
    assert(r@.headers =~= switching_view(text).headers);
    r
}

/// The response to a request for a WebSocket with the header lines `lines`, once the service has
/// accepted one.
pub open spec fn upgraded_view(lines: Seq<(Seq<char>, Seq<u8>)>) -> ResponseView {
    switching_view(
        websocket_accept(
            vstd::utf8::encode_utf8(text_or_empty(first_value(lines, "sec-websocket-key"@))),
        ),
    )
}

/// The response to a request for a WebSocket, after the one of the service was asked for:
/// `connected` tells why it could not be had, if it could not.
pub fn proxy_websocket(headers: &HeaderMap, connected: Result<(), &str>) -> (r: Response)
    ensures
        match connected {
            Ok(_) => r@ == switching_view(
                websocket_accept(
                    vstd::utf8::encode_utf8(
                        text_or_empty(
                            first_value(header_list(*headers), "sec-websocket-key"@),
                        ),
                    ),
                ),
            ),
            Err(e) => r@ == error_view(
                BAD_GATEWAY,
                "WebSocket upstream connection failed: "@ + e@,
            ),
        },
        match connected {
            Ok(_) => r@ == upgraded_view(header_list(*headers)),
            Err(e) => r@ == failure_view(Failure::WebSocket, e@),
        },
{
    match connected {
        Ok(_) => {
            let key: String = websocket_key(headers);
            switching_response(tungstenite_accept_key(key.as_str()))
        },
        Err(e) => error_response(
            BAD_GATEWAY,
            concat2("WebSocket upstream connection failed: ", e),
        ),
    }
}

/// What came from one end of a pair of WebSockets.
#[derive(Debug, Clone, Copy, PartialEq, Eq, Structural)]
pub enum RelayEvent {
    /// A message, which is not a close message.
    Message,
    /// A close message.
    Close,
    /// It could not be read.
    Failed,
    /// Nothing more will come.
    Ended,
}

/// What is done at the other end.
#[derive(Debug, Clone, Copy, PartialEq, Eq, Structural)]
pub enum RelayAction {
    /// Send the message there, and stop if that fails.
    Forward,
    /// Send a close message there, and stop.
    CloseAndStop,
    /// Stop.
    Stop,
}

/// What is done with what came from one end of a pair of WebSockets.
pub open spec fn relayed(event: RelayEvent) -> RelayAction {
    match event {
        RelayEvent::Message => RelayAction::Forward,
        RelayEvent::Close => RelayAction::CloseAndStop,
        _ => RelayAction::Stop,
    }
}

/// Whether a pair of WebSockets is relayed on, after `action` was done.
pub open spec fn relays_on(action: RelayAction, sent: bool) -> bool {
    action == RelayAction::Forward && sent
}

/// What is done with what came from one end of a pair of WebSockets.
pub fn relay(event: RelayEvent) -> (r: RelayAction)
    ensures
        (r == RelayAction::Forward) == (event == RelayEvent::Message),
        (r == RelayAction::CloseAndStop) == (event == RelayEvent::Close),
        (r == RelayAction::Stop) == (event == RelayEvent::Failed || event == RelayEvent::Ended),
        r == relayed(event),
{
    match event {
        RelayEvent::Message => RelayAction::Forward,
        RelayEvent::Close => RelayAction::CloseAndStop,
        RelayEvent::Failed => RelayAction::Stop,
        RelayEvent::Ended => RelayAction::Stop,
    }
}

/// Whether a pair of WebSockets is relayed on, after `action` was done and `sent` tells whether
/// the sending succeeded.
pub fn relay_goes_on(action: RelayAction, sent: bool) -> (r: bool)
    ensures
        r == (action == RelayAction::Forward && sent),
        r == relays_on(action, sent),
{
    match action {
        RelayAction::Forward => sent,
        RelayAction::CloseAndStop => false,
        RelayAction::Stop => false,
    }
}

// ---------------------------------------------------------------- health

/// The request that tells whether a service answers. Any response means that it does.
#[derive(Debug)]
pub struct HealthProbe {
    pub address: String,
    pub method: String,
    pub uri: String,
    pub host: String,
}

/// Where the service on `port` is asked whether it answers.
pub open spec fn probe_address(port: u16) -> Seq<char> {
    "127.0.0.1:"@ + decimal(port as nat)
}

/// Whether `probe` is the request that tells whether the service on `port` answers.
pub open spec fn is_probe(port: u16, probe: HealthProbe) -> bool {
    &&& probe.address@ == probe_address(port)
    &&& probe.method@ == "HEAD"@
    &&& probe.uri@ == "/"@
    &&& probe.host@ == probe_address(port)
}

/// The request that tells whether the service on `port` answers.
pub fn health_probe(port: u16) -> (r: HealthProbe)
    ensures
        r.address@ == "127.0.0.1:"@ + decimal(port as nat),
        r.method@ == "HEAD"@,
        r.uri@ == "/"@,
        r.host@ == r.address@,
        is_probe(port, r),
{
    let number: String = decimal_text(port as u64);
    let address: String = concat2("127.0.0.1:", number.as_str());
    HealthProbe {
        host: address.clone(),
        address,
        method: "HEAD".to_owned(),
        uri: "/".to_owned(),
    }
}

} // verus!
