//! What holds of routing, of proxying and of the control socket, told in terms of hosts, header
//! lines and texts.
use vstd::prelude::*;
use vstd::string::*;

use crate::control::{connect_text, log_text, reply_of, request, requested, restart_text, served};
use crate::control::{serves, tails, unknown_answer, Command, ControlStep, LogEvent, TailStep};
use crate::laws::{law_headers_pass, lemma_trimmed_kept};
use crate::proxy::{error_view, failure_view, first_value, host_of, is_plan, is_probe, lines_view};
use crate::proxy::{names_websocket, parsed_uri, passed_on, probe_address, relayed, relays_on};
use crate::proxy::{service_url, text_or_empty, upgraded_view, value_text, visible};
use crate::proxy::{websocket_accept, Failure, HealthProbe, ProxyPlan, RelayAction, RelayEvent};
use crate::proxy::Response;
use crate::routing::{answered, listing, routed, service_of_host, turned_away, used, without_port};
use crate::service::{ManagerView, ServiceState, StopPlan};
use crate::text::{decimal, joined, lemma_before_mark_unique, trimmed, white_space};
use crate::text_laws::{law_capitals, law_numbers_are_told_apart, law_split, law_trim};

verus! {

// ---------------------------------------------------------------- routing

/// A host without a port stays as it is, and one with a port is cut before the colon.
pub proof fn law_port_is_cut(host: Seq<char>, port: Seq<char>)
    requires
        !host.contains(':'),
    ensures
        without_port(host) == host,
        without_port(host + ":"@ + port) == host,
{
    reveal_strlit(":");
    law_split(host, ':');
    assert(host + ":"@ + port =~= host.push(':') + port);
}

/// The name of a service is what stands before the dot and the domain, and there is none in a host
/// of another form. A request is proxied to the service of that name exactly if there is one.
pub proof fn law_host_names_service(
    m: ManagerView,
    host: Seq<char>,
    domain: Seq<char>,
    name: Seq<char>,
)
    ensures
        service_of_host(host, domain) == Some(name) <==> name.len() > 0 && host == name + "."@
            + domain,
        routed(m, host, domain) == Some(name) <==> m.has(name) && name.len() > 0 && without_port(
            host,
        ) == name + "."@ + domain,
{
    reveal_strlit(".");
    let bare = without_port(host);
    assert((name + "."@ + domain).take(name.len() as int) =~= name);
    if host == name + "."@ + domain {
        assert(host.take(host.len() - domain.len() - 1) =~= name);
    }
    if bare == name + "."@ + domain {
        assert(bare.take(bare.len() - domain.len() - 1) =~= name);
    }
}

/// The services are listed one below the other, each with its host, in the order of their names.
pub proof fn law_listing(names: Seq<Seq<char>>, name: Seq<char>, domain: Seq<char>)
    ensures
        listing(Seq::<Seq<char>>::empty(), domain) == Seq::<char>::empty(),
        names.len() == 0 ==> listing(names.push(name), domain) == "  "@ + name + "."@ + domain,
        names.len() > 0 ==> listing(names.push(name), domain) == listing(names, domain) + "\n"@
            + "  "@ + name + "."@ + domain,
{
    let line = |n: Seq<char>| "  "@ + n + "."@ + domain;
    let lines = names.map_values(line);
    let more = names.push(name).map_values(line);
    assert(more =~= lines.push(line(name)));
    assert(Seq::<Seq<char>>::empty().map_values(line) =~= Seq::<Seq<char>>::empty());
    assert(more.drop_last() =~= lines);
    assert(more.last() == line(name));
    if names.len() > 0 {
        assert(joined(more, "\n"@) == joined(lines, "\n"@) + "\n"@ + line(name));
        assert(joined(lines, "\n"@) + "\n"@ + line(name) =~= joined(lines, "\n"@) + "\n"@ + "  "@
            + name + "."@ + domain);
    } else {
        assert(more[0] == line(name));
    }
}

/// Someone who asks for a host that is no service is answered 404, with the host as they wrote it
/// and the services that there are.
pub proof fn law_turned_away(m: ManagerView, host: Seq<char>, domain: Seq<char>)
    ensures
        ({
            let r = turned_away(m, host, domain);
            &&& r.status == 404
            &&& r.headers == seq![("Content-Type"@, "text/plain"@)]
            &&& r.body == "Baywatch: No service matched host '"@ + host
                + "'\n\nAvailable services:\n"@ + listing(m.names, domain)
        }),
{
}

/// Once a service runs, a request for it is proxied to its port and counts as activity. Where it
/// could not be started, the request is answered 502, with the reason, and nothing changes.
pub proof fn law_request_is_answered(
    m: ManagerView,
    name: Seq<char>,
    outcome: Result<u16, String>,
    r: Result<u16, Response>,
    now: u128,
    other: Seq<char>,
)
    requires
        answered(name, outcome, r),
    ensures
        outcome matches Ok(port) ==> r == Ok::<u16, Response>(port),
        outcome matches Ok(_) ==> {
            &&& m.has(name) ==> used(m, name, outcome, now).services[name].last_activity == now
            &&& m.has(name) ==> used(m, name, outcome, now).services[name].state
                == m.services[name].state
            &&& m.has(other) && other != name ==> used(m, name, outcome, now).services[other]
                == m.services[other]
            &&& used(m, name, outcome, now).has(other) == m.has(other)
        },
        outcome matches Err(e) ==> {
            &&& r matches Err(response)
            &&& response.status == 502
            &&& response.body@ == "Failed to start service '"@ + name + "': "@ + e@
            &&& used(m, name, outcome, now) == m
        },
{
}

// ---------------------------------------------------------------- header lines

/// What lines, and what a response, hold is what is in them, in their order.
pub proof fn law_lines(lines: Seq<(String, Vec<u8>)>, i: int, response: Response, j: int)
    requires
        0 <= i < lines.len(),
        0 <= j < response.headers@.len(),
    ensures
        lines_view(lines).len() == lines.len(),
        lines_view(lines)[i] == (lines[i].0@, lines[i].1@),
        response@.status == response.status,
        response@.body == response.body@,
        response@.headers.len() == response.headers@.len(),
        response@.headers[j] == (response.headers@[j].0@, response.headers@[j].1@),
{
}

/// The value of a header is that on the first line of its name, and there is none exactly if no
/// line has the name.
pub proof fn law_first_value(lines: Seq<(Seq<char>, Seq<u8>)>, name: Seq<char>, i: int)
    ensures
        0 <= i < lines.len() && lines[i].0 == name && (forall|j: int|
            0 <= j < i ==> (#[trigger] lines[j]).0 != name) ==> first_value(lines, name) == Some(
            lines[i].1,
        ),
        first_value(lines, name) is None <==> forall|j: int|
            0 <= j < lines.len() ==> (#[trigger] lines[j]).0 != name,
    decreases lines.len(),
{
    if lines.len() > 0 {
        let rest = lines.drop_first();
        law_first_value(rest, name, i - 1);
        assert forall|j: int| 0 <= j < rest.len() implies #[trigger] rest[j] == lines[j + 1] by {}
        assert forall|j: int| 0 < j < lines.len() implies #[trigger] lines[j] == rest[j - 1] by {}
        if lines[0].0 != name {
            if first_value(rest, name) is None {
                assert forall|j: int| 0 <= j < lines.len() implies (#[trigger] lines[j]).0
                    != name by {
                    if j > 0 {
                        assert(rest[j - 1].0 != name);
                    }
                }
            }
        }
    }
}

/// The lines that are passed on are those whose name is neither `connection` nor
/// `transfer-encoding`, in their order. So every other header keeps all its lines, and those two
/// have none left.
pub proof fn law_lines_pass(lines: Seq<(Seq<char>, Seq<u8>)>, name: Seq<char>)
    ensures
        passed_on(lines) == lines.filter(
            |l: (Seq<char>, Seq<u8>)| l.0 != "connection"@ && l.0 != "transfer-encoding"@,
        ),
        name != "connection"@ && name != "transfer-encoding"@ ==> {
            &&& passed_on(lines).filter(|l: (Seq<char>, Seq<u8>)| l.0 == name) == lines.filter(
                |l: (Seq<char>, Seq<u8>)| l.0 == name,
            )
            &&& first_value(passed_on(lines), name) == first_value(lines, name)
        },
        name == "connection"@ || name == "transfer-encoding"@ ==> first_value(
            passed_on(lines),
            name,
        ) is None,
    decreases lines.len(),
{
    law_headers_pass(lines, name);
    reveal(Seq::filter);
    if lines.len() > 0 {
        law_lines_pass(lines.drop_last(), name);
    }
}

/// A value is text exactly if every byte of it is visible ASCII, a space or a tab, and the text is
/// made of these bytes. A header that is absent or is not text counts as empty.
pub proof fn law_header_text(value: Seq<u8>)
    ensures
        value_text(value) is Some <==> forall|i: int|
            0 <= i < value.len() ==> (32 <= #[trigger] value[i] <= 126 || value[i] == 9),
        value_text(value) matches Some(text) ==> {
            &&& text.len() == value.len()
            &&& forall|i: int| 0 <= i < value.len() ==> #[trigger] text[i] as int == value[i]
            &&& text_or_empty(Some(value)) == text
        },
        value_text(value) is None ==> text_or_empty(Some(value)).len() == 0,
        text_or_empty(None).len() == 0,
{
    if forall|i: int| 0 <= i < value.len() ==> (32 <= #[trigger] value[i] <= 126 || value[i] == 9) {
        assert forall|i: int| 0 <= i < value.len() implies visible(#[trigger] value[i]) by {}
    }
    if forall|i: int| 0 <= i < value.len() ==> visible(#[trigger] value[i]) {
        assert forall|i: int| 0 <= i < value.len() implies (32 <= #[trigger] value[i] <= 126
            || value[i] == 9) by {
            assert(visible(value[i]));
        }
    }
}

/// A WebSocket is asked for by the nine letters of `websocket`, each of them small or capital, and
/// by nothing else.
pub proof fn law_websocket_is_asked_for(value: Seq<u8>)
    ensures
        !names_websocket(None),
        names_websocket(Some(value)) <==> value.len() == 9 && forall|i: int|
            0 <= i < 9 ==> (#[trigger] value[i] == "websocket"@[i] as int || value[i] + 32
                == "websocket"@[i] as int),
{
    reveal_strlit("websocket");
    let letters = "websocket"@;
    law_header_text(value);
    if let Some(text) = value_text(value) {
        law_capitals(text, letters);
        if names_websocket(Some(value)) {
            assert forall|i: int| 0 <= i < 9 implies (#[trigger] value[i] == letters[i] as int
                || value[i] + 32 == letters[i] as int) by {
                assert(text[i] as int == value[i]);
            }
        }
    }
    if value.len() == 9 && forall|i: int|
        0 <= i < 9 ==> (#[trigger] value[i] == letters[i] as int || value[i] + 32
            == letters[i] as int) {
        assert forall|i: int| 0 <= i < value.len() implies (32 <= #[trigger] value[i] <= 126
            || value[i] == 9) by {
            assert('a' <= letters[i] <= 'z');
        }
        let text = value_text(value)->0;
        assert forall|i: int| 0 <= i < text.len() implies {
            ||| #[trigger] text[i] == letters[i]
            ||| 'A' <= text[i] <= 'Z' && letters[i] as int == text[i] as int + 32
            ||| 'A' <= letters[i] <= 'Z' && text[i] as int == letters[i] as int + 32
        } by {
            assert('a' <= letters[i] <= 'z');
            assert(text[i] as int == value[i]);
        }
    }
}

/// The host that a request is for is the text of its first line `host`.
pub proof fn law_requested_host(lines: Seq<(Seq<char>, Seq<u8>)>, value: Seq<u8>)
    ensures
        first_value(lines, "host"@) == Some(value) ==> (value_text(value) matches Some(text)
            ==> host_of(lines) == text),
        first_value(lines, "host"@) is None ==> host_of(lines).len() == 0,
        host_of(passed_on(lines)) == host_of(lines),
{
    reveal_strlit("host");
    reveal_strlit("connection");
    reveal_strlit("transfer-encoding");
    assert("host"@.len() != "connection"@.len());
    assert("host"@.len() != "transfer-encoding"@.len());
    law_lines_pass(lines, "host"@);
}

// ---------------------------------------------------------------- requests

/// A request goes to the port of the service on this machine, with its path and query, or to the
/// root where it has none. Two ports are never written alike.
pub proof fn law_service_url(scheme: Seq<char>, a: u16, b: u16, path: &str)
    ensures
        service_url(scheme, a, Some(path)) == scheme + "://127.0.0.1:"@ + decimal(a as nat) + path@,
        service_url(scheme, a, None) == scheme + "://127.0.0.1:"@ + decimal(a as nat) + "/"@,
        service_url(scheme, a, Some(path)) == service_url(scheme, b, Some(path)) ==> a == b,
{
    let front = scheme + "://127.0.0.1:"@;
    let one = front + decimal(a as nat) + path@;
    let two = front + decimal(b as nat) + path@;
    assert(one.subrange(front.len() as int, one.len() - path@.len()) =~= decimal(a as nat));
    assert(two.subrange(front.len() as int, two.len() - path@.len()) =~= decimal(b as nat));
    if one == two {
        law_numbers_are_told_apart(a as nat, b as nat);
    }
}

/// A request whose first line `upgrade` says `websocket` is passed on as a WebSocket. Every other
/// one is passed on over HTTP, with its header lines but those of `connection` and
/// `transfer-encoding`, unless its URI is none.
pub proof fn law_request_is_passed_on(
    lines: Seq<(Seq<char>, Seq<u8>)>,
    path_and_query: Option<&str>,
    port: u16,
    r: Result<ProxyPlan, String>,
    value: Seq<u8>,
)
    requires
        is_plan(lines, path_and_query, port, r),
    ensures
        first_value(lines, "upgrade"@) == Some(value) ==> ((
        r matches Ok(ProxyPlan::WebSocket { .. })) <==> value.len() == 9 && forall|i: int|
            0 <= i < 9 ==> (#[trigger] value[i] == "websocket"@[i] as int || value[i] + 32
                == "websocket"@[i] as int)),
        first_value(lines, "upgrade"@) is None ==> !(r matches Ok(ProxyPlan::WebSocket { .. })),
        ({
            let place = decimal(port as nat) + match path_and_query {
                Some(path) => path@,
                None => "/"@,
            };
            match r {
                Ok(ProxyPlan::WebSocket { url }) => url@ == "ws://127.0.0.1:"@ + place,
                Ok(ProxyPlan::Http { uri, headers }) => {
                    &&& parsed_uri("http://127.0.0.1:"@ + place) == Ok::<Seq<char>, Seq<char>>(
                        uri@,
                    )
                    &&& lines_view(headers@) == lines.filter(
                        |l: (Seq<char>, Seq<u8>)|
                            l.0 != "connection"@ && l.0 != "transfer-encoding"@,
                    )
                },
                Err(e) => parsed_uri("http://127.0.0.1:"@ + place) == Err::<Seq<char>, Seq<char>>(
                    e@,
                ),
            }
        }),
{
    reveal_strlit("ws");
    reveal_strlit("http");
    reveal_strlit("://127.0.0.1:");
    reveal_strlit("ws://127.0.0.1:");
    reveal_strlit("http://127.0.0.1:");
    let number = decimal(port as nat);
    let rest = match path_and_query {
        Some(path) => path@,
        None => "/"@,
    };
    assert("ws"@ + "://127.0.0.1:"@ + number + rest =~= "ws://127.0.0.1:"@ + (number + rest));
    assert("http"@ + "://127.0.0.1:"@ + number + rest =~= "http://127.0.0.1:"@ + (number + rest));
    law_lines_pass(lines, "host"@);
    law_websocket_is_asked_for(value);
}

// ---------------------------------------------------------------- answers

/// A request that failed is answered in plain text, 502 where the service is to blame and 500 where
/// it is not, and the answer ends with the reason.
pub proof fn law_failures(error: Seq<char>, name: Seq<char>, status: u16)
    ensures
        failure_view(Failure::Upstream, error).status == 502,
        failure_view(Failure::Upstream, error).body == "Failed to connect to upstream: "@ + error,
        failure_view(Failure::WebSocket, error).status == 502,
        failure_view(Failure::WebSocket, error).body == "WebSocket upstream connection failed: "@
            + error,
        failure_view(Failure::Start(name), error).status == 502,
        failure_view(Failure::Start(name), error).body == "Failed to start service '"@ + name
            + "': "@ + error,
        failure_view(Failure::Internal, error).status == 500,
        failure_view(Failure::Internal, error).body == "Internal error: "@ + error,
        forall|f: Failure| (#[trigger] failure_view(f, error)).headers == seq![
            ("Content-Type"@, "text/plain"@),
        ],
        error_view(status, error).status == status,
        error_view(status, error).body == error,
        error_view(status, error).headers == seq![("Content-Type"@, "text/plain"@)],
{
}

/// A request for a WebSocket is answered 101, and the accept value is that for the bytes of its
/// key.
pub proof fn law_websocket_is_accepted(lines: Seq<(Seq<char>, Seq<u8>)>, key: Seq<u8>)
    requires
        first_value(lines, "sec-websocket-key"@) == Some(key),
        forall|i: int| 0 <= i < key.len() ==> (32 <= #[trigger] key[i] <= 126 || key[i] == 9),
    ensures
        ({
            let r = upgraded_view(lines);
            &&& r.status == 101
            &&& r.headers.len() == 3
            &&& r.headers[0] == ("Upgrade"@, "websocket"@)
            &&& r.headers[1] == ("Connection"@, "Upgrade"@)
            &&& r.headers[2] == ("Sec-WebSocket-Accept"@, websocket_accept(key))
            &&& r.body.len() == 0
        }),
{
    law_header_text(key);
    let text = text_or_empty(Some(key));
    assert forall|i: int| 0 <= i < text.len() implies (#[trigger] text[i] as int) < 128 by {
        assert(text[i] as int == key[i]);
    }
    vstd::utf8::is_ascii_chars_encode_utf8(text);
    let bytes = vstd::utf8::encode_utf8(text);
    assert forall|i: int| 0 <= i < bytes.len() implies bytes[i] == key[i] by {
        assert(text[i] as u8 == bytes[i]);
        assert(text[i] as int == key[i]);
    }
    assert(bytes =~= key);
}

/// What comes from one WebSocket goes to the other: messages until one cannot be sent, a close
/// message at last, and nothing after that or after a failure.
pub proof fn law_relay(event: RelayEvent, sent: bool)
    ensures
        relays_on(relayed(event), sent) <==> event == RelayEvent::Message && sent,
        relayed(event) == RelayAction::Forward <==> event == RelayEvent::Message,
        relayed(event) == RelayAction::CloseAndStop <==> event == RelayEvent::Close,
{
}

/// A service is asked on its port on this machine for the head of its root. Two ports are asked at
/// two addresses.
pub proof fn law_probe(a: u16, b: u16, probe: HealthProbe)
    requires
        is_probe(a, probe),
    ensures
        probe.address@ == "127.0.0.1:"@ + decimal(a as nat),
        probe.host@ == probe.address@,
        probe.method@ == "HEAD"@,
        probe.uri@ == "/"@,
        probe_address(a) == probe_address(b) ==> a == b,
{
    let front = "127.0.0.1:"@;
    let one = probe_address(a);
    let two = probe_address(b);
    assert(one.skip(front.len() as int) =~= decimal(a as nat));
    assert(two.skip(front.len() as int) =~= decimal(b as nat));
    if one == two {
        law_numbers_are_told_apart(a as nat, b as nat);
    }
}

// ---------------------------------------------------------------- the control socket

/// A client asks in one line: the word for the command, a space and the service.
pub proof fn law_request_line(service: Seq<char>)
    ensures
        request(Command::Tail, service) == "tail "@ + service + "\n"@,
        request(Command::Restart, service) == "restart "@ + service + "\n"@,
{
    reveal_strlit("tail");
    reveal_strlit("restart");
    reveal_strlit(" ");
    reveal_strlit("tail ");
    reveal_strlit("restart ");
    assert("tail"@ + " "@ =~= "tail "@);
    assert("restart"@ + " "@ =~= "restart "@);
}

/// A line of a command and a service, whatever white space stands around it, asks for that command,
/// if it is `tail` or `restart`. Every other command, and every other line, is refused.
pub proof fn law_line_is_understood(line: Seq<char>, command: Seq<char>, service: Seq<char>)
    requires
        command.len() > 0,
        !white_space(command[0]),
        !command.contains(' '),
        service.len() > 0,
        !white_space(service[0]),
        !white_space(service.last()),
    ensures
        trimmed(line) == command + " "@ + service ==> match requested(line) {
            Ok((Command::Tail, s)) => command == "tail"@ && s == service,
            Ok((Command::Restart, s)) => command == "restart"@ && s == service,
            Err(answer) => command != "tail"@ && command != "restart"@ && answer
                == "ERR: unknown command '"@ + command + "'\n"@,
        },
        !trimmed(line).contains(' ') ==> requested(line) == Err::<(Command, Seq<char>), Seq<char>>(
            "ERR: expected '<command> <service>'\n"@,
        ),
        requested(trimmed(line)) == requested(line),
{
    reveal_strlit(" ");
    reveal_strlit("tail");
    reveal_strlit("restart");
    assert("tail"@.len() != "restart"@.len());
    let text = command + " "@ + service;
    if trimmed(line) == text {
        let n = command.len() as int;
        assert forall|i: int| 0 <= i < n implies text[i] != ' ' by {
            assert(command.contains(command[i]));
        }
        lemma_before_mark_unique(text, ' ', n);
        assert(text[n] == ' ');
        assert(text.take(n) =~= command);
        assert(text.skip(n + 1) =~= service);
        lemma_trimmed_kept(service);
    }
    lemma_trim_again(line);
}

proof fn lemma_trim_again(text: Seq<char>)
    ensures
        trimmed(trimmed(text)) == trimmed(text),
{
    let cut = law_trim(text);
    let bare = trimmed(text);
    if bare.len() > 0 {
        lemma_trimmed_kept(bare);
    }
}

/// A client that asks for the log of a service is told that it gets it, and gets the channel of
/// that service. One that asks for a restart is told that it is done: the service is stopped, its
/// process, if it was not stopped before, is to be ended within the grace period that is set, and
/// the next request starts it. A client that names no service there is is told so, and nothing
/// changes.
pub proof fn law_client_is_served(
    m: ManagerView,
    command: Command,
    service: Seq<char>,
    step: ControlStep,
    other: Seq<char>,
)
    requires
        serves(m, command, service, step),
    ensures
        !m.has(service) ==> (step matches ControlStep::Answer(answer) && answer@
            == "ERR: unknown service '"@ + service + "'\n"@),
        !m.has(service) || command == Command::Tail ==> served(m, command, service) == m,
        m.has(service) && command == Command::Tail ==> (step matches ControlStep::Stream {
            answer,
            channel,
        } && answer@ == "OK\n"@ && channel == m.services[service].id),
        m.has(service) && command == Command::Restart ==> {
            let after = served(m, command, service);
            let before = m.services[service];
            &&& step matches ControlStep::Stop { answer, service: stopped, plan }
            &&& answer@ == "OK\n"@
            &&& stopped@ == service
            &&& before.state == ServiceState::Stopped ==> plan is None
            &&& before.state != ServiceState::Stopped ==> plan == Some(
                StopPlan { process: before.process, grace: m.shutdown_grace },
            )
            &&& after.services[service].state == ServiceState::Stopped
            &&& before.state != ServiceState::Stopped ==> after.services[service].process is None
            &&& after.services[service].config == before.config
            &&& after.services[service].id == before.id
            &&& after.has(other) == m.has(other)
            &&& m.has(other) && other != service ==> after.services[other] == m.services[other]
        },
{
}

/// The client takes `OK` for a success, every other line for what went wrong, and so does it with a
/// connection that was closed.
pub proof fn law_reply(line: Seq<char>, service: Seq<char>)
    ensures
        reply_of(Some(line)) == if line == "OK"@ {
            Ok::<(), Seq<char>>(())
        } else {
            Err::<(), Seq<char>>(line)
        },
        reply_of(Some("OK\n"@.drop_last())) is Ok,
        reply_of(Some(unknown_answer(service).drop_last())) is Err,
        reply_of(None) == Err::<(), Seq<char>>("Connection closed by daemon"@),
{
    reveal_strlit("OK");
    reveal_strlit("OK\n");
    reveal_strlit("ERR: unknown service '");
    assert("OK\n"@.drop_last() =~= "OK"@);
    assert(unknown_answer(service).drop_last()[0] == 'E');
}

/// What a client is told.
pub proof fn law_client_is_told(path: Seq<char>, error: Seq<char>, service: Seq<char>)
    ensures
        connect_text(path, error) == "Could not connect to baywatch daemon ("@ + path + "): "@
            + error,
        restart_text(service) == "Service '"@ + service
            + "' stopped (will restart on next request)"@,
{
}

/// A client that reads the log is sent every line, ended by a line break. Lines that were lost are
/// passed over, and the end of the log is the end.
pub proof fn law_log_is_sent(event: LogEvent, step: TailStep)
    requires
        tails(event, step),
    ensures
        event matches LogEvent::Line(line) ==> (step matches TailStep::Send(text) && text@.len()
            == line@.len() + 1 && text@.drop_last() == line@ && text@.last() == '\n'),
        event is Lagged ==> step is Skip,
        event is Closed ==> step is Stop,
{
    reveal_strlit("\n");
    if let LogEvent::Line(line) = event {
        assert(log_text(line@).drop_last() =~= line@);
    }
}

} // verus!
