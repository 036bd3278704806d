//! Which service a request is for.
use vstd::prelude::*;
use vstd::string::*;

use crate::proxy::{error_response, error_view, request_host, start_failed, Response, BAD_GATEWAY};
use crate::proxy::{failure_view, first_value, header_list, host_of, text_or_empty, Failure};
use crate::proxy::{ResponseView, NOT_FOUND};
use crate::service::{ManagerView, ServiceManager};
use crate::text::{before_mark, chars_of, concat4, join, joined, text_before, texts};
use hyper::header::HeaderMap;

verus! {

/// The service that the host `host` stands for below `domain`, whether or not there is such a
/// service: what is left of the host without the domain and the dot before it.
pub open spec fn service_of_host(host: Seq<char>, domain: Seq<char>) -> Option<Seq<char>> {
    let cut = host.len() - domain.len() - 1;
    if cut > 0 && host == host.take(cut) + "."@ + domain {
        Some(host.take(cut))
    } else {
        None
    }
}

/// The service name in a hostname: `freetar.localhost` below `localhost` is `freetar`, and
/// `sub.freetar.localhost` is `sub.freetar`; `localhost` itself and hosts below other domains
/// have none.
pub fn extract_service_name<'a>(host: &'a str, domain: &str) -> (r: Option<&'a str>)
    ensures
        match r {
            Some(name) => name@.len() > 0 && host@ == name@ + "."@ + domain@,
            None => forall|name: Seq<char>|
                name.len() > 0 ==> host@ != #[trigger] (name + "."@) + domain@,
        },
        match r {
            Some(name) => service_of_host(host@, domain@) == Some(name@),
            None => service_of_host(host@, domain@) is None,
        },
{
    proof {
        reveal_strlit(".");
    }
    let h: Vec<char> = chars_of(host);
    let d: Vec<char> = chars_of(domain);
    if h.len() <= d.len() || h.len() - d.len() == 1 {
        return None;
    }
    let end: usize = h.len() - d.len();
    let cut: usize = end - 1;
    if h[cut] != '.' {
        assert forall|name: Seq<char>| name.len() > 0 implies host@ != #[trigger] (name + "."@)
            + domain@ by {
            if host@ == name + "."@ + domain@ {
                assert(name.len() == cut);
                assert((name + "."@ + domain@)[cut as int] == '.');
            }
        }
        return None;
    }
    let mut i: usize = 0;
    while i < d.len()
        invariant
            h@ == host@,
            d@ == domain@,
            end == cut + 1,
            end + d@.len() == h.len(),
            "."@.len() == 1,
            i <= d@.len(),
            forall|j: int| 0 <= j < i ==> host@[cut + 1 + j] == domain@[j],
        decreases d@.len() - i,
    {
        if h[end + i] != d[i] {
            assert forall|name: Seq<char>| name.len() > 0 implies host@ != #[trigger] (name
                + "."@) + domain@ by {
                if host@ == name + "."@ + domain@ {
                    assert((name + "."@ + domain@)[cut + 1 + i] == domain@[i as int]);
                }
            }
            assert(service_of_host(host@, domain@) is None) by {
                let whole = host@.take(cut as int) + "."@ + domain@;
                assert(whole[cut + 1 + i] == domain@[i as int]);
            }
            return None;
        }
        i += 1;
    }
    let name = host.substring_char(0, cut);
    assert(host@ =~= host@.take(cut as int) + "."@ + domain@);
    Some(name)
}

/// A host without the port that may follow it.
pub open spec fn without_port(host: Seq<char>) -> Seq<char> {
    before_mark(host, ':')
}

/// Cuts off the port that may follow a host: `freetar.localhost:80` gives `freetar.localhost`.
pub fn strip_port(host: &str) -> (r: &str)
    ensures
        r@ == without_port(host@),
{
    text_before(host, ':')
}

// ---------------------------------------------------------------- answering

/// How the services are listed to someone who asked for one that there is not.
pub open spec fn listing(names: Seq<Seq<char>>, domain: Seq<char>) -> Seq<char> {
    joined(names.map_values(|n: Seq<char>| "  "@ + n + "."@ + domain), "\n"@)
}

fn listing_text(names: &Vec<String>, domain: &str) -> (r: String)
    ensures
        r@ == listing(texts(names@), domain@),
{
    let ghost line = |n: Seq<char>| "  "@ + n + "."@ + domain@;
    let mut lines: Vec<String> = Vec::new();
    let mut i: usize = 0;
    while i < names.len()
        invariant
            i <= names@.len(),
            line == (|n: Seq<char>| "  "@ + n + "."@ + domain@),
            texts(lines@) == texts(names@).take(i as int).map_values(line),
        decreases names@.len() - i,
    {
        let ghost was = lines@;
        lines.push(concat4("  ", names[i].as_str(), ".", domain));
        proof {
            let before = texts(names@).take(i as int);
            let name = texts(names@)[i as int];
            assert(texts(names@).take(i + 1) =~= before.push(name));
            assert(texts(lines@) =~= texts(was).push(line(name)));
            assert(before.push(name).map_values(line) =~= before.map_values(line).push(line(name)));
        }
        i += 1;
    }
    assert(texts(names@).take(i as int) =~= texts(names@));
    join(&lines, "\n")
}

/// The service that a request for `host` is proxied to.
pub open spec fn routed(m: ManagerView, host: Seq<char>, domain: Seq<char>) -> Option<Seq<char>> {
    match service_of_host(without_port(host), domain) {
        Some(name) => if m.has(name) {
            Some(name)
        } else {
            None
        },
        None => None,
    }
}

/// What is said to someone who asked for a host that is no service.
pub open spec fn no_match(m: ManagerView, host: Seq<char>, domain: Seq<char>) -> Seq<char> {
    "Baywatch: No service matched host '"@ + host + "'\n\nAvailable services:\n"@ + listing(
        m.names,
        domain,
    )
}

/// The answer to someone who asked for a host that is no service.
pub open spec fn turned_away(m: ManagerView, host: Seq<char>, domain: Seq<char>) -> ResponseView {
    error_view(NOT_FOUND, no_match(m, host, domain))
}

/// The service that a request for `host` is proxied to, or else the answer to the request.
pub fn route_host(host: &str, manager: &ServiceManager, domain: &str) -> (r: Result<
    String,
    Response,
>)
    ensures
        match r {
            Ok(name) => routed(manager@, host@, domain@) == Some(name@),
            Err(response) => {
                &&& routed(manager@, host@, domain@) is None
                &&& response@ == error_view(NOT_FOUND, no_match(manager@, host@, domain@))
                &&& response@ == turned_away(manager@, host@, domain@)
            },
        },
{
    match extract_service_name(strip_port(host), domain) {
        Some(name) => {
            if manager.has_service(name) {
                return Ok(name.to_owned());
            }
        },
        None => {},
    }
    let list: String = listing_text(&manager.service_names(), domain);
    let body: String = concat4(
        "Baywatch: No service matched host '",
        host,
        "'\n\nAvailable services:\n",
        list.as_str(),
    );
    Err(error_response(NOT_FOUND, body))
}

/// The service that a request with the given headers is proxied to, or else the answer to the
/// request.
pub fn handle_request(headers: &HeaderMap, manager: &ServiceManager, domain: &str) -> (r: Result<
    String,
    Response,
>)
    ensures
        ({
            let host = text_or_empty(first_value(header_list(*headers), "host"@));
            match r {
                Ok(name) => routed(manager@, host, domain@) == Some(name@),
                Err(response) => {
                    &&& routed(manager@, host, domain@) is None
                    &&& response@ == error_view(NOT_FOUND, no_match(manager@, host, domain@))
                },
            }
        }),
        ({
            let host = host_of(header_list(*headers));
            match r {
                Ok(name) => routed(manager@, host, domain@) == Some(name@),
                Err(response) => response@ == turned_away(manager@, host, domain@),
            }
        }),
{
    let host: String = request_host(headers);
    route_host(host.as_str(), manager, domain)
}

/// Whether `r` is what becomes of a request for the service `name`, once it was tried to have the
/// service running.
pub open spec fn answered(
    name: Seq<char>,
    outcome: Result<u16, String>,
    r: Result<u16, Response>,
) -> bool {
    match (outcome, r) {
        (Ok(port), Ok(p)) => p == port,
        (Err(e), Err(response)) => response@ == failure_view(Failure::Start(name), e@),
        _ => false,
    }
}

/// The services after that: a request that is proxied counts as activity.
pub open spec fn used(
    m: ManagerView,
    name: Seq<char>,
    outcome: Result<u16, String>,
    now: u128,
) -> ManagerView {
    if outcome is Ok && m.has(name) {
        m.touched(name, now)
    } else {
        m
    }
}

/// The port that a request for the service `name` is proxied to, once it was tried to have the
/// service running, or else the answer to the request. A request that is proxied counts as
/// activity.
pub fn service_started(
    manager: &mut ServiceManager,
    name: &str,
    outcome: Result<u16, String>,
    now: u128,
) -> (r: Result<u16, Response>)
    ensures
        match (outcome, r) {
            (Ok(port), Ok(p)) => {
                &&& p == port
                &&& final(manager)@ == if old(manager)@.has(name@) {
                    old(manager)@.touched(name@, now)
                } else {
                    old(manager)@
                }
            },
            (Err(e), Err(response)) => {
                &&& final(manager)@ == old(manager)@
                &&& response@ == error_view(
                    BAD_GATEWAY,
                    "Failed to start service '"@ + name@ + "': "@ + e@,
                )
            },
            _ => false,
        },
        answered(name@, outcome, r),
        final(manager)@ == used(old(manager)@, name@, outcome, now),
{
    match outcome {
        Ok(port) => {
            manager.record_activity(name, now);
            Ok(port)
        },
        Err(e) => Err(start_failed(name, e.as_str())),
    }
}

} // verus!
