use baywatch::proxy::{
    error_response, forward_lines, header_text, health_probe, internal_error, is_websocket_upgrade,
    is_websocket_value, proxy_request, proxy_websocket, relay, relay_goes_on, request_host,
    switching_response, tungstenite_accept_key, upstream_failed, ProxyPlan, RelayAction,
    RelayEvent,
};
use hyper::header::{HeaderMap, HeaderValue};

fn headers(lines: &[(&'static str, &'static str)]) -> HeaderMap {
    let mut map = HeaderMap::new();
    for (name, value) in lines {
        map.append(*name, HeaderValue::from_static(value));
    }
    map
}

fn line(name: &str, value: &str) -> (String, Vec<u8>) {
    (name.to_string(), value.as_bytes().to_vec())
}

#[test]
fn requests_are_passed_on() {
    let map = headers(&[
        ("host", "web.localhost"),
        ("connection", "keep-alive"),
        ("accept", "text/html"),
        ("accept", "image/png"),
        ("transfer-encoding", "chunked"),
        ("keep-alive", "timeout=5"),
    ]);
    match proxy_request(&map, Some("/a/b?c=d"), 3000).unwrap() {
        ProxyPlan::Http { uri, headers } => {
            assert_eq!(uri, "http://127.0.0.1:3000/a/b?c=d");
            let mut sorted = headers;
            sorted.sort();
            assert_eq!(
                sorted,
                vec![
                    line("accept", "image/png"),
                    line("accept", "text/html"),
                    line("host", "web.localhost"),
                    line("keep-alive", "timeout=5"),
                ]
            );
        }
        ProxyPlan::WebSocket { url } => panic!("{}", url),
    }
}

#[test]
fn request_without_a_path_is_for_the_root() {
    match proxy_request(&headers(&[]), None, 80).unwrap() {
        ProxyPlan::Http { uri, headers } => {
            assert_eq!(uri, "http://127.0.0.1:80/");
            assert!(headers.is_empty());
        }
        ProxyPlan::WebSocket { url } => panic!("{}", url),
    }
}

#[test]
fn uri_that_is_none_is_an_error() {
    let e = proxy_request(&headers(&[]), Some("/a b"), 80).err().unwrap();
    let expected = "http://127.0.0.1:80/a b".parse::<hyper::Uri>().unwrap_err();
    assert_eq!(e, expected.to_string());
}

#[test]
fn lines_about_the_connection_are_dropped() {
    let lines = vec![
        line("connection", "close"),
        line("x", "1"),
        line("transfer-encoding", "chunked"),
        line("Connection", "kept"),
        line("x", "2"),
    ];
    assert_eq!(
        forward_lines(lines),
        vec![line("x", "1"), line("Connection", "kept"), line("x", "2")]
    );
}

#[test]
fn websocket_requests_are_recognised() {
    assert!(is_websocket_upgrade(&headers(&[("upgrade", "WebSocket")])));
    assert!(is_websocket_upgrade(&headers(&[("upgrade", "websocket"), ("upgrade", "h2c")])));
    assert!(!is_websocket_upgrade(&headers(&[("upgrade", "h2c"), ("upgrade", "websocket")])));
    assert!(!is_websocket_upgrade(&headers(&[])));
    assert!(is_websocket_value(&Some(b"WEBSOCKET".to_vec())));
    assert!(!is_websocket_value(&Some(b"websocket\xff".to_vec())));
    assert!(!is_websocket_value(&None));
    match proxy_request(&headers(&[("upgrade", "websocket")]), Some("/ws?x"), 3000).unwrap() {
        ProxyPlan::WebSocket { url } => assert_eq!(url, "ws://127.0.0.1:3000/ws?x"),
        ProxyPlan::Http { uri, .. } => panic!("{}", uri),
    }
}

#[test]
fn header_text_is_that_of_the_value() {
    for b in 0..=255u8 {
        let value = vec![b'a', b];
        let expected = HeaderValue::from_bytes(&value)
            .ok()
            .and_then(|v| v.to_str().ok().map(str::to_string));
        assert_eq!(header_text(&value), expected, "{}", b);
    }
    assert_eq!(header_text(&Vec::new()), Some(String::new()));
}

#[test]
fn host_of_a_request() {
    assert_eq!(request_host(&headers(&[("host", "a.localhost:80")])), "a.localhost:80");
    assert_eq!(request_host(&headers(&[("accept", "x")])), "");
}

#[test]
fn websocket_is_accepted() {
    assert_eq!(
        tungstenite_accept_key("dGhlIHNhbXBsZSBub25jZQ=="),
        "s3pPLMBiTxaQ9kYGzzhZRbK+xOo="
    );
    let map = headers(&[("sec-websocket-key", "dGhlIHNhbXBsZSBub25jZQ==")]);
    let r = proxy_websocket(&map, Ok(()));
    assert_eq!(r.status, 101);
    assert_eq!(
        r.headers,
        vec![
            ("Upgrade".to_string(), "websocket".to_string()),
            ("Connection".to_string(), "Upgrade".to_string()),
            (
                "Sec-WebSocket-Accept".to_string(),
                "s3pPLMBiTxaQ9kYGzzhZRbK+xOo=".to_string()
            ),
        ]
    );
    assert_eq!(r.body, "");
    let r = proxy_websocket(&headers(&[]), Ok(()));
    assert_eq!(r.headers[2].1, tungstenite_accept_key(""));
    assert_eq!(switching_response("x".to_string()).headers[2].1, "x");
}

#[test]
fn websocket_that_cannot_be_reached_is_a_bad_gateway() {
    let r = proxy_websocket(&headers(&[]), Err("refused"));
    assert_eq!(r.status, 502);
    assert_eq!(r.body, "WebSocket upstream connection failed: refused");
}

#[test]
fn failures_are_answered_in_plain_text() {
    let plain = vec![("Content-Type".to_string(), "text/plain".to_string())];
    let r = error_response(418, "tea".to_string());
    assert_eq!((r.status, r.body.as_str()), (418, "tea"));
    assert_eq!(r.headers, plain);
    let r = upstream_failed("refused");
    assert_eq!((r.status, r.body.as_str()), (502, "Failed to connect to upstream: refused"));
    assert_eq!(r.headers, plain);
    let r = internal_error("odd");
    assert_eq!((r.status, r.body.as_str()), (500, "Internal error: odd"));
}

#[test]
fn messages_are_relayed_until_an_end_closes() {
    assert_eq!(relay(RelayEvent::Message), RelayAction::Forward);
    assert_eq!(relay(RelayEvent::Close), RelayAction::CloseAndStop);
    assert_eq!(relay(RelayEvent::Failed), RelayAction::Stop);
    assert_eq!(relay(RelayEvent::Ended), RelayAction::Stop);
    assert!(relay_goes_on(RelayAction::Forward, true));
    assert!(!relay_goes_on(RelayAction::Forward, false));
    assert!(!relay_goes_on(RelayAction::CloseAndStop, true));
    assert!(!relay_goes_on(RelayAction::Stop, true));
}

#[test]
fn health_is_asked_for_by_a_head_request() {
    let p = health_probe(3000);
    assert_eq!(p.address, "127.0.0.1:3000");
    assert_eq!(p.method, "HEAD");
    assert_eq!(p.uri, "/");
    assert_eq!(p.host, "127.0.0.1:3000");
}
