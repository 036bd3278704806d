use baywatch::config::{Config, RawServiceConfig, resolve_service};
use baywatch::names::NameMap;
use baywatch::routing::{extract_service_name, handle_request, route_host, service_started, strip_port};
use baywatch::service::{EnsureStep, ServiceManager, NANOS};
use hyper::header::{HeaderMap, HeaderValue};

#[test]
fn test_extract_service_name() {
    assert_eq!(
        extract_service_name("freetar.localhost", "localhost"),
        Some("freetar")
    );
    assert_eq!(
        extract_service_name("foo.localhost", "localhost"),
        Some("foo")
    );
    assert_eq!(extract_service_name("localhost", "localhost"), None);
    assert_eq!(
        extract_service_name("app.example.com", "example.com"),
        Some("app")
    );
    assert_eq!(extract_service_name("random.com", "localhost"), None);
}

#[test]
fn edges_of_a_host() {
    assert_eq!(
        extract_service_name("sub.freetar.localhost", "localhost"),
        Some("sub.freetar")
    );
    assert_eq!(extract_service_name(".localhost", "localhost"), None);
    assert_eq!(extract_service_name("xlocalhost", "localhost"), None);
    assert_eq!(extract_service_name("", "localhost"), None);
    assert_eq!(extract_service_name("a.", ""), Some("a"));
    assert_eq!(extract_service_name("é.ü", "ü"), Some("é"));
    assert_eq!(strip_port("freetar.localhost:80"), "freetar.localhost");
    assert_eq!(strip_port("freetar.localhost"), "freetar.localhost");
    assert_eq!(strip_port(":80"), "");
    assert_eq!(strip_port("a:b:c"), "a");
}

fn manager() -> ServiceManager {
    let mut services = NameMap::new();
    for (name, port) in [("myapp", 3000), ("api", 8000)] {
        let raw = RawServiceConfig {
            port,
            command: "run".to_string(),
            pwd: None,
            idle_timeout: None,
            env: NameMap::new(),
        };
        services.insert(name.to_string(), resolve_service(&raw, "/".as_bytes().to_vec(), 600));
    }
    let config = Config {
        bind: "0.0.0.0".to_string(),
        port: 80,
        domain: "localhost".to_string(),
        shutdown_grace: 5,
        startup_timeout: 30,
        services,
    };
    ServiceManager::new(&config, 0)
}

#[test]
fn service_is_reached_at_its_host() {
    let m = manager();
    assert_eq!(route_host("myapp.localhost", &m, "localhost").unwrap(), "myapp");
    assert_eq!(route_host("api.localhost:8080", &m, "localhost").unwrap(), "api");
}

#[test]
fn other_hosts_are_told_what_there_is() {
    let m = manager();
    let r = route_host("web.localhost:80", &m, "localhost").unwrap_err();
    assert_eq!(r.status, 404);
    assert_eq!(
        r.headers,
        vec![("Content-Type".to_string(), "text/plain".to_string())]
    );
    assert_eq!(
        r.body,
        "Baywatch: No service matched host 'web.localhost:80'\n\nAvailable services:\n  myapp.localhost\n  api.localhost"
    );
    assert_eq!(route_host("localhost", &m, "localhost").unwrap_err().status, 404);
    assert_eq!(route_host("", &m, "localhost").unwrap_err().status, 404);
}

#[test]
fn host_is_taken_from_the_headers() {
    let m = manager();
    let mut headers = HeaderMap::new();
    assert_eq!(handle_request(&headers, &m, "localhost").unwrap_err().status, 404);
    headers.insert("Accept", HeaderValue::from_static("*/*"));
    headers.insert("Host", HeaderValue::from_static("api.localhost"));
    assert_eq!(handle_request(&headers, &m, "localhost").unwrap(), "api");
    headers.append("host", HeaderValue::from_static("myapp.localhost"));
    assert_eq!(handle_request(&headers, &m, "localhost").unwrap(), "api");
    headers.insert("host", HeaderValue::from_bytes(b"api\xff.localhost").unwrap());
    let r = handle_request(&headers, &m, "localhost").unwrap_err();
    assert!(r.body.starts_with("Baywatch: No service matched host ''\n"));
}

#[test]
fn failed_start_is_a_bad_gateway() {
    let mut m = manager();
    let r = service_started(&mut m, "api", Err("Failed to spawn api: no".to_string()), 5);
    let r = r.unwrap_err();
    assert_eq!(r.status, 502);
    assert_eq!(r.body, "Failed to start service 'api': Failed to spawn api: no");
}

#[test]
fn proxied_request_counts_as_activity() {
    let mut m = manager();
    let plan = match m.start_service("api", 0).unwrap() {
        baywatch::service::StartStep::Spawn(plan) => plan,
        other => panic!("{:?}", other),
    };
    m.spawned(&plan.startup, Some(7));
    m.health_checked(&plan.startup, true, 0, 0).unwrap();
    assert_eq!(service_started(&mut m, "api", Ok(8000), 600 * NANOS).unwrap(), 8000);
    assert_eq!(m.reap_idle_services(1200 * NANOS).len(), 0);
    assert_eq!(m.reap_idle_services(1200 * NANOS + 1).len(), 1);
    assert!(matches!(m.ensure_running("api", None, 0), Ok(EnsureStep::Start)));
}
