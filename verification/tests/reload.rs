use baywatch::config::{resolve_service, Config, RawServiceConfig};
use baywatch::names::NameMap;
use baywatch::paths::dir_and_name;
use baywatch::reload::{apply_config_reload, config_changed, is_config_event, WatchKind};
use baywatch::service::{EnsureStep, ServiceManager, StartStep};

fn config(services: &[(&str, u16, &str)]) -> Config {
    let mut map = NameMap::new();
    for (name, port, pwd) in services {
        let raw = RawServiceConfig {
            port: *port,
            command: "run".to_string(),
            pwd: None,
            idle_timeout: None,
            env: NameMap::new(),
        };
        map.insert(name.to_string(), resolve_service(&raw, pwd.as_bytes().to_vec(), 600));
    }
    Config {
        bind: "0.0.0.0".to_string(),
        port: 80,
        domain: "localhost".to_string(),
        shutdown_grace: 5,
        startup_timeout: 30,
        services: map,
    }
}

fn running(config: &Config) -> ServiceManager {
    let mut m = ServiceManager::new(config, 0);
    for (i, name) in m.service_names().iter().enumerate() {
        match m.start_service(name, 0).unwrap() {
            StartStep::Spawn(plan) => {
                m.spawned(&plan.startup, Some(100 + i as u32));
                m.health_checked(&plan.startup, true, 0, 0).unwrap();
            }
            other => panic!("{:?}", other),
        }
    }
    m
}

#[test]
fn reload_touches_only_what_changed() {
    let mut m = running(&config(&[("same", 1, "/a"), ("moved", 2, "/b"), ("gone", 3, "/c")]));
    let mut new = config(&[("new", 4, "/d"), ("same", 1, "/a/"), ("moved", 20, "/b")]);
    new.shutdown_grace = 9;
    new.startup_timeout = 60;
    let report = apply_config_reload(&mut m, &new, "0.0.0.0", 80, "localhost", 1);
    assert!(!report.bind_changed && !report.port_changed && !report.domain_changed);
    let stops: Vec<(&str, Option<u32>, u64)> = report
        .stops
        .iter()
        .map(|s| (s.name.as_str(), s.plan.terminate(), s.plan.grace))
        .collect();
    assert_eq!(stops, vec![("gone", Some(102), 9), ("moved", Some(101), 9)]);
    assert_eq!(
        m.service_names(),
        vec!["same".to_string(), "moved".to_string(), "new".to_string()]
    );
    assert!(matches!(m.ensure_running("same", None, 1), Ok(EnsureStep::Ready(1))));
    assert!(matches!(m.ensure_running("moved", None, 1), Ok(EnsureStep::Start)));
    assert!(matches!(m.ensure_running("new", None, 1), Ok(EnsureStep::Start)));
    assert!(m.ensure_running("gone", None, 1).is_err());
    match m.start_service("moved", 1).unwrap() {
        StartStep::Spawn(plan) => {
            assert_eq!((plan.startup.port, plan.startup.timeout), (20, 60));
        }
        other => panic!("{:?}", other),
    }
}

#[test]
fn reloading_again_changes_nothing() {
    let mut m = running(&config(&[("a", 1, "/a"), ("b", 2, "/b")]));
    let new = config(&[("b", 3, "/b"), ("c", 4, "/c")]);
    assert_eq!(
        apply_config_reload(&mut m, &new, "0.0.0.0", 80, "localhost", 1).stops.len(),
        2
    );
    let channel = m.subscribe_logs("c");
    assert!(apply_config_reload(&mut m, &new, "0.0.0.0", 80, "localhost", 2)
        .stops
        .is_empty());
    assert_eq!(m.subscribe_logs("c"), channel);
}

#[test]
fn some_changes_need_a_restart() {
    let mut m = running(&config(&[]));
    let new = config(&[]);
    let report = apply_config_reload(&mut m, &new, "127.0.0.1", 81, "example.com", 1);
    assert!(report.bind_changed && report.port_changed && report.domain_changed);
    let report = apply_config_reload(&mut m, &new, "0.0.0.0", 81, "localhost", 1);
    assert!(!report.bind_changed && report.port_changed && !report.domain_changed);
}

#[test]
fn broken_configuration_is_ignored() {
    let mut m = running(&config(&[("a", 1, "/a")]));
    let loaded = Err("missing field `services`".to_string());
    assert!(config_changed(&mut m, &loaded, "0.0.0.0", 80, "localhost", 1).is_none());
    assert!(matches!(m.ensure_running("a", None, 1), Ok(EnsureStep::Ready(1))));
    let loaded = Ok(config(&[]));
    let report = config_changed(&mut m, &loaded, "0.0.0.0", 80, "localhost", 1).unwrap();
    assert_eq!(report.stops.len(), 1);
    assert!(!m.has_service("a"));
}

#[test]
fn only_new_contents_of_the_file_count() {
    let ours = vec![b"/etc/x".to_vec(), b"/etc/config.yaml".to_vec()];
    let others = vec![b"/etc/config.yaml.swp".to_vec(), b"/etc/config.yaml/..".to_vec()];
    let name = b"config.yaml".to_vec();
    for kind in [WatchKind::Created, WatchKind::DataModified, WatchKind::RenamedTo] {
        assert!(is_config_event(kind, &ours, &name));
        assert!(!is_config_event(kind, &others, &name));
        assert!(!is_config_event(kind, &Vec::new(), &name));
    }
    assert!(!is_config_event(WatchKind::Other, &ours, &name));
}

#[test]
fn directory_of_the_file_is_watched() {
    assert_eq!(
        dir_and_name(&b"/etc/baywatch/config.yaml".to_vec()),
        Ok((b"/etc/baywatch/".to_vec(), b"config.yaml".to_vec()))
    );
    assert_eq!(
        dir_and_name(&b"/".to_vec()).unwrap_err(),
        "Config path has no parent directory"
    );
    assert_eq!(
        dir_and_name(&b"/etc/..".to_vec()).unwrap_err(),
        "Config path has no file name"
    );
}
