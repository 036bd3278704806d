use baywatch::config::{resolve_service, Config, RawServiceConfig};
use baywatch::control::{
    connect_failed, handle_control_client, parse_request, read_reply, request_line,
    restart_message, tail_step, Command, ControlStep, LogEvent, TailStep,
};
use baywatch::names::NameMap;
use baywatch::service::{EnsureStep, ServiceManager, StartStep};

fn manager() -> ServiceManager {
    let mut services = NameMap::new();
    let raw = RawServiceConfig {
        port: 3000,
        command: "run".to_string(),
        pwd: None,
        idle_timeout: None,
        env: NameMap::new(),
    };
    services.insert("web".to_string(), resolve_service(&raw, "/".as_bytes().to_vec(), 600));
    let config = Config {
        bind: "0.0.0.0".to_string(),
        port: 80,
        domain: "localhost".to_string(),
        shutdown_grace: 5,
        startup_timeout: 30,
        services,
    };
    ServiceManager::new(&config, 0)
}

fn answer(line: &str) -> String {
    match handle_control_client(line, &mut manager()) {
        ControlStep::Answer(text) => text,
        other => panic!("{:?}", other),
    }
}

#[test]
fn requests_are_understood() {
    for (command, text) in [
        (Command::Tail, "tail web\n"),
        (Command::Restart, "restart web\n"),
    ] {
        assert_eq!(request_line(command, "web"), text);
        let q = parse_request(text).unwrap();
        assert_eq!((q.command, q.service.as_str()), (command, "web"));
        let q = parse_request(text.trim_end()).unwrap();
        assert_eq!((q.command, q.service.as_str()), (command, "web"));
    }
    let q = parse_request("  tail   my app \r").unwrap();
    assert_eq!((q.command, q.service.as_str()), (Command::Tail, "my app"));
}

#[test]
fn other_lines_are_refused() {
    assert_eq!(answer("tail"), "ERR: expected '<command> <service>'\n");
    assert_eq!(answer(""), "ERR: expected '<command> <service>'\n");
    assert_eq!(answer("tail  "), "ERR: expected '<command> <service>'\n");
    assert_eq!(answer("stop web"), "ERR: unknown command 'stop'\n");
    assert_eq!(answer("TAIL web"), "ERR: unknown command 'TAIL'\n");
    assert_eq!(answer("tail nope"), "ERR: unknown service 'nope'\n");
    assert_eq!(answer("restart nope"), "ERR: unknown service 'nope'\n");
}

#[test]
fn tail_opens_the_log() {
    let mut m = manager();
    match handle_control_client("tail web", &mut m) {
        ControlStep::Stream { answer, channel } => {
            assert_eq!(answer, "OK\n");
            assert_eq!(Some(channel), m.subscribe_logs("web"));
        }
        other => panic!("{:?}", other),
    }
}

#[test]
fn restart_stops_the_service() {
    let mut m = manager();
    match handle_control_client("restart web", &mut m) {
        ControlStep::Stop { answer, service, plan } => {
            assert_eq!(answer, "OK\n");
            assert_eq!(service, "web");
            assert!(plan.is_none());
        }
        other => panic!("{:?}", other),
    }
    match m.start_service("web", 0).unwrap() {
        StartStep::Spawn(plan) => {
            m.spawned(&plan.startup, Some(7));
            m.health_checked(&plan.startup, true, 0, 0).unwrap();
        }
        other => panic!("{:?}", other),
    }
    match handle_control_client("restart web", &mut m) {
        ControlStep::Stop { answer, service, plan } => {
            assert_eq!(answer, "OK\n");
            assert_eq!(service, "web");
            assert_eq!(plan.unwrap().terminate(), Some(7));
        }
        other => panic!("{:?}", other),
    }
    assert!(matches!(m.ensure_running("web", None, 0), Ok(EnsureStep::Start)));
}

#[test]
fn log_is_sent_line_by_line() {
    match tail_step(LogEvent::Line("ready".to_string())) {
        TailStep::Send(text) => assert_eq!(text, "ready\n"),
        other => panic!("{:?}", other),
    }
    assert!(matches!(tail_step(LogEvent::Lagged), TailStep::Skip));
    assert!(matches!(tail_step(LogEvent::Closed), TailStep::Stop));
}

#[test]
fn client_reads_the_answer() {
    assert_eq!(read_reply(Some("OK")), Ok(()));
    assert_eq!(
        read_reply(Some("ERR: unknown service 'x'")).unwrap_err(),
        "ERR: unknown service 'x'"
    );
    assert_eq!(read_reply(None).unwrap_err(), "Connection closed by daemon");
    assert_eq!(
        restart_message("web"),
        "Service 'web' stopped (will restart on next request)"
    );
    assert_eq!(
        connect_failed("/tmp/s", "No such file or directory (os error 2)"),
        "Could not connect to baywatch daemon (/tmp/s): No such file or directory (os error 2)"
    );
}
