use baywatch::config::{resolve_service, Config, RawServiceConfig};
use baywatch::names::NameMap;
use baywatch::service::{Process, ServiceManager, StartEnd, NANOS};
use baywatch::startup::{advance, begin, event_fits, Action, Event, Phase, Step};

fn manager() -> ServiceManager {
    let mut services = NameMap::new();
    let raw = RawServiceConfig {
        port: 3000,
        command: "npm start".to_string(),
        pwd: None,
        idle_timeout: None,
        env: NameMap::new(),
    };
    services.insert("web".to_string(), resolve_service(&raw, "/srv".as_bytes().to_vec(), 600));
    let config = Config {
        bind: "0.0.0.0".to_string(),
        port: 80,
        domain: "localhost".to_string(),
        shutdown_grace: 5,
        startup_timeout: 30,
        services,
    };
    ServiceManager::new(&config, 0)
}

fn next(step: Step) -> (Phase, Action) {
    match step {
        Step::Next { phase, action } => (phase, action),
        other => panic!("{:?}", other),
    }
}

fn ended(step: Step) -> StartEnd {
    match step {
        Step::Ended(end) => end,
        other => panic!("{:?}", other),
    }
}

fn done(step: Step) -> Result<u16, String> {
    match step {
        Step::Done(result) => result,
        other => panic!("{:?}", other),
    }
}

fn go(m: &mut ServiceManager, phase: Phase, event: Event, now: u128) -> Step {
    assert!(event_fits(&phase, &event));
    advance(m, phase, event, now)
}

/// Takes a start up to where the process is looked at.
fn polling(m: &mut ServiceManager) -> Phase {
    let (phase, action) = next(begin(m, "web", 0));
    assert!(matches!(action, Action::Spawn(_)));
    let (phase, action) = next(go(m, phase, Event::Spawned { pid: Some(7) }, 0));
    assert!(matches!(action, Action::Pause { given_up: None }));
    let (phase, action) = next(go(m, phase, Event::Paused, 0));
    assert!(matches!(action, Action::Poll(Some(Process { pid: Some(7), .. }))));
    phase
}

#[test]
fn service_is_asked_until_it_answers() {
    let mut m = manager();
    let mut phase = polling(&mut m);
    for _ in 0..3 {
        let polled = Event::Polled { exit: None, lines: Vec::new(), elapsed: 10 * NANOS };
        let (probing, action) = next(go(&mut m, phase, polled, 0));
        match action {
            Action::Probe { port, time } => assert_eq!((port, time), (3000, 20 * NANOS)),
            other => panic!("{:?}", other),
        }
        let probed = Event::Probed { healthy: false, elapsed: 30 * NANOS };
        let (pausing, _) = next(go(&mut m, probing, probed, 0));
        phase = next(go(&mut m, pausing, Event::Paused, 0)).0;
    }
    let polled = Event::Polled { exit: None, lines: Vec::new(), elapsed: 10 * NANOS };
    let (phase, _) = next(go(&mut m, phase, polled, 0));
    let probed = Event::Probed { healthy: true, elapsed: 31 * NANOS };
    assert_eq!(ended(go(&mut m, phase, probed, 1)).result, Ok(3000));
    let (phase, action) = next(begin(&mut m, "web", 2));
    assert!(matches!(action, Action::Look(Process { pid: Some(7), .. })));
    assert_eq!(done(go(&mut m, phase, Event::Looked { ended: false }, 2)), Ok(3000));
}

#[test]
fn dead_process_is_replaced() {
    let mut m = manager();
    let phase = polling(&mut m);
    let polled = Event::Polled { exit: None, lines: Vec::new(), elapsed: 0 };
    let (phase, _) = next(go(&mut m, phase, polled, 0));
    let probed = Event::Probed { healthy: true, elapsed: 0 };
    assert!(ended(go(&mut m, phase, probed, 1)).result.is_ok());
    let (phase, _) = next(begin(&mut m, "web", 2));
    let (late, _) = next(begin(&mut m, "web", 2));
    let (_, action) = next(go(&mut m, phase, Event::Looked { ended: true }, 2));
    assert!(matches!(action, Action::Spawn(_)));
    let (phase, _) = next(go(&mut m, late, Event::Looked { ended: true }, 2));
    assert!(matches!(phase, Phase::Waiting(_)));
}

#[test]
fn others_wait_and_get_what_came_of_it() {
    let mut m = manager();
    let phase = polling(&mut m);
    let (first, action) = next(begin(&mut m, "web", 0));
    let cycle = match action {
        Action::Wait { cycle, timeout } => {
            assert_eq!(timeout, 30);
            cycle
        }
        other => panic!("{:?}", other),
    };
    let (second, _) = next(begin(&mut m, "web", 0));
    let late = done(go(&mut m, second, Event::WaitOver { notified: false }, 0));
    assert_eq!(late.unwrap_err(), "Timed out waiting for service web to start");
    let polled = Event::Polled { exit: None, lines: Vec::new(), elapsed: 10 * NANOS };
    let (phase, _) = next(go(&mut m, phase, polled, 0));
    let probed = Event::Probed { healthy: true, elapsed: 0 };
    assert_eq!(ended(go(&mut m, phase, probed, 1)).cycle, cycle);
    let told = done(go(&mut m, first, Event::WaitOver { notified: true }, 1));
    assert_eq!(told, Ok(3000));
}

#[test]
fn start_fails_with_its_process() {
    let mut m = manager();
    let phase = polling(&mut m);
    let (waiting, _) = next(begin(&mut m, "web", 0));
    let polled = Event::Polled {
        exit: Some("exit status: 1".to_string()),
        lines: vec!["bad".to_string()],
        elapsed: 0,
    };
    let end = ended(go(&mut m, phase, polled, 0));
    assert_eq!(end.result.unwrap_err(), "Service web exited with exit status: 1 (bad)");
    let told = done(go(&mut m, waiting, Event::WaitOver { notified: true }, 0));
    assert_eq!(told.unwrap_err(), "Service web failed to start");
    let (phase, _) = next(begin(&mut m, "web", 0));
    let failed = Event::SpawnFailed { error: "no".to_string() };
    assert_eq!(
        ended(go(&mut m, phase, failed, 0)).result.unwrap_err(),
        "Failed to spawn web: no"
    );
}

#[test]
fn start_fails_when_the_time_is_up() {
    let mut m = manager();
    let phase = polling(&mut m);
    let polled = Event::Polled { exit: None, lines: Vec::new(), elapsed: 10 * NANOS };
    let (phase, _) = next(go(&mut m, phase, polled, 0));
    let probed = Event::Probed { healthy: false, elapsed: 30 * NANOS + 1 };
    let end = ended(go(&mut m, phase, probed, 0));
    assert_eq!(
        end.result.unwrap_err(),
        "Service web did not become ready within 30s"
    );
    assert_eq!(end.kill.and_then(|p| p.pid), Some(7));
}

#[test]
fn removed_service_does_not_come_back() {
    let mut m = manager();
    let phase = polling(&mut m);
    let (waiting, _) = next(begin(&mut m, "web", 0));
    m.remove_service("web");
    let polled = Event::Polled {
        exit: Some("exit status: 0".to_string()),
        lines: Vec::new(),
        elapsed: 0,
    };
    let (phase, _) = next(go(&mut m, phase, polled, 0));
    let probed = Event::Probed { healthy: true, elapsed: 0 };
    assert!(ended(go(&mut m, phase, probed, 0)).result.is_ok());
    let told = done(go(&mut m, waiting, Event::WaitOver { notified: true }, 0));
    assert_eq!(told, Ok(3000));
    assert!(!m.has_service("web"));
    assert_eq!(done(begin(&mut m, "web", 0)).unwrap_err(), "Unknown service: web");
}

#[test]
fn events_belong_to_phases() {
    let mut m = manager();
    let (phase, _) = next(begin(&mut m, "web", 0));
    assert!(event_fits(&phase, &Event::Spawned { pid: None }));
    assert!(!event_fits(&phase, &Event::Paused));
    assert!(!event_fits(&phase, &Event::WaitOver { notified: true }));
}

#[test]
fn start_that_was_stopped_gives_up_its_process() {
    let mut m = manager();
    let (phase, _) = next(begin(&mut m, "web", 0));
    assert!(m.stop_service("web").unwrap().terminate().is_none());
    let (phase, action) = next(go(&mut m, phase, Event::Spawned { pid: Some(7) }, 0));
    match action {
        Action::Pause { given_up: Some(plan) } => {
            assert_eq!((plan.terminate(), plan.grace), (Some(7), 5));
        }
        other => panic!("{:?}", other),
    }
    let (phase, action) = next(go(&mut m, phase, Event::Paused, 0));
    assert!(matches!(action, Action::Poll(None)));
    let polled = Event::Polled { exit: None, lines: Vec::new(), elapsed: 0 };
    let (phase, _) = next(go(&mut m, phase, polled, 0));
    let probed = Event::Probed { healthy: true, elapsed: 0 };
    assert!(ended(go(&mut m, phase, probed, 0)).result.is_ok());
    let (_, action) = next(begin(&mut m, "web", 0));
    assert!(matches!(action, Action::Spawn(_)));
}
