use baywatch::config::{resolve_service, Config, RawServiceConfig, ServiceConfig};
use baywatch::names::NameMap;
use baywatch::service::{
    after_grace, probe_time, process_group, EnsureStep, Process, ServiceManager, SpawnPlan, StartStep,
    WaitTicket, NANOS,
};

fn service(port: u16, idle_timeout: u64) -> ServiceConfig {
    let mut env = NameMap::new();
    env.insert("PORT".to_string(), port.to_string());
    let raw = RawServiceConfig {
        port,
        command: "npm start".to_string(),
        pwd: None,
        idle_timeout: Some(idle_timeout),
        env,
    };
    resolve_service(&raw, "/srv/app".as_bytes().to_vec(), 600)
}

fn manager() -> ServiceManager {
    let mut services = NameMap::new();
    services.insert("web".to_string(), service(3000, 60));
    services.insert("api".to_string(), service(4000, 600));
    let config = Config {
        bind: "0.0.0.0".to_string(),
        port: 80,
        domain: "localhost".to_string(),
        shutdown_grace: 5,
        startup_timeout: 30,
        services,
    };
    ServiceManager::new(&config, 0)
}

fn spawn(m: &mut ServiceManager, name: &str) -> SpawnPlan {
    match m.start_service(name, 0).unwrap() {
        StartStep::Spawn(plan) => plan,
        other => panic!("{:?}", other),
    }
}

fn ticket(m: &mut ServiceManager, name: &str) -> WaitTicket {
    match m.ensure_running(name, None, 0).unwrap() {
        EnsureStep::Wait(t) => t,
        other => panic!("{:?}", other),
    }
}

fn run(m: &mut ServiceManager, name: &str, pid: u32, now: u128) -> SpawnPlan {
    let plan = spawn(m, name);
    m.spawned(&plan.startup, Some(pid));
    let end = m.health_checked(&plan.startup, true, 0, now).unwrap();
    assert!(end.result.is_ok());
    plan
}

#[test]
fn services_are_not_started_until_they_are_asked_for() {
    let mut m = manager();
    assert_eq!(m.service_names(), vec!["web".to_string(), "api".to_string()]);
    assert!(m.has_service("web"));
    assert!(!m.has_service("nope"));
    assert!(m.shutdown_all().is_empty());
    assert!(m.reap_idle_services(u128::MAX).is_empty());
}

#[test]
fn unknown_services_are_refused() {
    let mut m = manager();
    assert_eq!(m.ensure_running("nope", None, 0).unwrap_err(), "Unknown service: nope");
    assert_eq!(m.start_service("nope", 0).unwrap_err(), "Unknown service: nope");
    assert_eq!(m.subscribe_logs("nope"), None);
    assert!(m.get_service_config("nope").is_none());
    assert!(m.stop_service("nope").is_none());
    assert!(m.remove_service("nope").is_none());
    assert!(m.update_service_config("nope", service(1, 1)).is_none());
    m.record_activity("nope", 9);
    assert_eq!(m.service_names().len(), 2);
}

#[test]
fn start_runs_the_command_in_a_login_shell() {
    let mut m = manager();
    assert!(matches!(m.ensure_running("web", None, 0), Ok(EnsureStep::Start)));
    let plan = spawn(&mut m, "web");
    assert_eq!(plan.program, "sh");
    assert_eq!(plan.args, vec!["-lc".to_string(), "npm start".to_string()]);
    assert_eq!(plan.dir, b"/srv/app");
    assert_eq!(plan.env.get("PORT").unwrap(), "3000");
    assert_eq!(plan.startup.port, 3000);
    assert_eq!(plan.startup.timeout, 30);
}

#[test]
fn only_one_request_starts_a_service() {
    let mut m = manager();
    let plan = spawn(&mut m, "web");
    let t = ticket(&mut m, "web");
    assert_eq!(t.cycle, plan.startup.cycle);
    assert_eq!((t.port, t.timeout, t.rechecked), (3000, 30, false));
    let again = match m.start_service("web", 0).unwrap() {
        StartStep::Wait(t) => t,
        other => panic!("{:?}", other),
    };
    assert!(again.rechecked);
    m.spawned(&plan.startup, Some(7));
    assert!(m.health_checked(&plan.startup, false, 30 * NANOS, 1).is_none());
    let end = m.health_checked(&plan.startup, true, 31 * NANOS, 1).unwrap();
    assert_eq!(end.result, Ok(3000));
    assert_eq!(end.cycle, plan.startup.cycle);
    assert_eq!(end.kill, None);
    assert_eq!(m.wait_finished(&t, true), Ok(3000));
    assert_eq!(m.wait_finished(&again, true), Ok(3000));
    assert!(matches!(m.ensure_running("web", None, 2), Ok(EnsureStep::Ready(3000))));
    assert!(matches!(m.start_service("web", 2), Ok(StartStep::Ready(3000))));
}

#[test]
fn waiting_ends_with_an_error() {
    let mut m = manager();
    let plan = spawn(&mut m, "web");
    let t = ticket(&mut m, "web");
    assert_eq!(
        m.wait_finished(&t, false).unwrap_err(),
        "Timed out waiting for service web to start"
    );
    let again = match m.start_service("web", 0).unwrap() {
        StartStep::Wait(t) => t,
        other => panic!("{:?}", other),
    };
    assert_eq!(
        m.wait_finished(&again, false).unwrap_err(),
        "Timed out waiting for service web"
    );
    let end = m.spawn_failed(&plan.startup, "No such file or directory (os error 2)");
    assert_eq!(
        end.result.unwrap_err(),
        "Failed to spawn web: No such file or directory (os error 2)"
    );
    assert_eq!(end.cycle, plan.startup.cycle);
    assert_eq!(m.wait_finished(&t, true).unwrap_err(), "Service web failed to start");
    assert_eq!(m.wait_finished(&again, true).unwrap_err(), "Service web failed to start");
    assert!(matches!(m.ensure_running("web", None, 0), Ok(EnsureStep::Start)));
}

#[test]
fn process_that_ends_early_fails_the_start() {
    let mut m = manager();
    let plan = spawn(&mut m, "web");
    m.spawned(&plan.startup, Some(7));
    assert_eq!(
        m.poll_process(&plan.startup),
        Some(Process { cycle: plan.startup.cycle, pid: Some(7) })
    );
    assert!(m.process_polled(&plan.startup, None, &Vec::new()).is_none());
    let lines = vec!["one".to_string(), "npm: not found".to_string()];
    let end = m.process_polled(&plan.startup, Some("exit status: 127"), &lines).unwrap();
    assert_eq!(
        end.result.unwrap_err(),
        "Service web exited with exit status: 127 (npm: not found)"
    );
    assert_eq!(m.poll_process(&plan.startup), None);
    assert!(m.process_polled(&plan.startup, Some("exit status: 0"), &lines).is_none());

    let plan = spawn(&mut m, "api");
    m.spawned(&plan.startup, None);
    let end = m.process_polled(&plan.startup, Some("signal: 9 (SIGKILL)"), &Vec::new()).unwrap();
    assert_eq!(
        end.result.unwrap_err(),
        "Service api exited with signal: 9 (SIGKILL)"
    );
}

#[test]
fn start_that_takes_too_long_fails() {
    let mut m = manager();
    m.set_startup_timeout(10);
    let plan = spawn(&mut m, "web");
    m.spawned(&plan.startup, Some(7));
    assert!(m.health_checked(&plan.startup, false, 10 * NANOS, 0).is_none());
    let end = m.health_checked(&plan.startup, false, 10 * NANOS + 1, 0).unwrap();
    assert_eq!(
        end.result.unwrap_err(),
        "Service web did not become ready within 10s"
    );
    assert_eq!(end.kill, Some(Process { cycle: plan.startup.cycle, pid: Some(7) }));
    assert_eq!(m.poll_process(&plan.startup), None);
    assert!(matches!(m.ensure_running("web", None, 0), Ok(EnsureStep::Start)));
}

#[test]
fn idle_services_are_stopped() {
    let mut m = manager();
    let web = run(&mut m, "web", 7, 0);
    run(&mut m, "api", 8, 0);
    assert!(m.reap_idle_services(60 * NANOS).is_empty());
    let stops = m.reap_idle_services(60 * NANOS + 1);
    assert_eq!(stops.len(), 1);
    assert_eq!(stops[0].name, "web");
    assert_eq!(
        stops[0].plan.process,
        Some(Process { cycle: web.startup.cycle, pid: Some(7) })
    );
    assert_eq!(stops[0].plan.grace, 5);
    assert!(m.reap_idle_services(60 * NANOS + 1).is_empty());
    m.record_activity("api", 599 * NANOS);
    assert!(m.reap_idle_services(1199 * NANOS).is_empty());
    assert!(matches!(m.ensure_running("web", None, 0), Ok(EnsureStep::Start)));
    assert_eq!(m.reap_idle_services(u128::MAX).len(), 1);
}

#[test]
fn request_to_a_running_service_is_activity() {
    let mut m = manager();
    run(&mut m, "web", 7, 0);
    assert!(matches!(
        m.ensure_running("web", None, 50 * NANOS),
        Ok(EnsureStep::Ready(3000))
    ));
    assert!(m.reap_idle_services(110 * NANOS).is_empty());
    assert_eq!(m.reap_idle_services(111 * NANOS).len(), 1);
}

#[test]
fn stopping_twice_does_nothing_more() {
    let mut m = manager();
    run(&mut m, "web", 7, 0);
    m.set_shutdown_grace(9);
    let plan = m.stop_service("web").unwrap();
    assert_eq!(plan.terminate(), Some(7));
    assert_eq!(plan.grace, 9);
    assert!(m.stop_service("web").is_none());
    run(&mut m, "api", 8, 0);
    let stops = m.shutdown_all();
    assert_eq!(stops.len(), 1);
    assert_eq!(stops[0].name, "api");
    assert!(m.shutdown_all().is_empty());
}

#[test]
fn updated_service_starts_with_the_new_configuration() {
    let mut m = manager();
    run(&mut m, "web", 7, 0);
    let mut config = service(3001, 60);
    config.command = "npm run dev".to_string();
    config.pwd = b"/srv/new".to_vec();
    assert_eq!(m.update_service_config("web", config).unwrap().terminate(), Some(7));
    assert_eq!(m.get_service_config("web").unwrap().port, 3001);
    let plan = spawn(&mut m, "web");
    assert_eq!(plan.args[1], "npm run dev");
    assert_eq!(plan.dir, b"/srv/new");
    assert_eq!(plan.startup.port, 3001);
    assert_eq!(plan.env.get("PORT").unwrap(), "3001");
}

#[test]
fn removed_service_is_gone_even_while_it_starts() {
    let mut m = manager();
    let plan = spawn(&mut m, "web");
    m.spawned(&plan.startup, Some(7));
    let t = ticket(&mut m, "web");
    let channel = m.subscribe_logs("web");
    assert_eq!(m.remove_service("web").unwrap().terminate(), Some(7));
    assert!(!m.has_service("web"));
    assert_eq!(m.subscribe_logs("web"), None);
    m.add_service("web".to_string(), service(3000, 60), 0);
    assert_ne!(m.subscribe_logs("web"), channel);
    let end = m.health_checked(&plan.startup, true, 0, 0).unwrap();
    assert_eq!(end.result, Ok(3000));
    assert_eq!(m.wait_finished(&t, true), Ok(3000));
    assert!(matches!(m.ensure_running("web", None, 0), Ok(EnsureStep::Start)));
    assert_eq!(m.service_names(), vec!["api".to_string(), "web".to_string()]);
}

#[test]
fn process_of_a_removed_service_is_given_up() {
    let mut m = manager();
    let plan = spawn(&mut m, "web");
    assert_eq!(m.remove_service("web").unwrap().terminate(), None);
    assert_eq!(m.spawned(&plan.startup, Some(9)).unwrap().terminate(), Some(9));
    assert_eq!(m.poll_process(&plan.startup), None);
    let end = m.health_checked(&plan.startup, false, 31 * NANOS, 0).unwrap();
    assert!(end.result.is_err());
    assert_eq!(end.kill, None);
}

#[test]
fn start_of_a_service_that_was_replaced_is_followed_to_its_end() {
    let mut m = manager();
    let plan = spawn(&mut m, "api");
    m.add_service("api".to_string(), service(4001, 60), 0);
    assert_eq!(m.spawned(&plan.startup, Some(10)), None);
    let process = Process { cycle: plan.startup.cycle, pid: Some(10) };
    assert_eq!(m.poll_process(&plan.startup), Some(process));
    let end = m.health_checked(&plan.startup, false, 31 * NANOS, 0).unwrap();
    assert_eq!(end.kill, Some(process));
    assert_eq!(m.running_process("api"), None);
    assert_eq!(m.get_service_config("api").unwrap().port, 4001);
}

#[test]
fn retired_services_are_forgotten_when_nothing_is_under_way() {
    let mut m = manager();
    let web = spawn(&mut m, "web");
    let api = spawn(&mut m, "api");
    m.add_service("web".to_string(), service(1, 1), 0);
    m.add_service("api".to_string(), service(2, 2), 0);
    m.forget_retired(&vec![web.startup.id, 99, web.startup.id]);
    assert!(m.spawned(&web.startup, Some(1)).is_none());
    assert!(m.spawned(&api.startup, Some(2)).is_some());
    assert!(m.poll_process(&web.startup).is_some());
    assert!(m.poll_process(&api.startup).is_none());
    m.forget_retired(&Vec::new());
    assert!(m.poll_process(&web.startup).is_none());
}

#[test]
fn older_start_leaves_a_newer_one_alone() {
    let mut m = manager();
    let first = spawn(&mut m, "web");
    m.spawned(&first.startup, Some(100));
    assert_eq!(m.stop_service("web").unwrap().terminate(), Some(100));
    let second = spawn(&mut m, "web");
    assert_eq!(m.spawned(&second.startup, Some(200)), None);
    assert_eq!(m.poll_process(&first.startup), None);
    let lines = Vec::new();
    assert!(m.process_polled(&first.startup, Some("exit status: 1"), &lines).is_none());
    let end = m.health_checked(&first.startup, false, 31 * NANOS, 0).unwrap();
    assert!(end.result.is_err());
    assert_eq!(end.kill, None);
    assert_eq!(m.spawn_failed(&first.startup, "late").kill, None);
    assert_eq!(m.spawned(&first.startup, Some(101)).unwrap().terminate(), Some(101));
    assert_eq!(m.health_checked(&first.startup, true, 0, 0).unwrap().result, Ok(3000));
    let t = ticket(&mut m, "web");
    assert_eq!(t.cycle, second.startup.cycle);
    assert_eq!(m.poll_process(&second.startup).unwrap().pid, Some(200));
    assert_eq!(m.health_checked(&second.startup, true, 6 * NANOS, 0).unwrap().result, Ok(3000));
    assert_eq!(m.running_process("web").unwrap().pid, Some(200));
}

#[test]
fn service_whose_process_has_ended_is_started_anew() {
    let mut m = manager();
    let plan = run(&mut m, "web", 7, 0);
    let process = m.running_process("web").unwrap();
    assert_eq!(process, Process { cycle: plan.startup.cycle, pid: Some(7) });
    assert!(matches!(m.ensure_running("web", None, 1), Ok(EnsureStep::Ready(3000))));
    let other = Process { cycle: process.cycle, pid: Some(8) };
    assert!(matches!(m.ensure_running("web", Some(other), 1), Ok(EnsureStep::Ready(3000))));
    assert!(matches!(m.ensure_running("web", Some(process), 1), Ok(EnsureStep::Start)));
    assert_eq!(m.running_process("web"), None);
    assert!(m.stop_service("web").is_none());
    let again = run(&mut m, "web", 9, 2);
    assert_eq!(m.running_process("web").unwrap().cycle, again.startup.cycle);
}

#[test]
fn service_stopped_while_starting_is_started_fresh() {
    let mut m = manager();
    let plan = spawn(&mut m, "web");
    m.spawned(&plan.startup, Some(7));
    assert_eq!(m.stop_service("web").unwrap().terminate(), Some(7));
    assert_eq!(m.health_checked(&plan.startup, true, 0, 0).unwrap().result, Ok(3000));
    assert!(matches!(m.ensure_running("web", None, 1), Ok(EnsureStep::Start)));
}

#[test]
fn service_is_asked_no_longer_than_the_start_may_take() {
    let plan = spawn(&mut manager(), "web");
    assert_eq!(probe_time(&plan.startup, 0), 30 * NANOS);
    assert_eq!(probe_time(&plan.startup, 29 * NANOS), NANOS);
    assert_eq!(probe_time(&plan.startup, 30 * NANOS), 0);
    assert_eq!(probe_time(&plan.startup, u128::MAX), 0);
}

#[test]
fn process_is_replaced_in_a_later_cycle() {
    let mut m = manager();
    let first = spawn(&mut m, "web");
    m.spawned(&first.startup, Some(7));
    assert!(m.stop_service("web").is_some());
    let second = spawn(&mut m, "web");
    assert_ne!(first.startup.cycle, second.startup.cycle);
    assert_eq!(m.spawned(&second.startup, Some(8)), None);
    assert_eq!(m.poll_process(&first.startup), None);
    assert_eq!(m.poll_process(&second.startup).unwrap().pid, Some(8));
    assert_eq!(m.spawned(&second.startup, Some(9)).unwrap().terminate(), Some(8));
}

#[test]
fn signals_go_to_the_group() {
    assert_eq!(process_group(1234), -1234);
    assert_eq!(process_group(0), 0);
    assert_eq!(after_grace(true, Some(7)), None);
    assert_eq!(after_grace(false, Some(7)), Some(7));
    assert_eq!(after_grace(false, None), None);
}
