//! A request that needs a service, followed until the service is ready or has failed.
//!
//! Each step says what is to be done next. What came of it is handed in as an event, and leads to
//! the next step.
use vstd::prelude::*;
use vstd::string::*;

use crate::service::{
    exit_message, failed_for, probe_time, same_startup, spawn_message, succeeded, time_left,
    timeout_message, wait_result, EnsureStep, ManagerView, Process, ServiceManager, ServiceState,
    SpawnPlan, StartEnd, StartStep, Startup, StopPlan, WaitTicket, NANOS,
};
use crate::text::texts;

verus! {

/// How far a request is.
#[derive(Debug)]
pub enum Phase {
    /// The service runs, as far as is known, and its process is being looked at.
    Checking { name: String, process: Process },
    /// Another request is starting the service.
    Waiting(WaitTicket),
    /// The process is being started.
    Spawning(Startup),
    /// Some time passes until the service is looked at.
    Pausing(Startup),
    /// The process is being looked at.
    Polling(Startup),
    /// The service is being asked whether it answers.
    Probing(Startup),
}

/// What is to be done next.
#[derive(Debug)]
pub enum Action {
    /// Look whether this process has ended.
    Look(Process),
    /// Wait until the start cycle ends, for so many seconds at most.
    Wait { cycle: u64, timeout: u64 },
    /// Start a process.
    Spawn(SpawnPlan),
    /// Wait for a while. `given_up` is what there is to do for a process that was given up.
    Pause { given_up: Option<StopPlan> },
    /// Look at the process, if there is one.
    Poll(Option<Process>),
    /// Ask the service on this port whether it answers, for so many nanoseconds at most.
    Probe { port: u16, time: u128 },
}

/// What came of it.
#[derive(Debug)]
pub enum Event {
    /// The process has ended or has not.
    Looked { ended: bool },
    /// The wait is over: the start cycle ended, or the time was up.
    WaitOver { notified: bool },
    /// The process could not be started.
    SpawnFailed { error: String },
    /// The process was started.
    Spawned { pid: Option<u32> },
    /// Some time has passed.
    Paused,
    /// The process is still running, or ended with `exit` when it had written `lines`. It was
    /// looked at so many nanoseconds after it was started.
    Polled { exit: Option<String>, lines: Vec<String>, elapsed: u128 },
    /// The service answered, or did not in the time that it had, so many nanoseconds after its
    /// process was started.
    Probed { healthy: bool, elapsed: u128 },
}

/// How it goes on.
#[derive(Debug)]
pub enum Step {
    /// Do this next.
    Next { phase: Phase, action: Action },
    /// The start cycle has ended.
    Ended(StartEnd),
    /// The request is answered: with the port to proxy to, or with what went wrong.
    Done(Result<u16, String>),
}

/// Whether an event can come in a phase.
pub open spec fn fits(phase: Phase, event: Event) -> bool {
    match phase {
        Phase::Checking { .. } => event is Looked,
        Phase::Waiting(_) => event is WaitOver,
        Phase::Spawning(_) => event is SpawnFailed || event is Spawned,
        Phase::Pausing(_) => event is Paused,
        Phase::Polling(_) => event is Polled,
        Phase::Probing(_) => event is Probed,
    }
}

/// Whether an event can come in a phase.
pub fn event_fits(phase: &Phase, event: &Event) -> (r: bool)
    ensures
        r == fits(*phase, *event),
{
    match (phase, event) {
        (Phase::Checking { .. }, Event::Looked { .. }) => true,
        (Phase::Waiting(_), Event::WaitOver { .. }) => true,
        (Phase::Spawning(_), Event::SpawnFailed { .. }) => true,
        (Phase::Spawning(_), Event::Spawned { .. }) => true,
        (Phase::Pausing(_), Event::Paused) => true,
        (Phase::Polling(_), Event::Polled { .. }) => true,
        (Phase::Probing(_), Event::Probed { .. }) => true,
        _ => false,
    }
}

/// Whether `step` is what follows for a request for the service `name`, once it is known whether
/// the process of the service has ended: the request is done where there is no such service or it
/// runs; else it waits for another request that is starting the service, or starts it.
pub open spec fn decides(m: ManagerView, name: Seq<char>, step: Step) -> bool {
    if !m.has(name) {
        step matches Step::Done(Err(message)) && message@ == "Unknown service: "@ + name
    } else {
        match m.services[name].state {
            ServiceState::Running => step matches Step::Done(Ok(port)) && port
                == m.services[name].config.port,
            ServiceState::Starting => {
                &&& step matches Step::Next {
                    phase: Phase::Waiting(ticket),
                    action: Action::Wait { cycle, timeout },
                }
                &&& m.is_ticket(name, false, ticket)
                &&& cycle == ticket.cycle
                &&& timeout == ticket.timeout
            },
            _ => {
                &&& step matches Step::Next {
                    phase: Phase::Spawning(startup),
                    action: Action::Spawn(plan),
                }
                &&& m.is_spawn(name, plan)
                &&& same_startup(startup, plan.startup)
            },
        }
    }
}

/// The services after that.
pub open spec fn decided(m: ManagerView, name: Seq<char>, now: u128) -> ManagerView {
    if !m.has(name) {
        m
    } else {
        match m.services[name].state {
            ServiceState::Running => m.touched(name, now),
            ServiceState::Starting => m,
            _ => m.begun(name),
        }
    }
}

/// The process of the service `name` that is looked at first.
pub open spec fn to_look_at(m: ManagerView, name: Seq<char>) -> Option<Process> {
    if m.has(name) && m.services[name].state == ServiceState::Running {
        m.services[name].process
    } else {
        None
    }
}

/// Whether `step` is how a request for the service `name` begins: with a look at the process of a
/// service that runs.
pub open spec fn begins(m: ManagerView, name: Seq<char>, step: Step) -> bool {
    match to_look_at(m, name) {
        Some(p) => {
            &&& step matches Step::Next {
                phase: Phase::Checking { name: asked, process },
                action: Action::Look(look),
            }
            &&& asked@ == name
            &&& process == p
            &&& look == p
        },
        None => decides(m.noted(name, None), name, step),
    }
}

/// The services after a request for the service `name` began.
pub open spec fn begun(m: ManagerView, name: Seq<char>, now: u128) -> ManagerView {
    match to_look_at(m, name) {
        Some(_) => m,
        None => decided(m.noted(name, None), name, now),
    }
}

/// Begins with a request for the service `name`.
pub fn begin(manager: &mut ServiceManager, name: &str, now: u128) -> (r: Step)
    ensures
        begins(old(manager)@, name@, r),
        final(manager)@ == begun(old(manager)@, name@, now),
        final(manager)@.wf(),
{
    match manager.running_process(name) {
        Some(process) => Step::Next {
            phase: Phase::Checking { name: name.to_owned(), process },
            action: Action::Look(process),
        },
        None => decide(manager, name, None, now),
    }
}

fn decide(manager: &mut ServiceManager, name: &str, ended: Option<Process>, now: u128) -> (r: Step)
    ensures
        decides(old(manager)@.noted(name@, ended), name@, r),
        final(manager)@ == decided(old(manager)@.noted(name@, ended), name@, now),
        final(manager)@.wf(),
{
    match manager.ensure_running(name, ended, now) {
        Err(message) => Step::Done(Err(message)),
        Ok(EnsureStep::Ready(port)) => Step::Done(Ok(port)),
        Ok(EnsureStep::Wait(ticket)) => wait_for(ticket),
        Ok(EnsureStep::Start) => match manager.start_service(name, now) {
            Err(message) => Step::Done(Err(message)),
            Ok(StartStep::Ready(port)) => Step::Done(Ok(port)),
            Ok(StartStep::Wait(ticket)) => wait_for(ticket),
            Ok(StartStep::Spawn(plan)) => Step::Next {
                phase: Phase::Spawning(plan.startup.clone()),
                action: Action::Spawn(plan),
            },
        },
    }
}

/// The process that was looked at, if it has ended.
pub open spec fn if_ended(process: Process, ended: bool) -> Option<Process> {
    if ended {
        Some(process)
    } else {
        None
    }
}

fn wait_for(ticket: WaitTicket) -> (r: Step)
    ensures
        r == (Step::Next {
            phase: Phase::Waiting(ticket),
            action: Action::Wait { cycle: ticket.cycle, timeout: ticket.timeout },
        }),
{
    let cycle: u64 = ticket.cycle;
    let timeout: u64 = ticket.timeout;
    Step::Next { phase: Phase::Waiting(ticket), action: Action::Wait { cycle, timeout } }
}

/// Whether `step` is how it goes on after `event`.
///
/// A service whose process has ended is started anew. A wait ends with the answer. A process that
/// was started is looked at again and again, each time after a pause; as long as it runs, the
/// service is asked whether it answers, for no longer than the start may still take. The start ends
/// when the process could not be started or has ended, when the service answers, and when the time
/// is up.
pub open spec fn goes_on(m: ManagerView, phase: Phase, event: Event, step: Step) -> bool {
    match (phase, event) {
        (Phase::Checking { name, process }, Event::Looked { ended }) => decides(
            m.noted(name@, if_ended(process, ended)),
            name@,
            step,
        ),
        (Phase::Waiting(ticket), Event::WaitOver { notified }) => step matches Step::Done(r)
            && wait_result(m, ticket, notified, r),
        (Phase::Spawning(startup), Event::SpawnFailed { error }) => step matches Step::Ended(end)
            && failed_for(end, startup, spawn_message(startup, error@)) && end.kill == m.process_of(
            startup,
        ),
        (Phase::Spawning(startup), Event::Spawned { pid }) => step == (Step::Next {
            phase: Phase::Pausing(startup),
            action: Action::Pause { given_up: m.give_up_plan(startup, pid) },
        }),
        (Phase::Pausing(startup), Event::Paused) => step == (Step::Next {
            phase: Phase::Polling(startup),
            action: Action::Poll(m.process_of(startup)),
        }),
        (Phase::Polling(startup), Event::Polled { exit, lines, elapsed }) => if exit is Some
            && m.process_of(startup) is Some {
            step matches Step::Ended(end) && failed_for(
                end,
                startup,
                exit_message(startup.name@, exit->0@, texts(lines@)),
            ) && end.kill is None
        } else {
            &&& step matches Step::Next {
                phase: Phase::Probing(probed),
                action: Action::Probe { port, time },
            }
            &&& probed == startup
            &&& port == startup.port
            &&& time == time_left(startup, elapsed)
        },
        (Phase::Probing(startup), Event::Probed { healthy, elapsed }) => if healthy {
            step matches Step::Ended(end) && succeeded(end, startup)
        } else if elapsed > startup.timeout * NANOS {
            step matches Step::Ended(end) && failed_for(end, startup, timeout_message(startup))
                && end.kill == m.process_of(startup)
        } else {
            step == (Step::Next {
                phase: Phase::Pausing(startup),
                action: Action::Pause { given_up: None },
            })
        },
        _ => false,
    }
}

/// The services after `event`.
pub open spec fn gone_on(m: ManagerView, phase: Phase, event: Event, now: u128) -> ManagerView {
    match (phase, event) {
        (Phase::Checking { name, process }, Event::Looked { ended }) => decided(
            m.noted(name@, if_ended(process, ended)),
            name@,
            now,
        ),
        (Phase::Spawning(startup), Event::SpawnFailed { error }) => m.start_failed(startup),
        (Phase::Spawning(startup), Event::Spawned { pid }) => m.with_process(startup, pid),
        (Phase::Polling(startup), Event::Polled { exit, lines, elapsed }) => if exit is Some
            && m.process_of(startup) is Some {
            m.start_failed(startup)
        } else {
            m
        },
        (Phase::Probing(startup), Event::Probed { healthy, elapsed }) => if healthy {
            m.start_succeeded(startup, now)
        } else if elapsed > startup.timeout * NANOS {
            m.start_failed(startup)
        } else {
            m
        },
        _ => m,
    }
}

/// Goes on with a request after `event`.
pub fn advance(manager: &mut ServiceManager, phase: Phase, event: Event, now: u128) -> (r: Step)
    requires
        fits(phase, event),
    ensures
        goes_on(old(manager)@, phase, event, r),
        final(manager)@ == gone_on(old(manager)@, phase, event, now),
        final(manager)@.wf(),
{
    match (phase, event) {
        (Phase::Checking { name, process }, Event::Looked { ended }) => {
            let gone: Option<Process> = if ended {
                Some(process)
            } else {
                None
            };
            decide(manager, name.as_str(), gone, now)
        },
        (Phase::Waiting(ticket), Event::WaitOver { notified }) => Step::Done(
            manager.wait_finished(&ticket, notified),
        ),
        (Phase::Spawning(startup), Event::SpawnFailed { error }) => Step::Ended(
            manager.spawn_failed(&startup, error.as_str()),
        ),
        (Phase::Spawning(startup), Event::Spawned { pid }) => {
            let given_up = manager.spawned(&startup, pid);
            Step::Next { phase: Phase::Pausing(startup), action: Action::Pause { given_up } }
        },
        (Phase::Pausing(startup), Event::Paused) => {
            let process = manager.poll_process(&startup);
            Step::Next { phase: Phase::Polling(startup), action: Action::Poll(process) }
        },
        (Phase::Polling(startup), Event::Polled { exit, lines, elapsed }) => {
            let status = match &exit {
                Some(text) => Some(text.as_str()),
                None => None,
            };
            match manager.process_polled(&startup, status, &lines) {
                Some(end) => Step::Ended(end),
                None => {
                    let port: u16 = startup.port;
                    let time: u128 = probe_time(&startup, elapsed);
                    Step::Next {
                        phase: Phase::Probing(startup),
                        action: Action::Probe { port, time },
                    }
                },
            }
        },
        (Phase::Probing(startup), Event::Probed { healthy, elapsed }) => {
            match manager.health_checked(&startup, healthy, elapsed, now) {
                Some(end) => Step::Ended(end),
                None => Step::Next {
                    phase: Phase::Pausing(startup),
                    action: Action::Pause { given_up: None },
                },
            }
        },
        (phase, _) => {
            assert(false);
            Step::Next { phase, action: Action::Pause { given_up: None } }
        },
    }
}

} // verus!
