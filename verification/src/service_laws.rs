//! What holds of the services, told in terms of what a service is: its configuration, its state,
//! its process and when it was last used.
use vstd::prelude::*;
use vstd::string::*;

use crate::config::{Config, ServiceConfigView};
use crate::laws::{law_reaps_the_idle, law_reload, law_reload_again, lemma_stops_of};
use crate::paths::same_path;
use crate::reload::{after_change, config_event, reports, ReloadReport, Wanted, WatchKind};
use crate::service::{fresh, group_of, halted, id_after, idle, initial, lemma_filter_names, plan_of};
use crate::service::{sound, stops_view, time_left, to_end, to_kill, ManagerView, NamedStop};
use crate::service::{Process, ServiceState, ServiceView, Startup, StopPlan, WaitTicket};
use crate::startup::{begins, begun, fits, goes_on, gone_on, Action, Event, Phase, Step};
use crate::text::{decimal, texts};

verus! {

// ---------------------------------------------------------------- one service

/// Stopping a service changes nothing of it but that it is stopped and has no process. Its process
/// is to be ended, within the grace period that is set, unless the service was stopped already.
pub proof fn law_stop(s: ServiceView, grace: u64)
    requires
        sound(s),
    ensures
        halted(s).state == ServiceState::Stopped,
        halted(s).process is None,
        halted(s).config == s.config,
        halted(s).last_activity == s.last_activity,
        halted(s).ready == s.ready,
        halted(s).id == s.id,
        s.state != ServiceState::Stopped ==> (plan_of(s, grace) matches Some(plan) && plan.process
            == s.process && plan.grace == grace),
        s.state == ServiceState::Stopped ==> plan_of(s, grace) is None,
{
}

/// The process that is asked to end is the one that was started for the service, its whole group is
/// meant, and it is killed after the grace period exactly if it has not ended by then.
pub proof fn law_signals(process: Process, grace: u64, pid: u32, exited: bool)
    ensures
        to_end(StopPlan { process: Some(process), grace: grace }) == process.pid,
        to_end(StopPlan { process: None, grace: grace }) is None,
        group_of(pid) + pid == 0,
        to_kill(true, Some(pid)) is None,
        to_kill(false, Some(pid)) == Some(pid),
        to_kill(exited, None) is None,
{
}

/// A service is idle from the first nanosecond after its idle timeout, which is in seconds, counted
/// from its last activity; and only one that runs is idle.
pub proof fn law_idle(s: ServiceView, now: u128)
    ensures
        s.state == ServiceState::Running ==> (idle(s, now) <==> now > s.last_activity
            + s.config.idle_timeout * 1_000_000_000),
        s.state != ServiceState::Running ==> !idle(s, now),
{
}

// ---------------------------------------------------------------- all services

/// A service that is registered is there under its name, configured as told, stopped, without a
/// process, as of now. The others are as before, and the names keep their order.
pub proof fn law_add(
    m: ManagerView,
    name: Seq<char>,
    config: ServiceConfigView,
    now: u128,
    other: Seq<char>,
)
    ensures
        ({
            let after = m.added(name, config, now);
            &&& after.has(name)
            &&& after.services[name].config == config
            &&& after.services[name].state == ServiceState::Stopped
            &&& after.services[name].process is None
            &&& after.services[name].last_activity == now
            &&& after.services[name].id == m.next_id
            &&& after.next_id != m.next_id
            &&& after.shutdown_grace == m.shutdown_grace
            &&& after.startup_timeout == m.startup_timeout
            &&& other != name ==> after.has(other) == m.has(other)
            &&& other != name && m.has(other) ==> after.services[other] == m.services[other]
            &&& m.has(name) ==> after.names == m.names
            &&& !m.has(name) ==> after.names == m.names.push(name)
            &&& m.has(name) ==> after.lookup(name, m.services[name].id) == if m.services[name].id
                == m.next_id {
                Some(after.services[name])
            } else {
                Some(m.services[name])
            }
        }),
{
}

/// A service that is taken out is gone, and nothing else is: the others are as before. A start of
/// it that is under way still finds it, stopped.
pub proof fn law_remove(m: ManagerView, name: Seq<char>, other: Seq<char>)
    requires
        m.wf(),
    ensures
        ({
            let after = m.removed(name);
            &&& !after.has(name)
            &&& other != name ==> after.has(other) == m.has(other)
            &&& other != name && m.has(other) ==> after.services[other] == m.services[other]
            &&& m.names.contains(name) ==> after.names.len() == m.names.len() - 1
            &&& m.has(name) ==> {
                let id = m.services[name].id;
                &&& after.retired.contains_key(id)
                &&& after.retired[id].state == ServiceState::Stopped
                &&& after.retired[id].process is None
                &&& after.retired[id].ready == m.services[name].ready
                &&& after.retired[id].config == m.services[name].config
            }
            &&& after.next_id == m.next_id
            &&& after.shutdown_grace == m.shutdown_grace
            &&& after.startup_timeout == m.startup_timeout
        }),
{
    m.names.index_of_first_ensures(name);
    if m.has(name) {
        assert(m.services.contains_key(name));
    }
}

/// Activity of a service is noted as of now. Nothing else of it changes, nor any other service.
pub proof fn law_activity(m: ManagerView, name: Seq<char>, now: u128, other: Seq<char>)
    requires
        m.has(name),
    ensures
        ({
            let after = m.touched(name, now);
            &&& after.services[name] == ServiceView { last_activity: now, ..m.services[name] }
            &&& after.services[name].last_activity == now
            &&& other != name ==> after.has(other) == m.has(other)
            &&& other != name && m.has(other) ==> after.services[other] == m.services[other]
            &&& after.names == m.names
        }),
{
}

/// A service that runs is stopped once its process is known to have ended, or if it has none. The
/// end of any other process is of no consequence, and no other service changes.
pub proof fn law_ended_process_is_noted(
    m: ManagerView,
    name: Seq<char>,
    ended: Option<Process>,
    other: Seq<char>,
)
    requires
        m.has(name),
    ensures
        ({
            let before = m.services[name];
            let after = m.noted(name, ended);
            let gone = before.state == ServiceState::Running && (before.process is None
                || before.process == ended);
            &&& gone ==> {
                &&& after.services[name].state == ServiceState::Stopped
                &&& after.services[name].process is None
                &&& after.services[name].config == before.config
                &&& after.services[name].last_activity == before.last_activity
                &&& after.services[name].id == before.id
            }
            &&& !gone ==> after == m
            &&& after.has(other) == m.has(other)
            &&& other != name && m.has(other) ==> after.services[other] == m.services[other]
        }),
{
}

/// Numbers that are given out one after the other differ. So do the log channels of two services,
/// and two start cycles.
pub proof fn law_numbers_differ(m: ManagerView, name: Seq<char>, id: u64)
    ensures
        id_after(id) != id,
        m.begun(name).next_id != m.next_id,
        m.begun(name).services[name].ready == m.next_id,
{
}

/// When services are stopped together, each of them is stopped, the others are as before, and
/// nothing is added or taken out.
pub proof fn law_stop_together(m: ManagerView, names: Seq<Seq<char>>, name: Seq<char>)
    ensures
        ({
            let after = m.halt_each(names);
            &&& after.has(name) == m.has(name)
            &&& after.names == m.names
            &&& after.next_id == m.next_id
            &&& after.shutdown_grace == m.shutdown_grace
            &&& after.startup_timeout == m.startup_timeout
            &&& m.has(name) && names.contains(name) ==> {
                &&& after.services[name].state == ServiceState::Stopped
                &&& after.services[name].config == m.services[name].config
            }
            &&& m.has(name) && !names.contains(name) ==> after.services[name] == m.services[name]
        }),
{
}

/// What is to be done for the services that were stopped is what the list says, in its order.
pub proof fn law_stops_view(stops: Seq<NamedStop>, i: int)
    requires
        0 <= i < stops.len(),
    ensures
        stops_view(stops).len() == stops.len(),
        stops_view(stops)[i] == (stops[i].name@, stops[i].plan),
{
}

/// When services are stopped together, the process of each that was not stopped yet is to be ended,
/// within the grace period that is set.
pub proof fn law_stops_cover(m: ManagerView, names: Seq<Seq<char>>, name: Seq<char>)
    requires
        names.contains(name),
        m.services[name].state != ServiceState::Stopped,
    ensures
        m.stops_of(names).contains(
            (
                name,
                StopPlan { process: m.services[name].process, grace: m.shutdown_grace },
            ),
        ),
    decreases names.len(),
{
    let rest = names.drop_last();
    let last = names.last();
    let stops = m.stops_of(names);
    let plan = StopPlan { process: m.services[name].process, grace: m.shutdown_grace };
    if name == last {
        assert(stops.last() == (name, plan));
        assert(stops[stops.len() - 1] == (name, plan));
    } else {
        let j = names.index_of(name);
        assert(rest[j] == name);
        law_stops_cover(m, rest, name);
        let before = m.stops_of(rest);
        let k = before.index_of((name, plan));
        assert(stops[k] == (name, plan));
    }
}

/// When services are stopped together, nothing is to be ended but the process of one of them that
/// was not stopped, and no service comes twice.
pub proof fn law_stops_are_for_the_stopped(m: ManagerView, names: Seq<Seq<char>>, i: int, j: int)
    requires
        names.no_duplicates(),
        0 <= i < j < m.stops_of(names).len(),
    ensures
        ({
            let (name, plan) = m.stops_of(names)[i];
            &&& names.contains(name)
            &&& m.services[name].state != ServiceState::Stopped
            &&& plan == StopPlan { process: m.services[name].process, grace: m.shutdown_grace }
            &&& m.stops_of(names)[j].0 != name
        }),
    decreases names.len(),
{
    lemma_stops_of(m, names, i);
    let rest = names.drop_last();
    let last = names.last();
    let before = m.stops_of(rest);
    assert(rest.no_duplicates());
    assert(!rest.contains(last));
    if j < before.len() {
        law_stops_are_for_the_stopped(m, rest, i, j);
    } else {
        lemma_stops_of(m, rest, i);
        assert(m.stops_of(names)[j].0 == last);
    }
}

/// When the daemon ends, the process of every service that has one is to be ended.
pub proof fn law_shutdown_ends_every_process(m: ManagerView, name: Seq<char>)
    requires
        m.wf(),
        m.has(name),
        m.services[name].state != ServiceState::Stopped,
    ensures
        m.stops_of(m.names).contains(
            (
                name,
                StopPlan { process: m.services[name].process, grace: m.shutdown_grace },
            ),
        ),
        m.halt_each(m.names).services[name].state == ServiceState::Stopped,
{
    assert(m.names.to_set().contains(name));
    law_stops_cover(m, m.names, name);
}

/// A service that runs and has seen no activity for longer than its idle timeout is stopped, and
/// its process is to be ended. A service that does not run, or has seen activity, is left alone.
pub proof fn law_idle_service_is_ended(m: ManagerView, name: Seq<char>, now: u128)
    requires
        m.wf(),
        m.has(name),
    ensures
        ({
            let s = m.services[name];
            let after = m.halt_each(m.idle_names(now)).services[name];
            let over = s.state == ServiceState::Running && now > s.last_activity
                + s.config.idle_timeout * 1_000_000_000;
            &&& over ==> after.state == ServiceState::Stopped && after.process is None
                && after.config == s.config
            &&& over ==> m.stops_of(m.idle_names(now)).contains(
                (name, StopPlan { process: s.process, grace: m.shutdown_grace }),
            )
            &&& !over ==> after == s
        }),
{
    law_idle(m.services[name], now);
    law_reaps_the_idle(m, name, now);
    let p = |n: Seq<char>| idle(m.services[n], now);
    lemma_filter_names(m.names, p);
    assert(m.names.to_set().contains(name));
    if idle(m.services[name], now) {
        assert(m.names.filter(p).contains(name));
        law_stops_cover(m, m.idle_names(now), name);
        assert(m.services.contains_key(name));
    }
}

/// Forgetting retired services leaves the current ones alone, and the retired ones that are in use.
pub proof fn law_forget(m: ManagerView, in_use: Seq<u64>, id: u64)
    ensures
        ({
            let after = m.forgotten(in_use);
            &&& after.services == m.services
            &&& after.names == m.names
            &&& after.next_id == m.next_id
            &&& after.retired.contains_key(id) <==> m.retired.contains_key(id) && in_use.contains(
                id,
            )
            &&& after.retired.contains_key(id) ==> after.retired[id] == m.retired[id]
        }),
{
}

// ---------------------------------------------------------------- requests

/// A request for a service that is being started waits for that start, exactly as long as a start
/// may take by the setting in force, and changes nothing.
pub proof fn law_wait_takes_the_startup_timeout(
    m: ManagerView,
    name: Seq<char>,
    now: u128,
    step: Step,
)
    requires
        begins(m, name, step),
        m.has(name),
        m.services[name].state == ServiceState::Starting,
    ensures
        step matches Step::Next {
            phase: Phase::Waiting(ticket),
            action: Action::Wait { cycle, timeout },
        } && {
            &&& timeout == m.startup_timeout
            &&& cycle == m.services[name].ready
            &&& ticket.name@ == name
            &&& ticket.id == m.services[name].id
            &&& ticket.port == m.services[name].config.port
            &&& ticket.timeout == m.startup_timeout
            &&& ticket.cycle == cycle
        },
        begun(m, name, now) == m,
{
}

/// What `start_service` hands to a request that waits says the same.
pub proof fn law_ticket(m: ManagerView, name: Seq<char>, rechecked: bool, ticket: WaitTicket)
    requires
        m.is_ticket(name, rechecked, ticket),
    ensures
        ticket.timeout == m.startup_timeout,
        ticket.name@ == name,
        ticket.id == m.services[name].id,
        ticket.cycle == m.services[name].ready,
        ticket.port == m.services[name].config.port,
        ticket.rechecked == rechecked,
{
}

/// A request for a service that is stopped, or has failed, starts it: with its command, handed to a
/// login shell, in its directory, with its environment, for as long as a start may take by the
/// setting in force. The service is starting then, as it was configured.
pub proof fn law_request_starts_the_service(
    m: ManagerView,
    name: Seq<char>,
    now: u128,
    step: Step,
    other: Seq<char>,
)
    requires
        begins(m, name, step),
        m.has(name),
        m.services[name].state == ServiceState::Stopped || m.services[name].state
            == ServiceState::Failed,
    ensures
        step matches Step::Next {
            phase: Phase::Spawning(startup),
            action: Action::Spawn(plan),
        } && {
            let config = m.services[name].config;
            &&& plan.program@ == "sh"@
            &&& plan.args@.len() == 2
            &&& plan.args@[0]@ == "-lc"@
            &&& plan.args@[1]@ == config.command
            &&& plan.dir@ == config.pwd
            &&& plan.env@ == config.env
            &&& startup.name@ == name
            &&& startup.port == config.port
            &&& startup.timeout == m.startup_timeout
            &&& startup.cycle == m.next_id
            &&& startup.id == m.services[name].id
            &&& plan.startup.name@ == name
            &&& plan.startup.cycle == startup.cycle
            &&& plan.startup.id == startup.id
        },
        ({
            let after = begun(m, name, now);
            &&& after.has(name)
            &&& after.services[name].state == ServiceState::Starting
            &&& after.services[name].ready == m.next_id
            &&& after.services[name].config == m.services[name].config
            &&& after.services[name].id == m.services[name].id
            &&& after.services[name].process == m.services[name].process
            &&& other != name && m.has(other) ==> after.services[other] == m.services[other]
            &&& other != name ==> after.has(other) == m.has(other)
            &&& after.names == m.names
            &&& after.startup_timeout == m.startup_timeout
            &&& after.shutdown_grace == m.shutdown_grace
        }),
{
    if let Step::Next { action: Action::Spawn(plan), .. } = step {
        assert(texts(plan.args@).len() == 2);
        assert(texts(plan.args@)[0] == plan.args@[0]@);
        assert(texts(plan.args@)[1] == plan.args@[1]@);
    }
}

/// A request for a service that runs looks at its process first, and changes nothing by that.
pub proof fn law_running_service_is_looked_at(
    m: ManagerView,
    name: Seq<char>,
    process: Process,
    step: Step,
    now: u128,
)
    requires
        m.has(name),
        m.services[name].state == ServiceState::Running,
        m.services[name].process == Some(process),
        begins(m, name, step),
    ensures
        step matches Step::Next {
            phase: Phase::Checking { name: asked, process: checked },
            action: Action::Look(looked),
        } && asked@ == name && checked == process && looked == process,
        begun(m, name, now) == m,
{
}

/// A request for a service that runs looks at its process, and if that has not ended, it gets the
/// port of the service and counts as activity.
pub proof fn law_running_service_is_used(
    m: ManagerView,
    name: Seq<char>,
    process: Process,
    first: Step,
    phase: Phase,
    second: Step,
    now: u128,
    other: Seq<char>,
)
    requires
        m.has(name),
        m.services[name].state == ServiceState::Running,
        m.services[name].process == Some(process),
        begins(m, name, first),
        first matches Step::Next { phase: checking, .. } && checking == phase,
        goes_on(m, phase, Event::Looked { ended: false }, second),
    ensures
        first matches Step::Next { action: Action::Look(p), .. } && p == process,
        second == Step::Done(Ok::<u16, String>(m.services[name].config.port)),
        ({
            let after = gone_on(m, phase, Event::Looked { ended: false }, now);
            &&& after.services[name].last_activity == now
            &&& after.services[name].state == ServiceState::Running
            &&& after.services[name].process == Some(process)
            &&& after.services[name].config == m.services[name].config
            &&& other != name && m.has(other) ==> after.services[other] == m.services[other]
        }),
{
}

/// A request for a service that there is not fails, says so, and changes nothing.
pub proof fn law_unknown_service_is_refused(
    m: ManagerView,
    name: Seq<char>,
    now: u128,
    step: Step,
)
    requires
        begins(m, name, step),
        !m.has(name),
    ensures
        step matches Step::Done(Err(message)) && message@ == "Unknown service: "@ + name,
        begun(m, name, now) == m,
{
}

/// A request that waited gets the port exactly if it was told in time and the service runs, be it
/// that the service was taken out meanwhile. What went wrong is said otherwise. The wait changes
/// nothing.
pub proof fn law_wait_result(
    m: ManagerView,
    ticket: WaitTicket,
    notified: bool,
    r: Result<u16, String>,
    now: u128,
)
    requires
        goes_on(
            m,
            Phase::Waiting(ticket),
            Event::WaitOver { notified: notified },
            Step::Done(r),
        ),
    ensures
        m.has(ticket.name@) && m.services[ticket.name@].id == ticket.id ==> (r is Ok <==> notified
            && m.services[ticket.name@].state == ServiceState::Running),
        !(m.has(ticket.name@) && m.services[ticket.name@].id == ticket.id) ==> (r is Ok
            <==> notified && m.retired.contains_key(ticket.id) && m.retired[ticket.id].state
            == ServiceState::Running),
        gone_on(m, Phase::Waiting(ticket), Event::WaitOver { notified: notified }, now) == m,
        r matches Ok(port) ==> port == ticket.port,
        r matches Err(message) ==> {
            &&& notified ==> message@ == "Service "@ + ticket.name@ + " failed to start"@
            &&& !notified && !ticket.rechecked ==> message@ == "Timed out waiting for service "@
                + ticket.name@ + " to start"@
            &&& !notified && ticket.rechecked ==> message@ == "Timed out waiting for service "@
                + ticket.name@
        },
{
}

/// A process that was started in time is the process of the service, which goes on starting. After
/// a pause that process is looked at, and as long as it runs, the service is asked on its port.
pub proof fn law_start_is_followed(
    m: ManagerView,
    startup: Startup,
    pid: Option<u32>,
    lines: Vec<String>,
    elapsed: u128,
    now: u128,
    started: Step,
    paused: Step,
    polled: Step,
)
    requires
        m.has(startup.name@),
        m.services[startup.name@].id == startup.id,
        m.services[startup.name@].ready == startup.cycle,
        m.services[startup.name@].state == ServiceState::Starting,
        m.services[startup.name@].process is None,
        goes_on(m, Phase::Spawning(startup), Event::Spawned { pid: pid }, started),
        goes_on(
            gone_on(m, Phase::Spawning(startup), Event::Spawned { pid: pid }, now),
            Phase::Pausing(startup),
            Event::Paused,
            paused,
        ),
        goes_on(
            m,
            Phase::Polling(startup),
            Event::Polled { exit: None, lines: lines, elapsed: elapsed },
            polled,
        ),
    ensures
        started == (Step::Next {
            phase: Phase::Pausing(startup),
            action: Action::Pause { given_up: None },
        }),
        ({
            let after = gone_on(m, Phase::Spawning(startup), Event::Spawned { pid: pid }, now);
            &&& after.services[startup.name@] == ServiceView {
                process: Some(Process { cycle: startup.cycle, pid: pid }),
                ..m.services[startup.name@]
            }
            &&& after.services[startup.name@].process matches Some(p) && p.pid == pid
            &&& after.services[startup.name@].state == ServiceState::Starting
            &&& after.services[startup.name@].config == m.services[startup.name@].config
        }),
        paused == (Step::Next {
            phase: Phase::Polling(startup),
            action: Action::Poll(Some(Process { cycle: startup.cycle, pid: pid })),
        }),
        polled matches Step::Next {
            phase: Phase::Probing(next),
            action: Action::Probe { port, .. },
        } && next == startup && port == startup.port,
        gone_on(
            gone_on(m, Phase::Spawning(startup), Event::Spawned { pid: pid }, now),
            Phase::Pausing(startup),
            Event::Paused,
            now,
        ) == gone_on(m, Phase::Spawning(startup), Event::Spawned { pid: pid }, now),
{
}

/// As long as the time of a start is not up, which is counted in seconds, a service that does not
/// answer is asked again after a pause. One that answers is ready, whenever it does.
pub proof fn law_start_is_patient(
    m: ManagerView,
    startup: Startup,
    elapsed: u128,
    now: u128,
    silent: Step,
    ready: Step,
)
    requires
        goes_on(
            m,
            Phase::Probing(startup),
            Event::Probed { healthy: false, elapsed: elapsed },
            silent,
        ),
        goes_on(
            m,
            Phase::Probing(startup),
            Event::Probed { healthy: true, elapsed: elapsed },
            ready,
        ),
    ensures
        elapsed <= startup.timeout * 1_000_000_000 ==> {
            &&& silent == (Step::Next {
                phase: Phase::Pausing(startup),
                action: Action::Pause { given_up: None },
            })
            &&& gone_on(
                m,
                Phase::Probing(startup),
                Event::Probed { healthy: false, elapsed: elapsed },
                now,
            ) == m
        },
        elapsed > startup.timeout * 1_000_000_000 ==> {
            &&& silent matches Step::Ended(end)
            &&& end.result matches Err(message)
            &&& message@ == "Service "@ + startup.name@ + " did not become ready within "@
                + decimal(startup.timeout as nat) + "s"@
            &&& end.cycle == startup.cycle
        },
        ready matches Step::Ended(end) && end.result == Ok::<u16, String>(startup.port)
            && end.cycle == startup.cycle && end.kill is None,
        time_left(startup, elapsed) == if elapsed <= startup.timeout * 1_000_000_000 {
            startup.timeout * 1_000_000_000 - elapsed
        } else {
            0
        },
{
}

/// A service that answers while it is starting runs from then on, with its process and as it was
/// configured. One whose process could not be started, ended, or did not answer in time, has failed
/// and has no process.
pub proof fn law_start_outcome(
    m: ManagerView,
    startup: Startup,
    error: String,
    exit: String,
    lines: Vec<String>,
    elapsed: u128,
    now: u128,
)
    requires
        m.has(startup.name@),
        m.services[startup.name@].id == startup.id,
        m.services[startup.name@].ready == startup.cycle,
    ensures
        ({
            let name = startup.name@;
            let before = m.services[name];
            let ready = gone_on(
                m,
                Phase::Probing(startup),
                Event::Probed { healthy: true, elapsed: elapsed },
                now,
            ).services[name];
            let unspawned = gone_on(
                m,
                Phase::Spawning(startup),
                Event::SpawnFailed { error: error },
                now,
            ).services[name];
            let exited = gone_on(
                m,
                Phase::Polling(startup),
                Event::Polled { exit: Some(exit), lines: lines, elapsed: elapsed },
                now,
            ).services[name];
            let late = gone_on(
                m,
                Phase::Probing(startup),
                Event::Probed { healthy: false, elapsed: elapsed },
                now,
            ).services[name];
            &&& ready.state == ServiceState::Running
            &&& ready.process == before.process
            &&& ready.last_activity == now
            &&& ready.config == before.config
            &&& ready.id == before.id
            &&& unspawned.state == ServiceState::Failed && unspawned.process is None
            &&& unspawned.config == before.config
            &&& before.process is Some ==> exited.state == ServiceState::Failed
                && exited.process is None
            &&& before.process is None ==> exited == before
            &&& elapsed > startup.timeout * 1_000_000_000 ==> late.state == ServiceState::Failed
                && late.process is None && late.config == before.config
        }),
{
}

/// When a start fails because the process could not be started or the service did not answer in
/// time, the process that the service has is asked to end.
pub proof fn law_failed_start_ends_the_process(
    m: ManagerView,
    startup: Startup,
    error: String,
    elapsed: u128,
    unspawned: Step,
    late: Step,
)
    requires
        m.has(startup.name@),
        m.services[startup.name@].id == startup.id,
        m.services[startup.name@].ready == startup.cycle,
        elapsed > startup.timeout * 1_000_000_000,
        goes_on(m, Phase::Spawning(startup), Event::SpawnFailed { error: error }, unspawned),
        goes_on(
            m,
            Phase::Probing(startup),
            Event::Probed { healthy: false, elapsed: elapsed },
            late,
        ),
    ensures
        unspawned matches Step::Ended(end) && end.kill == m.services[startup.name@].process,
        late matches Step::Ended(end) && end.kill == m.services[startup.name@].process,
{
}

/// A process that was started for a service that was stopped meanwhile, or started anew, or taken
/// out, is ended within the grace period that is set, and is not taken for the process of the
/// service. Where the service is still starting, the process that it had before is ended instead.
pub proof fn law_late_process_is_ended(
    m: ManagerView,
    startup: Startup,
    pid: Option<u32>,
    step: Step,
    now: u128,
)
    requires
        goes_on(m, Phase::Spawning(startup), Event::Spawned { pid: pid }, step),
    ensures
        ({
            let s = m.services[startup.name@];
            let current = m.has(startup.name@) && s.id == startup.id;
            let after = gone_on(m, Phase::Spawning(startup), Event::Spawned { pid: pid }, now);
            let plan = StopPlan {
                process: Some(Process { cycle: startup.cycle, pid: pid }),
                grace: m.shutdown_grace,
            };
            &&& step matches Step::Next { phase, action: Action::Pause { given_up } }
            &&& phase == Phase::Pausing(startup)
            &&& current && (s.ready != startup.cycle || s.state != ServiceState::Starting)
                ==> given_up == Some(plan) && after == m
            &&& !current && !m.retired.contains_key(startup.id) ==> given_up == Some(plan)
                && after == m
            &&& current && s.ready == startup.cycle && s.state == ServiceState::Starting
                ==> match s.process {
                Some(old_process) => given_up == Some(
                    StopPlan { process: Some(old_process), grace: m.shutdown_grace },
                ),
                None => given_up is None,
            }
        }),
{
}

/// A start of a service that was taken out meanwhile does nothing to another service that has its
/// name by then.
pub proof fn law_start_leaves_its_namesake(
    m: ManagerView,
    phase: Phase,
    event: Event,
    startup: Startup,
    now: u128,
)
    requires
        phase == Phase::Spawning(startup) || phase == Phase::Pausing(startup) || phase
            == Phase::Polling(startup) || phase == Phase::Probing(startup),
        m.has(startup.name@),
        m.services[startup.name@].id != startup.id,
    ensures
        gone_on(m, phase, event, now).services == m.services,
        gone_on(m, phase, event, now).names == m.names,
{
}

/// A start of a service that was taken out meanwhile goes on, and its end is noted for those who
/// wait for it. The services that there are do not change.
pub proof fn law_retired_start_ends(
    m: ManagerView,
    startup: Startup,
    error: String,
    elapsed: u128,
    now: u128,
)
    requires
        !(m.has(startup.name@) && m.services[startup.name@].id == startup.id),
        m.retired.contains_key(startup.id),
        m.retired[startup.id].ready == startup.cycle,
    ensures
        ({
            let ready = gone_on(
                m,
                Phase::Probing(startup),
                Event::Probed { healthy: true, elapsed: elapsed },
                now,
            );
            let unspawned = gone_on(
                m,
                Phase::Spawning(startup),
                Event::SpawnFailed { error: error },
                now,
            );
            &&& ready.services == m.services
            &&& unspawned.services == m.services
            &&& ready.retired[startup.id].state == ServiceState::Running
            &&& ready.retired[startup.id].last_activity == now
            &&& unspawned.retired[startup.id].state == ServiceState::Failed
            &&& unspawned.retired[startup.id].process is None
        }),
{
}

/// A service that is said to run but has no process is started anew by the next request.
pub proof fn law_lost_service_is_started(
    m: ManagerView,
    name: Seq<char>,
    step: Step,
    now: u128,
)
    requires
        m.has(name),
        m.services[name].state == ServiceState::Running,
        m.services[name].process is None,
        begins(m, name, step),
    ensures
        step matches Step::Next { action: Action::Spawn(plan), .. } && plan.startup.name@ == name
            && plan.startup.cycle == m.next_id,
        begun(m, name, now).services[name].state == ServiceState::Starting,
        begun(m, name, now).services[name].process is None,
{
}

/// In every phase the events come that say what came of it, and no others.
pub proof fn law_phases(
    startup: Startup,
    ticket: WaitTicket,
    name: String,
    process: Process,
    event: Event,
)
    ensures
        fits(Phase::Checking { name: name, process: process }, event) == (event is Looked),
        fits(Phase::Waiting(ticket), event) == (event is WaitOver),
        fits(Phase::Spawning(startup), event) == (event is SpawnFailed || event is Spawned),
        fits(Phase::Pausing(startup), event) == (event is Paused),
        fits(Phase::Polling(startup), event) == (event is Polled),
        fits(Phase::Probing(startup), event) == (event is Probed),
{
}

/// What is said of a process that could not be started names the service and gives the error.
pub proof fn law_failed_spawn_is_explained(
    m: ManagerView,
    startup: Startup,
    error: String,
    step: Step,
)
    requires
        goes_on(m, Phase::Spawning(startup), Event::SpawnFailed { error: error }, step),
    ensures
        step matches Step::Ended(end) && end.cycle == startup.cycle && (
        end.result matches Err(message) && message@ == "Failed to spawn "@ + startup.name@ + ": "@
            + error@),
{
}

/// What is said of a process that ended while its service was starting names the service and tells
/// how the process ended, with the last line that it wrote, if it wrote any.
pub proof fn law_early_exit_is_explained(
    m: ManagerView,
    startup: Startup,
    exit: String,
    lines: Vec<String>,
    elapsed: u128,
    step: Step,
)
    requires
        m.has(startup.name@),
        m.services[startup.name@].id == startup.id,
        m.services[startup.name@].ready == startup.cycle,
        m.services[startup.name@].process is Some,
        goes_on(
            m,
            Phase::Polling(startup),
            Event::Polled { exit: Some(exit), lines: lines, elapsed: elapsed },
            step,
        ),
    ensures
        step matches Step::Ended(end) && end.cycle == startup.cycle && end.kill is None && (
        end.result matches Err(message) && {
            let said = "Service "@ + startup.name@ + " exited with "@ + exit@;
            &&& lines@.len() == 0 ==> message@ == said
            &&& lines@.len() > 0 ==> message@ == said + " ("@ + lines@.last()@ + ")"@
        }),
{
    let said = "Service "@ + startup.name@ + " exited with "@ + exit@;
    if lines@.len() > 0 {
        assert(texts(lines@).last() == lines@.last()@);
        assert(said + (" ("@ + lines@.last()@ + ")"@) =~= said + " ("@ + lines@.last()@ + ")"@);
    } else {
        assert(said + Seq::<char>::empty() =~= said);
    }
}

/// A service whose process has not ended, or that has none, is asked on its port, and the look
/// changes nothing.
pub proof fn law_running_process_is_asked(
    m: ManagerView,
    startup: Startup,
    exit: Option<String>,
    lines: Vec<String>,
    elapsed: u128,
    step: Step,
    now: u128,
)
    requires
        goes_on(
            m,
            Phase::Polling(startup),
            Event::Polled { exit: exit, lines: lines, elapsed: elapsed },
            step,
        ),
        exit is None || (m.has(startup.name@) && m.services[startup.name@].id == startup.id
            && m.services[startup.name@].process is None),
    ensures
        step matches Step::Next {
            phase: Phase::Probing(next),
            action: Action::Probe { port, .. },
        } && next == startup && port == startup.port,
        gone_on(
            m,
            Phase::Polling(startup),
            Event::Polled { exit: exit, lines: lines, elapsed: elapsed },
            now,
        ) == m,
{
}

/// Whatever became of a service while its process was looked at, the request goes on with the
/// service as it is then: it gets the port of one that runs, unless the process that was looked at
/// is the one of the service and has ended; it waits for one that is being started; and it starts
/// any other.
pub proof fn law_request_after_look(
    m: ManagerView,
    name: String,
    process: Process,
    ended: bool,
    step: Step,
    now: u128,
)
    requires
        goes_on(
            m,
            Phase::Checking { name: name, process: process },
            Event::Looked { ended: ended },
            step,
        ),
    ensures
        ({
            let s = m.services[name@];
            let after = gone_on(
                m,
                Phase::Checking { name: name, process: process },
                Event::Looked { ended: ended },
                now,
            );
            let runs = s.state == ServiceState::Running && (s.process matches Some(p) && !(ended
                && p == process));
            &&& !m.has(name@) ==> (step matches Step::Done(Err(message)) && message@
                == "Unknown service: "@ + name@ && after == m)
            &&& m.has(name@) && runs ==> step == Step::Done(Ok::<u16, String>(s.config.port))
                && after.services[name@] == ServiceView { last_activity: now, ..s }
            &&& m.has(name@) && s.state == ServiceState::Starting ==> (step matches Step::Next {
                action: Action::Wait { cycle, timeout },
                ..
            } && timeout == m.startup_timeout && cycle == s.ready && after == m)
            &&& m.has(name@) && s.state != ServiceState::Starting && !runs ==> (
            step matches Step::Next { action: Action::Spawn(plan), .. } && plan.startup.name@
                == name@ && plan.startup.cycle == m.next_id && after.services[name@].state
                == ServiceState::Starting && after.services[name@].ready == m.next_id)
        }),
{
}

// ---------------------------------------------------------------- reloading

/// A manager that was made from a configuration has its services, configured as told and stopped,
/// and its settings, and to take over that configuration changes nothing.
pub proof fn law_new_manager(
    config: Config,
    now: u128,
    m: ManagerView,
    later: u128,
    name: Seq<char>,
)
    requires
        initial(config, now, m),
        config.services.wf(),
    ensures
        m.shutdown_grace == config.shutdown_grace,
        m.startup_timeout == config.startup_timeout,
        m.names == config.services.names(),
        m.has(name) <==> config.services@.contains_key(name),
        m.has(name) ==> {
            &&& m.services[name].config == config.services@[name]
            &&& m.services[name].state == ServiceState::Stopped
            &&& m.services[name].process is None
            &&& m.services[name].last_activity == now
        },
        m.reloaded(config, later) == m,
        m.reload_stops(config).len() == 0,
{
    assert forall|n: Seq<char>| #[trigger] m.has(n) implies m.services[n].config
        == config.services@[n] && m.services[n].state == ServiceState::Stopped
        && m.services[n].process is None && m.services[n].last_activity == now by {
        assert(m.names.to_set().contains(n));
        let i = m.names.index_of(n);
        assert(m.services[m.names[i]] == fresh(config.services@[m.names[i]], now, i as u64));
    }
    law_reload_again(m, config, later);
}

/// After a configuration was taken over, every service of it has exactly the port, the command, the
/// environment and the idle timeout that are configured, and the same directory, and the settings
/// are the configured ones. A request that then waits for a start waits as long as is configured.
pub proof fn law_reload_takes_effect(
    m: ManagerView,
    config: Config,
    now: u128,
    name: Seq<char>,
    step: Step,
)
    requires
        m.wf(),
        config.services.wf(),
    ensures
        ({
            let after = m.reloaded(config, now);
            &&& after.shutdown_grace == config.shutdown_grace
            &&& after.startup_timeout == config.startup_timeout
            &&& after.has(name) <==> config.services@.contains_key(name)
            &&& after.has(name) ==> {
                &&& after.services[name].config.port == config.services@[name].port
                &&& after.services[name].config.command == config.services@[name].command
                &&& after.services[name].config.env == config.services@[name].env
                &&& after.services[name].config.idle_timeout
                    == config.services@[name].idle_timeout
                &&& same_path(after.services[name].config.pwd, config.services@[name].pwd)
            }
            &&& begins(after, name, step) ==> (step matches Step::Next {
                action: Action::Wait { timeout, .. },
                ..
            } ==> timeout == config.startup_timeout)
        }),
{
    law_reload(m, config, now, name);
}

/// A service whose configuration is written as before goes on as it is: it keeps its state, its
/// process and its last activity. One of which the port, the command, the environment, the idle
/// timeout or the directory changed is stopped, and configured as is written now. A new one is
/// stopped, and has never run.
pub proof fn law_reload_touches_the_changed(
    m: ManagerView,
    config: Config,
    now: u128,
    name: Seq<char>,
)
    requires
        m.wf(),
        config.services.wf(),
        config.services@.contains_key(name),
    ensures
        ({
            let before = m.services[name];
            let wanted = config.services@[name];
            let after = m.reloaded(config, now).services[name];
            let same = before.config.port == wanted.port && before.config.command == wanted.command
                && before.config.env == wanted.env && before.config.idle_timeout
                == wanted.idle_timeout && same_path(before.config.pwd, wanted.pwd);
            &&& m.has(name) && same ==> after == before
            &&& m.has(name) && !same ==> {
                &&& after.state == ServiceState::Stopped
                &&& after.process is None
                &&& after.config == wanted
                &&& after.id == before.id
            }
            &&& !m.has(name) ==> {
                &&& after.state == ServiceState::Stopped
                &&& after.process is None
                &&& after.config == wanted
                &&& after.last_activity == now
            }
        }),
{
    law_reload(m, config, now, name);
    if m.has(name) {
        assert(m.services.contains_key(name));
    }
}

/// The process of every service that is not configured any more, or is configured otherwise, and
/// was not stopped, is to be ended, within the grace period of the new configuration.
pub proof fn law_reload_ends_what_it_stops(m: ManagerView, config: Config, name: Seq<char>)
    requires
        m.wf(),
        config.services.wf(),
        m.has(name),
        m.services[name].state != ServiceState::Stopped,
        !config.services@.contains_key(name) || {
            let before = m.services[name].config;
            let wanted = config.services@[name];
            before.port != wanted.port || before.command != wanted.command || before.env
                != wanted.env || before.idle_timeout != wanted.idle_timeout || !same_path(
                before.pwd,
                wanted.pwd,
            )
        },
    ensures
        m.reload_stops(config).contains(
            (
                name,
                StopPlan { process: m.services[name].process, grace: config.shutdown_grace },
            ),
        ),
{
    let wanted = config.services@;
    let set = m.with_settings(config.shutdown_grace, config.startup_timeout);
    let stop = (
        name,
        StopPlan { process: m.services[name].process, grace: config.shutdown_grace },
    );
    let gone = |n: Seq<char>| !wanted.contains_key(n);
    let other = |n: Seq<char>| set.differs(n, wanted[n]);
    lemma_filter_names(set.names, gone);
    lemma_filter_names(config.services.names(), other);
    let a = set.stops_of(set.unwanted(wanted));
    let b = set.stops_of(set.outdated(wanted, config.services.names()));
    let all = m.reload_stops(config);
    assert(m.names.to_set().contains(name));
    if !wanted.contains_key(name) {
        assert(set.names.filter(gone).contains(name));
        law_stops_cover(set, set.unwanted(wanted), name);
        let i = a.index_of(stop);
        assert(all[i] == stop);
    } else {
        assert(config.services.names().to_set().contains(name));
        assert(config.services.names().filter(other).contains(name));
        law_stops_cover(set, set.outdated(wanted, config.services.names()), name);
        let i = b.index_of(stop);
        assert(all[a.len() + i] == stop);
    }
}

proof fn lemma_retired_holds(m: ManagerView, names: Seq<Seq<char>>, name: Seq<char>)
    requires
        names.contains(name),
        forall|n: Seq<char>| #[trigger] names.contains(n) ==> sound(m.services[n]),
    ensures
        ({
            let id = m.services[name].id;
            &&& m.retired_after(names).contains_key(id)
            &&& m.retired_after(names)[id].state == ServiceState::Stopped
            &&& m.retired_after(names)[id].process is None
        }),
    decreases names.len(),
{
    let rest = names.drop_last();
    let last = names.last();
    assert(names[names.len() - 1] == last);
    assert(names.contains(last));
    if name != last {
        let j = names.index_of(name);
        assert(rest[j] == name);
        assert forall|n: Seq<char>| #[trigger] rest.contains(n) implies sound(m.services[n]) by {
            let k = rest.index_of(n);
            assert(names[k] == n);
            assert(names.contains(n));
        }
        lemma_retired_holds(m, rest, name);
    }
}

proof fn lemma_reconciled_retires_none(
    m: ManagerView,
    wanted: Wanted,
    names: Seq<Seq<char>>,
    now: u128,
)
    ensures
        m.reconciled_all(wanted, names, now).retired == m.retired,
    decreases names.len(),
{
    if names.len() > 0 {
        lemma_reconciled_retires_none(m, wanted, names.drop_last(), now);
    }
}

/// A service that is not configured any more is stopped, and a start of it that is under way still
/// finds it so.
pub proof fn law_reload_retires(m: ManagerView, config: Config, now: u128, name: Seq<char>)
    requires
        m.wf(),
        config.services.wf(),
        m.has(name),
        !config.services@.contains_key(name),
    ensures
        ({
            let after = m.reloaded(config, now);
            let id = m.services[name].id;
            &&& !after.has(name)
            &&& after.retired.contains_key(id)
            &&& after.retired[id].state == ServiceState::Stopped
            &&& after.retired[id].process is None
        }),
{
    let wanted = config.services@;
    let set = m.with_settings(config.shutdown_grace, config.startup_timeout);
    let gone = |n: Seq<char>| !wanted.contains_key(n);
    lemma_filter_names(set.names, gone);
    law_reload(m, config, now, name);
    assert(m.names.to_set().contains(name));
    assert(set.names.filter(gone).contains(name));
    let unwanted = set.unwanted(wanted);
    assert forall|n: Seq<char>| #[trigger] unwanted.contains(n) implies sound(set.services[n]) by {
        assert(m.names.to_set().contains(n));
        assert(m.services.contains_key(n));
    }
    lemma_retired_holds(set, unwanted, name);
    lemma_reconciled_retires_none(set.pruned(wanted), wanted, config.services.names(), now);
}

/// A configuration file that was changed and cannot be read changes nothing. One that can be read
/// is taken over: its services are there, with the ports that are configured, and no others.
pub proof fn law_changed_file(
    m: ManagerView,
    loaded: Result<Config, String>,
    now: u128,
    name: Seq<char>,
)
    requires
        m.wf(),
        loaded matches Ok(config) ==> config.services.wf(),
    ensures
        loaded is Err ==> after_change(m, loaded, now) == m,
        loaded matches Ok(config) ==> {
            let after = after_change(m, loaded, now);
            &&& after.has(name) <==> config.services@.contains_key(name)
            &&& after.has(name) ==> after.services[name].config.port
                == config.services@[name].port
            &&& after.startup_timeout == config.startup_timeout
            &&& after.shutdown_grace == config.shutdown_grace
        },
{
    if let Ok(config) = loaded {
        law_reload(m, config, now, name);
    }
}

/// A change of the address, the port or the domain is reported exactly where there is one,
/// whichever way it goes.
pub proof fn law_restart_needed(
    report: ReloadReport,
    bind: Seq<char>,
    port: u16,
    domain: Seq<char>,
    config: Config,
)
    requires
        reports(report, bind, port, domain, config),
    ensures
        !report.bind_changed <==> bind == config.bind@,
        !report.port_changed <==> port == config.port,
        !report.domain_changed <==> domain == config.domain@,
{
}

/// The configuration is read again after every event by which a file of its name was created, was
/// written, or took that name, and after no other.
pub proof fn law_config_event(kind: WatchKind, paths: Seq<Vec<u8>>, name: Seq<u8>, i: int)
    ensures
        kind == WatchKind::Other ==> !config_event(kind, paths, name),
        (kind == WatchKind::Created || kind == WatchKind::DataModified || kind
            == WatchKind::RenamedTo) && 0 <= i < paths.len() && crate::paths::file_name(paths[i]@)
            == Some(name) ==> config_event(kind, paths, name),
        (forall|j: int|
            0 <= j < paths.len() ==> crate::paths::file_name(#[trigger] paths[j]@) != Some(name))
            ==> !config_event(kind, paths, name),
{
}

} // verus!
