//! What holds of the library as a whole: laws that relate several of its functions.
use vstd::prelude::*;
use vstd::string::*;

use crate::config::{config_file, expanded_path, home_config, lookup_of, resolved, same_config};
use crate::config::{Config, ConfigLookup, RawConfig, ServiceConfigView};
use crate::control::{request, requested, word, Command};
use crate::paths::written;
use crate::proxy::{first_value, left_out, passed_on};
use crate::reload::{lemma_filter_all, lemma_reconciled_others, Wanted};
use crate::routing::{routed, without_port};
use crate::service::{fresh, halted, idle, lemma_filter_names, plan_of, ManagerView, Process};
use crate::service::{sound, wait_result, ServiceState, ServiceView, SpawnPlan, StartEnd, Startup};
use crate::service::WaitTicket;
use crate::startup::{begins, begun, decided, decides, goes_on, gone_on, Action, Event, Phase};
use crate::startup::Step;
use crate::text::{before_mark, lemma_before_mark_unique, texts, trimmed, white_space};

verus! {

// ---------------------------------------------------------------- routing

/// A service is reached at `<name>.<domain>`, with or without a port behind it.
pub proof fn law_host_reaches_service(
    m: ManagerView,
    name: Seq<char>,
    domain: Seq<char>,
    port: Seq<char>,
)
    requires
        m.has(name),
        name.len() > 0,
        !name.contains(':'),
        !domain.contains(':'),
    ensures
        routed(m, name + "."@ + domain, domain) == Some(name),
        routed(m, name + "."@ + domain + ":"@ + port, domain) == Some(name),
{
    reveal_strlit(".");
    reveal_strlit(":");
    let host = name + "."@ + domain;
    let long = host + ":"@ + port;
    let n = host.len() as int;
    assert forall|i: int| 0 <= i < n implies host[i] != ':' by {
        if i < name.len() {
            assert(name.contains(name[i]));
        } else if i > name.len() {
            assert(domain.contains(domain[i - name.len() - 1]));
        }
    }
    lemma_before_mark_unique(host, ':', n);
    lemma_before_mark_unique(long, ':', n);
    assert(host.take(n) =~= host);
    assert(long.take(n) =~= host);
    assert(host.take(name.len() as int) =~= name);
}

/// A request is proxied to a service only if its host is `<name>.<domain>`, but for the port. So
/// it is never proxied to two, and the domain itself is no service.
pub proof fn law_service_has_one_host(m: ManagerView, host: Seq<char>, domain: Seq<char>)
    ensures
        routed(m, host, domain) matches Some(name) ==> m.has(name) && name.len() > 0
            && without_port(host) == name + "."@ + domain,
        without_port(host) == domain ==> routed(m, host, domain) is None,
{
}

// ---------------------------------------------------------------- requests

/// A header other than `Connection` and `Transfer-Encoding` reaches the service as it came: all its
/// lines, in their order, and so the first of them. Those two do not.
pub proof fn law_headers_pass(lines: Seq<(Seq<char>, Seq<u8>)>, name: Seq<char>)
    ensures
        !left_out(name) ==> passed_on(lines).filter(|l: (Seq<char>, Seq<u8>)| l.0 == name)
            == lines.filter(|l: (Seq<char>, Seq<u8>)| l.0 == name),
        !left_out(name) ==> first_value(passed_on(lines), name) == first_value(lines, name),
        left_out(name) ==> first_value(passed_on(lines), name) is None,
    decreases lines.len(),
{
    let keep = |l: (Seq<char>, Seq<u8>)| !left_out(l.0);
    let own = |l: (Seq<char>, Seq<u8>)| l.0 == name;
    reveal(Seq::filter);
    if lines.len() > 0 {
        let rest = lines.drop_last();
        let last = lines.last();
        law_headers_pass(rest, name);
        lemma_first_of_push(rest, last, name);
        assert(rest.push(last) =~= lines);
        if keep(last) {
            let out = passed_on(rest).push(last);
            assert(passed_on(lines) == out);
            assert(out.drop_last() =~= passed_on(rest));
            lemma_first_of_push(passed_on(rest), last, name);
        } else {
            assert(passed_on(lines) == passed_on(rest));
        }
    }
}

proof fn lemma_first_of_push(
    lines: Seq<(Seq<char>, Seq<u8>)>,
    last: (Seq<char>, Seq<u8>),
    name: Seq<char>,
)
    ensures
        first_value(lines.push(last), name) == match first_value(lines, name) {
            Some(v) => Some(v),
            None => if last.0 == name {
                Some(last.1)
            } else {
                None
            },
        },
    decreases lines.len(),
{
    let more = lines.push(last);
    if lines.len() == 0 {
        assert(more.drop_first().len() == 0);
        assert(first_value(more.drop_first(), name) is None);
    } else {
        lemma_first_of_push(lines.drop_first(), last, name);
        assert(more.drop_first() =~= lines.drop_first().push(last));
    }
}

/// The host that a client asked for is the one that the service sees.
pub proof fn law_host_passes(lines: Seq<(Seq<char>, Seq<u8>)>)
    ensures
        first_value(passed_on(lines), "host"@) == first_value(lines, "host"@),
{
    reveal_strlit("host");
    reveal_strlit("connection");
    reveal_strlit("transfer-encoding");
    assert("host"@.len() != "connection"@.len());
    assert("host"@.len() != "transfer-encoding"@.len());
    law_headers_pass(lines, "host"@);
}

// ---------------------------------------------------------------- configuration

/// The configuration file is the one that was given, and else the first that exists of the one in
/// the user's directory for configuration files, the one below the home directory, and the one for
/// all users.
pub proof fn law_config_search_order(
    cli_path: Option<Seq<char>>,
    config_dir: Option<Seq<u8>>,
    home: Option<Seq<u8>>,
    lookup: ConfigLookup,
    xdg_exists: bool,
    user_exists: bool,
    system_exists: bool,
)
    requires
        lookup_of(cli_path, config_dir, home, lookup),
    ensures
        ({
            let path = lookup.chosen(xdg_exists, user_exists, system_exists);
            match cli_path {
                Some(given) => path == expanded_path(given, home),
                None => {
                    let xdg_found = config_dir is Some && xdg_exists;
                    let user_found = home is Some && user_exists;
                    &&& xdg_found ==> path == config_file(config_dir->0)
                    &&& !xdg_found && user_found ==> path == config_file(home_config(home->0))
                    &&& !xdg_found && !user_found && system_exists ==> path == written(
                        "/etc/baywatch/config.yaml"@,
                    )
                },
            }
        }),
{
}

/// The idle timeout of a service is its own, or else the global one, or else 600 seconds.
pub proof fn law_idle_timeout(
    raw: RawConfig,
    cwd: Result<Vec<u8>, String>,
    home: Option<Seq<u8>>,
    c: Config,
    name: Seq<char>,
)
    requires
        resolved(raw, cwd, home, c),
        raw.services@.contains_key(name),
    ensures
        c.services@.contains_key(name),
        raw.services@[name].idle_timeout matches Some(own) ==> c.services@[name].idle_timeout
            == own,
        raw.services@[name].idle_timeout is None ==> (raw.idle_timeout matches Some(global)
            ==> c.services@[name].idle_timeout == global),
        raw.services@[name].idle_timeout is None && raw.idle_timeout is None
            ==> c.services@[name].idle_timeout == 600,
{
}

// ---------------------------------------------------------------- stopping

/// A service that was stopped has no process, and to stop it once more does nothing.
pub proof fn law_stop_twice(s: ServiceView, grace: u64)
    requires
        sound(s),
    ensures
        halted(s).state == ServiceState::Stopped,
        halted(s).process is None,
        halted(halted(s)) == halted(s),
        plan_of(halted(s), grace) is None,
{
}

/// When all services are stopped, none is left out, none keeps a process, and each keeps its
/// configuration.
pub proof fn law_all_stopped(m: ManagerView, name: Seq<char>)
    requires
        m.wf(),
        m.has(name),
    ensures
        m.halt_each(m.names).has(name),
        m.halt_each(m.names).services[name].state == ServiceState::Stopped,
        m.halt_each(m.names).services[name].process is None,
        m.halt_each(m.names).services[name].config == m.services[name].config,
{
    assert(m.names.to_set().contains(name));
}

/// The services that are stopped for being idle are exactly the idle ones, and the others stay as
/// they are.
pub proof fn law_reaps_the_idle(m: ManagerView, name: Seq<char>, now: u128)
    requires
        m.wf(),
        m.has(name),
    ensures
        m.halt_each(m.idle_names(now)).services[name] == if idle(m.services[name], now) {
            halted(m.services[name])
        } else {
            m.services[name]
        },
{
    let p = |n: Seq<char>| idle(m.services[n], now);
    lemma_filter_names(m.names, p);
    assert(m.names.to_set().contains(name));
    assert(m.names.filter(p).contains(name) == idle(m.services[name], now));
}

/// A service that saw a request within its idle timeout is not stopped for being idle.
pub proof fn law_activity_keeps_alive(m: ManagerView, name: Seq<char>, seen: u128, now: u128)
    requires
        m.wf(),
        m.has(name),
        now - seen <= m.services[name].config.idle_timeout * 1_000_000_000,
    ensures
        ({
            let after = m.touched(name, seen);
            after.halt_each(after.idle_names(now)).services[name] == after.services[name]
        }),
{
    let after = m.touched(name, seen);
    assert(m.names.to_set().contains(name));
    assert(after.services.dom() =~= m.services.dom());
    assert forall|n: Seq<char>| #[trigger] after.services.contains_key(n) implies sound(
        after.services[n],
    ) by {
        assert(m.services.contains_key(n));
    }
    law_reaps_the_idle(after, name, now);
}

/// A service that was stopped for being idle has to be started for the next request, and is
/// configured as before.
pub proof fn law_reaped_starts_again(m: ManagerView, name: Seq<char>, now: u128)
    requires
        m.wf(),
        m.has(name),
        idle(m.services[name], now),
    ensures
        m.halt_each(m.idle_names(now)).has(name),
        m.halt_each(m.idle_names(now)).services[name].state == ServiceState::Stopped,
        m.halt_each(m.idle_names(now)).services[name].config == m.services[name].config,
{
    law_reaps_the_idle(m, name, now);
}

// ---------------------------------------------------------------- starting

/// Once a request has begun to start a service, every other request for it waits.
pub proof fn law_one_starter(m: ManagerView, name: Seq<char>, now: u128, first: Step, other: Step)
    requires
        decides(m, name, first),
        first matches Step::Next { action: Action::Spawn(_), .. },
        begins(decided(m, name, now), name, other),
    ensures
        decided(m, name, now).services[name].state == ServiceState::Starting,
        other matches Step::Next { phase: Phase::Waiting(ticket), .. } && ticket.cycle
            == m.next_id,
        first matches Step::Next { phase: Phase::Spawning(startup), .. } && startup.cycle
            == m.next_id,
{
}

/// A service that is starting stays so, configured as it is, until its start ends: no step before
/// that changes it.
pub proof fn law_starting_until_ended(
    m: ManagerView,
    phase: Phase,
    event: Event,
    step: Step,
    now: u128,
    name: Seq<char>,
)
    requires
        goes_on(m, phase, event, step),
        !(step is Ended),
        m.has(name),
        m.services[name].state == ServiceState::Starting,
    ensures
        gone_on(m, phase, event, now).has(name),
        gone_on(m, phase, event, now).services[name].state == ServiceState::Starting,
        gone_on(m, phase, event, now).services[name].ready == m.services[name].ready,
        gone_on(m, phase, event, now).services[name].config == m.services[name].config,
{
}

/// A request is never given the port of a service whose process has ended: a service that runs is
/// looked at first, and if its process has ended, the request starts it anew.
pub proof fn law_dead_process_is_replaced(
    m: ManagerView,
    name: Seq<char>,
    process: Process,
    first: Step,
    phase: Phase,
    second: Step,
    now: u128,
)
    requires
        m.has(name),
        m.services[name].state == ServiceState::Running,
        m.services[name].process == Some(process),
        begins(m, name, first),
        first matches Step::Next { phase: checking, .. } && checking == phase,
        goes_on(m, phase, Event::Looked { ended: true }, second),
    ensures
        first matches Step::Next { action: Action::Look(p), .. } && p == process,
        begun(m, name, now) == m,
        second matches Step::Next { action: Action::Spawn(plan), .. } && plan.startup.name@ == name,
        ({
            let after = gone_on(m, phase, Event::Looked { ended: true }, now);
            &&& after.services[name].state == ServiceState::Starting
            &&& after.services[name].process is None
        }),
{
}

/// A service that was stopped stays without a process until a request starts it anew: whatever
/// comes of an earlier start of it that was still under way, the next request does not get its
/// port, but starts it, or waits for another that does.
pub proof fn law_stopped_starts_fresh(
    m: ManagerView,
    phase: Phase,
    event: Event,
    now: u128,
    name: Seq<char>,
    step: Step,
)
    requires
        m.has(name),
        m.services[name].process is None,
        m.services[name].state != ServiceState::Starting,
        begins(gone_on(m, phase, event, now), name, step),
    ensures
        ({
            let after = gone_on(m, phase, event, now);
            &&& after.has(name)
            &&& after.services[name].process is None
            &&& after.services[name].state == ServiceState::Starting
                ==> after.services[name].ready == m.next_id
        }),
        step matches Step::Next { phase: Phase::Spawning(_), .. } || step matches Step::Next {
            phase: Phase::Waiting(_),
            ..
        },
{
}

/// A start that another has followed does nothing more to any service, and its process, if it is
/// started only then, is given up at once.
pub proof fn law_older_start_is_harmless(
    m: ManagerView,
    phase: Phase,
    event: Event,
    step: Step,
    now: u128,
    startup: Startup,
)
    requires
        phase == Phase::Spawning(startup) || phase == Phase::Pausing(startup) || phase
            == Phase::Polling(startup) || phase == Phase::Probing(startup),
        m.lookup(startup.name@, startup.id) matches Some(s) && s.ready != startup.cycle,
        goes_on(m, phase, event, step),
    ensures
        gone_on(m, phase, event, now) == m,
        step matches Step::Ended(end) ==> end.kill is None,
        step matches Step::Next { action: Action::Poll(process), .. } ==> process is None,
        event matches Event::Spawned { pid } ==> {
            &&& step matches Step::Next { action: Action::Pause { given_up: Some(plan) }, .. }
            &&& plan.process == Some(Process { cycle: startup.cycle, pid: pid })
        },
{
}

/// The only process that a start looks at, and asks to end when it fails, is the one that was
/// started for it.
pub proof fn law_start_ends_its_own_process(
    m: ManagerView,
    phase: Phase,
    event: Event,
    step: Step,
    startup: Startup,
)
    requires
        m.wf(),
        phase == Phase::Spawning(startup) || phase == Phase::Pausing(startup) || phase
            == Phase::Polling(startup) || phase == Phase::Probing(startup),
        goes_on(m, phase, event, step),
    ensures
        step matches Step::Ended(end) ==> (end.kill matches Some(p) ==> p.cycle == startup.cycle),
        step matches Step::Next { action: Action::Poll(Some(p)), .. } ==> p.cycle == startup.cycle,
        step matches Step::Next { action: Action::Pause { given_up: Some(plan) }, .. } ==> (
        plan.process matches Some(p) && p.cycle == startup.cycle),
{
    lemma_lookup_sound(m, startup);
}

proof fn lemma_lookup_sound(m: ManagerView, startup: Startup)
    requires
        m.wf(),
    ensures
        m.lookup(startup.name@, startup.id) matches Some(s) ==> sound(s),
{
    if m.is_current(startup.name@, startup.id) {
        assert(m.services.contains_key(startup.name@));
    }
}

/// The service is never asked beyond the time that its start may take, and once that time is over
/// and it has not answered, the start has failed. Unless another start has followed, the service
/// has failed too, and the process that was started for it is asked to end.
pub proof fn law_start_is_timed(
    m: ManagerView,
    startup: Startup,
    exit: Option<String>,
    lines: Vec<String>,
    looked: u128,
    asked: Step,
    elapsed: u128,
    now: u128,
    after: Step,
)
    requires
        goes_on(
            m,
            Phase::Polling(startup),
            Event::Polled { exit: exit, lines: lines, elapsed: looked },
            asked,
        ),
        goes_on(
            m,
            Phase::Probing(startup),
            Event::Probed { healthy: false, elapsed: elapsed },
            after,
        ),
    ensures
        asked matches Step::Next { action: Action::Probe { time, .. }, .. } ==> time == if looked
            <= startup.timeout * 1_000_000_000 {
            startup.timeout * 1_000_000_000 - looked
        } else {
            0
        },
        elapsed > startup.timeout * 1_000_000_000 ==> {
            &&& after matches Step::Ended(end)
            &&& end.result is Err
            &&& end.kill == m.process_of(startup)
        },
        elapsed > startup.timeout * 1_000_000_000 && m.is_current(startup.name@, startup.id)
            && m.services[startup.name@].ready == startup.cycle ==> {
            let s = gone_on(
                m,
                Phase::Probing(startup),
                Event::Probed { healthy: false, elapsed: elapsed },
                now,
            ).services[startup.name@];
            s.state == ServiceState::Failed && s.process is None
        },
{
}

/// A start that no other has followed leaves the service running when it ends well, and else leaves
/// it failed, to be started by the next request. Those who wait for its cycle are told, and one
/// that is told gets the port if the start ended well, and an error if not. The same holds where
/// the service was taken out meanwhile.
pub proof fn law_start_ends(
    m: ManagerView,
    phase: Phase,
    event: Event,
    end: StartEnd,
    now: u128,
    startup: Startup,
    ticket: WaitTicket,
    waited: Result<u16, String>,
)
    requires
        goes_on(m, phase, event, Step::Ended(end)),
        phase == Phase::Spawning(startup) || phase == Phase::Polling(startup) || phase
            == Phase::Probing(startup),
        m.led_by(startup) is Some,
        ticket.name@ == startup.name@,
        ticket.id == startup.id,
        wait_result(gone_on(m, phase, event, now), ticket, true, waited),
    ensures
        end.cycle == startup.cycle,
        end.result matches Ok(port) ==> {
            &&& port == startup.port
            &&& gone_on(m, phase, event, now).lookup(startup.name@, startup.id) matches Some(s)
            &&& s.state == ServiceState::Running
            &&& s.last_activity == now
            &&& waited == Ok::<u16, String>(ticket.port)
        },
        end.result is Err ==> {
            &&& gone_on(m, phase, event, now).lookup(startup.name@, startup.id) matches Some(s)
            &&& s.state == ServiceState::Failed
            &&& waited is Err
        },
{
}

/// What a request does to start one service leaves the others alone.
pub proof fn law_start_leaves_others(
    m: ManagerView,
    phase: Phase,
    event: Event,
    now: u128,
    startup: Startup,
    other: Seq<char>,
)
    requires
        phase == Phase::Spawning(startup) || phase == Phase::Pausing(startup) || phase
            == Phase::Polling(startup) || phase == Phase::Probing(startup),
        other != startup.name@,
    ensures
        gone_on(m, phase, event, now).has(other) == m.has(other),
        m.has(other) ==> gone_on(m, phase, event, now).services[other] == m.services[other],
        gone_on(m, phase, event, now).names == m.names,
{
}

/// A start cycle in which the process is started and the service answers leaves the service
/// running, with that process and the configuration that it had.
pub proof fn law_start_cycle(
    m: ManagerView,
    startup: Startup,
    pid: Option<u32>,
    now: u128,
)
    requires
        m.is_current(startup.name@, startup.id),
        startup.cycle == m.next_id,
    ensures
        m.begun(startup.name@).with_process(startup, pid).start_succeeded(
            startup,
            now,
        ).services[startup.name@] == (ServiceView {
            config: m.services[startup.name@].config,
            state: ServiceState::Running,
            process: Some(Process { cycle: startup.cycle, pid: pid }),
            last_activity: now,
            ready: startup.cycle,
            id: startup.id,
        }),
{
}

/// A service that was configured anew is stopped, and the next start runs the new command in the
/// new directory with the new environment.
pub proof fn law_update_takes_effect(
    m: ManagerView,
    name: Seq<char>,
    config: ServiceConfigView,
    plan: SpawnPlan,
)
    requires
        m.has(name),
        ({
            let updated = m.set_service(
                name,
                ServiceView { config: config, ..halted(m.services[name]) },
            );
            updated.is_spawn(name, plan)
        }),
    ensures
        m.set_service(
            name,
            ServiceView { config: config, ..halted(m.services[name]) },
        ).services[name].state == ServiceState::Stopped,
        plan.startup.port == config.port,
        texts(plan.args@) == seq!["-lc"@, config.command],
        plan.dir@ == config.pwd,
        plan.env@ == config.env,
{
}

/// A start that is still under way when its service is taken out does not bring the service back.
/// A process that is started for it only then is given up at once.
pub proof fn law_removed_stays_removed(
    m: ManagerView,
    phase: Phase,
    event: Event,
    now: u128,
    startup: Startup,
    pid: Option<u32>,
)
    requires
        phase == Phase::Spawning(startup) || phase == Phase::Pausing(startup) || phase
            == Phase::Polling(startup) || phase == Phase::Probing(startup),
        m.is_current(startup.name@, startup.id),
    ensures
        ({
            let out = m.removed(startup.name@);
            &&& !gone_on(out, phase, event, now).has(startup.name@)
            &&& gone_on(out, phase, event, now).services == out.services
            &&& gone_on(out, phase, event, now).names == out.names
            &&& out.given_up(startup, pid) == Some(Process { cycle: startup.cycle, pid: pid })
        }),
{
}

// ---------------------------------------------------------------- reloading

proof fn lemma_pruned_wf(m: ManagerView, wanted: Wanted)
    requires
        m.wf(),
    ensures
        m.pruned(wanted).wf(),
{
    let p = |n: Seq<char>| wanted.contains_key(n);
    lemma_filter_names(m.names, p);
    let names = m.pruned(wanted).names;
    assert forall|n: Seq<char>| names.to_set().contains(n) <==> #[trigger] m.pruned(
        wanted,
    ).services.dom().contains(n) by {
        assert(m.names.to_set().contains(n) == m.names.contains(n));
        assert(names.contains(n) == (m.names.contains(n) && p(n)));
    }
    assert(m.pruned(wanted).services.dom() =~= names.to_set());
    let gone = |n: Seq<char>| !wanted.contains_key(n);
    lemma_filter_names(m.names, gone);
    assert forall|n: Seq<char>| #[trigger] m.unwanted(wanted).contains(n) implies m.has(n) by {
        assert(m.names.to_set().contains(n));
    }
    lemma_retired_sound(m, m.unwanted(wanted));
}

proof fn lemma_retired_sound(m: ManagerView, names: Seq<Seq<char>>)
    requires
        m.wf(),
        forall|n: Seq<char>| #[trigger] names.contains(n) ==> m.has(n),
    ensures
        forall|id: u64| #[trigger]
            m.retired_after(names).contains_key(id) ==> sound(m.retired_after(names)[id]),
    decreases names.len(),
{
    if names.len() > 0 {
        let rest = names.drop_last();
        assert forall|n: Seq<char>| #[trigger] rest.contains(n) implies m.has(n) by {
            let j = rest.index_of(n);
            assert(names[j] == n);
            assert(names.contains(n));
        }
        lemma_retired_sound(m, rest);
        assert(names[names.len() - 1] == names.last());
        assert(names.contains(names.last()));
        assert(m.services.contains_key(names.last()));
        let before = m.retired_after(rest);
        assert forall|id: u64| #[trigger] m.retired_after(names).contains_key(id) implies sound(
            m.retired_after(names)[id],
        ) by {
            assert(id == m.services[names.last()].id || before.contains_key(id));
        }
    }
}

proof fn lemma_reconciled_wf(m: ManagerView, name: Seq<char>, config: ServiceConfigView, now: u128)
    requires
        m.wf(),
    ensures
        m.reconciled(name, config, now).wf(),
{
    let after = m.reconciled(name, config, now);
    if !m.has(name) {
        let names = m.names.push(name);
        assert(!m.names.contains(name)) by {
            assert(m.names.to_set().contains(name) == m.names.contains(name));
        }
        assert(names.no_duplicates());
        assert forall|n: Seq<char>| names.to_set().contains(n) <==> #[trigger]
            after.services.dom().contains(n) by {
            assert(m.names.to_set().contains(n) == m.names.contains(n));
            if names.contains(n) {
                let j = names.index_of(n);
                if j < m.names.len() {
                    assert(m.names[j] == n);
                }
            }
            if m.names.contains(n) {
                let j = m.names.index_of(n);
                assert(names[j] == n);
            }
            if n == name {
                assert(names[m.names.len() as int] == n);
            }
        }
        assert(after.services.dom() =~= names.to_set());
    } else {
        assert(after.services.dom() =~= m.services.dom());
    }
    assert forall|n: Seq<char>| #[trigger] after.services.contains_key(n) implies sound(
        after.services[n],
    ) by {
        assert(n == name || m.services.contains_key(n));
    }
}

proof fn lemma_reconciled_all(
    m: ManagerView,
    wanted: Wanted,
    names: Seq<Seq<char>>,
    now: u128,
    name: Seq<char>,
)
    requires
        m.wf(),
        names.no_duplicates(),
    ensures
        ({
            let after = m.reconciled_all(wanted, names, now);
            &&& after.wf()
            &&& after.shutdown_grace == m.shutdown_grace
            &&& after.startup_timeout == m.startup_timeout
            &&& after.has(name) <==> m.has(name) || names.contains(name)
            &&& names.contains(name) ==> taken_over(m, after, name, wanted[name], now)
        }),
    decreases names.len(),
{
    if names.len() > 0 {
        let rest = names.drop_last();
        let last = names.last();
        assert(rest.no_duplicates());
        lemma_reconciled_all(m, wanted, rest, now, name);
        let before = m.reconciled_all(wanted, rest, now);
        let after = m.reconciled_all(wanted, names, now);
        lemma_reconciled_wf(before, last, wanted[last], now);
        assert(names[names.len() - 1] == last);
        assert(names.contains(last));
        assert(!rest.contains(last));
        if name == last {
            lemma_reconciled_others(m, wanted, rest, now, last);
            if !m.has(name) {
                assert(after.services[name] == fresh(wanted[name], now, before.next_id));
            }
        } else {
            if names.contains(name) {
                let j = names.index_of(name);
                assert(rest[j] == name);
            }
            if rest.contains(name) {
                let j = rest.index_of(name);
                assert(names[j] == name);
                assert(after.services[name] == before.services[name]);
            }
        }
    }
}

/// How a service that is wanted stands after a configuration was taken over: a new one is
/// registered and stopped, one that is configured as before is left alone, whatever it is doing,
/// and one that is configured otherwise is stopped and configured anew.
pub open spec fn taken_over(
    m: ManagerView,
    after: ManagerView,
    name: Seq<char>,
    config: ServiceConfigView,
    now: u128,
) -> bool {
    if !m.has(name) {
        exists|id: u64| after.services[name] == #[trigger] fresh(config, now, id)
    } else if same_config(m.services[name].config, config) {
        after.services[name] == m.services[name]
    } else {
        after.services[name] == ServiceView { config: config, ..halted(m.services[name]) }
    }
}

/// After a configuration was taken over, the services are those of the configuration, each as
/// `taken_over` says, and the settings are the configured ones.
pub proof fn law_reload(m: ManagerView, config: Config, now: u128, name: Seq<char>)
    requires
        m.wf(),
        config.services.wf(),
    ensures
        m.reloaded(config, now).wf(),
        m.reloaded(config, now).shutdown_grace == config.shutdown_grace,
        m.reloaded(config, now).startup_timeout == config.startup_timeout,
        m.reloaded(config, now).has(name) <==> config.services@.contains_key(name),
        config.services@.contains_key(name) ==> taken_over(
            m,
            m.reloaded(config, now),
            name,
            config.services@[name],
            now,
        ),
{
    let wanted = config.services@;
    let names = config.services.names();
    let set = m.with_settings(config.shutdown_grace, config.startup_timeout);
    let kept = set.pruned(wanted);
    lemma_pruned_wf(set, wanted);
    lemma_reconciled_all(kept, wanted, names, now, name);
    assert(names.to_set().contains(name) == names.contains(name));
    if names.contains(name) {
        assert(kept.has(name) == m.has(name));
        let after = m.reloaded(config, now);
        if !m.has(name) {
            let id = choose|id: u64| after.services[name] == #[trigger] fresh(
                wanted[name],
                now,
                id,
            );
            assert(after.services[name] == fresh(wanted[name], now, id));
        }
    }
}

proof fn lemma_reconciled_nothing(m: ManagerView, wanted: Wanted, names: Seq<Seq<char>>, now: u128)
    requires
        forall|n: Seq<char>| #[trigger]
            names.contains(n) ==> m.has(n) && same_config(m.services[n].config, wanted[n]),
    ensures
        m.reconciled_all(wanted, names, now) == m,
    decreases names.len(),
{
    if names.len() > 0 {
        let rest = names.drop_last();
        assert forall|n: Seq<char>| #[trigger] rest.contains(n) implies m.has(n) && same_config(
            m.services[n].config,
            wanted[n],
        ) by {
            let j = rest.index_of(n);
            assert(names[j] == n);
            assert(names.contains(n));
        }
        lemma_reconciled_nothing(m, wanted, rest, now);
        assert(names[names.len() - 1] == names.last());
        assert(names.contains(names.last()));
    }
}

proof fn lemma_filter_none(names: Seq<Seq<char>>, p: spec_fn(Seq<char>) -> bool)
    requires
        names.no_duplicates(),
        forall|n: Seq<char>| #[trigger] names.contains(n) ==> !p(n),
    ensures
        names.filter(p) == Seq::<Seq<char>>::empty(),
{
    lemma_filter_names(names, p);
    let f = names.filter(p);
    if f.len() > 0 {
        assert(f.contains(f[0]));
    }
    assert(f =~= Seq::empty());
}

/// To take over the same configuration once more changes nothing and stops nothing, however the
/// services stand by then.
pub proof fn law_reload_again(m: ManagerView, config: Config, now: u128)
    requires
        m.wf(),
        config.services.wf(),
        m.shutdown_grace == config.shutdown_grace,
        m.startup_timeout == config.startup_timeout,
        m.services.dom() == config.services@.dom(),
        forall|n: Seq<char>| #[trigger]
            m.has(n) ==> same_config(m.services[n].config, config.services@[n]),
    ensures
        m.reloaded(config, now) == m,
        m.reload_stops(config).len() == 0,
{
    let wanted = config.services@;
    let names = config.services.names();
    let set = m.with_settings(config.shutdown_grace, config.startup_timeout);
    assert(set == m);
    assert forall|n: Seq<char>| m.names.contains(n) implies wanted.contains_key(n) by {
        assert(m.names.to_set().contains(n));
        assert(m.services.dom().contains(n));
    }
    lemma_filter_all(m.names, |n: Seq<char>| wanted.contains_key(n));
    lemma_filter_none(m.names, |n: Seq<char>| !wanted.contains_key(n));
    assert(m.services.restrict(wanted.dom()) =~= m.services);
    assert(set.pruned(wanted) == m);
    assert forall|n: Seq<char>| #[trigger] names.contains(n) implies m.has(n) && same_config(
        m.services[n].config,
        wanted[n],
    ) by {
        assert(names.to_set().contains(n));
        assert(wanted.dom().contains(n));
        assert(m.has(n));
    }
    lemma_reconciled_nothing(m, wanted, names, now);
    lemma_filter_none(names, |n: Seq<char>| m.differs(n, wanted[n]));
}

/// A configuration that was taken over is in force: what `law_reload_again` asks for holds.
pub proof fn law_reload_settles(m: ManagerView, config: Config, now: u128, later: u128)
    requires
        m.wf(),
        config.services.wf(),
    ensures
        m.reloaded(config, now).reloaded(config, later) == m.reloaded(config, now),
        m.reloaded(config, now).reload_stops(config).len() == 0,
{
    let after = m.reloaded(config, now);
    assert forall|n: Seq<char>| #[trigger] after.services.dom().contains(n)
        <==> config.services@.dom().contains(n) by {
        law_reload(m, config, now, n);
    }
    assert(after.services.dom() =~= config.services@.dom());
    assert forall|n: Seq<char>| #[trigger] after.has(n) implies same_config(
        after.services[n].config,
        config.services@[n],
    ) by {
        law_reload(m, config, now, n);
    }
    law_reload(m, config, now, Seq::empty());
    law_reload_again(after, config, later);
}

/// Taking over a configuration stops only services that are not configured any more, or are
/// configured otherwise.
pub proof fn law_reload_stops_the_changed(m: ManagerView, config: Config, i: int)
    requires
        m.wf(),
        config.services.wf(),
        0 <= i < m.reload_stops(config).len(),
    ensures
        ({
            let name = m.reload_stops(config)[i].0;
            &&& m.has(name)
            &&& config.services@.contains_key(name) ==> !same_config(
                m.services[name].config,
                config.services@[name],
            )
            &&& plan_of(m.services[name], config.shutdown_grace) == Some(
                m.reload_stops(config)[i].1,
            )
        }),
{
    let wanted = config.services@;
    let set = m.with_settings(config.shutdown_grace, config.startup_timeout);
    let gone = |n: Seq<char>| !wanted.contains_key(n);
    let other = |n: Seq<char>| set.differs(n, wanted[n]);
    lemma_filter_names(set.names, gone);
    lemma_filter_names(config.services.names(), other);
    let a = set.stops_of(set.unwanted(wanted));
    let name = m.reload_stops(config)[i].0;
    if i < a.len() {
        lemma_stops_of(set, set.unwanted(wanted), i);
        assert(set.names.to_set().contains(name));
    } else {
        lemma_stops_of(set, set.outdated(wanted, config.services.names()), i - a.len());
    }
}

/// Each thing to do is for one of the services, and is what its state calls for.
pub(crate) proof fn lemma_stops_of(m: ManagerView, names: Seq<Seq<char>>, i: int)
    requires
        0 <= i < m.stops_of(names).len(),
    ensures
        names.contains(m.stops_of(names)[i].0),
        plan_of(m.services[m.stops_of(names)[i].0], m.shutdown_grace) == Some(
            m.stops_of(names)[i].1,
        ),
    decreases names.len(),
{
    let rest = names.drop_last();
    if i < m.stops_of(rest).len() {
        lemma_stops_of(m, rest, i);
        let j = rest.index_of(m.stops_of(rest)[i].0);
        assert(names[j] == m.stops_of(rest)[i].0);
    } else {
        assert(names[names.len() - 1] == names.last());
    }
}

// ---------------------------------------------------------------- control

pub(crate) proof fn lemma_trimmed_kept(text: Seq<char>)
    requires
        text.len() > 0,
        !white_space(text[0]),
        !white_space(text.last()),
    ensures
        trimmed(text) == text,
{
}

/// What a client asks for is what the daemon understands, for a service whose name is on one line
/// and neither starts nor ends with white space. The line that is read is what was sent, but for
/// the end of the line.
pub proof fn law_request_is_understood(command: Command, service: Seq<char>)
    requires
        service.len() > 0,
        !white_space(service[0]),
        !white_space(service.last()),
        !service.contains('\n'),
    ensures
        before_mark(request(command, service), '\n') == request(command, service).drop_last(),
        requested(request(command, service).drop_last()) == Ok::<(Command, Seq<char>), Seq<char>>(
            (command, service),
        ),
{
    reveal_strlit("tail");
    reveal_strlit("restart");
    reveal_strlit(" ");
    reveal_strlit("\n");
    let w = word(command);
    let text = w + " "@ + service;
    lemma_trimmed_kept(text);
    lemma_trimmed_kept(service);
    let sent = request(command, service);
    assert(sent =~= text + "\n"@);
    assert(sent.drop_last() =~= text);
    assert forall|i: int| 0 <= i < text.len() implies sent[i] != '\n' by {
        if i > w.len() {
            assert(service.contains(service[i - w.len() - 1]));
        }
    }
    lemma_before_mark_unique(sent, '\n', text.len() as int);
    assert(sent.take(text.len() as int) =~= text);
    lemma_before_mark_unique(text, ' ', w.len() as int);
    assert(text[w.len() as int] == ' ');
    assert(text.take(w.len() as int) =~= w);
    assert(text.skip(w.len() as int + 1) =~= service);
    assert("tail"@.len() != "restart"@.len());
}

} // verus!
