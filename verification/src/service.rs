//! The services and what becomes of them: when one is started, waited for, found idle and stopped.
//!
//! A `ServiceManager` holds the state of every service and decides. It starts no process and
//! waits for nothing: each decision is handed back, and what came of it is handed in with the
//! next call. Moments and spans of time are counted in nanoseconds.
use vstd::prelude::*;
use vstd::string::*;

use std::collections::HashMap;

use crate::config::{Config, ServiceConfig, ServiceConfigView};
use crate::names::NameMap;
use crate::paths::copy_bytes;
use crate::service_laws::{law_idle, law_idle_service_is_ended, law_shutdown_ends_every_process};
use crate::text::{concat2, concat3, concat4, decimal, decimal_text, texts};

verus! {

broadcast use vstd::std_specs::hash::group_hash_axioms;

/// Nanoseconds in a second.
pub const NANOS: u128 = 1_000_000_000;

/// How often a service that is starting is looked at, in milliseconds.
pub const POLL_MILLIS: u64 = 200;

/// How often the services are gone through for idle ones, in seconds.
pub const REAP_SECONDS: u64 = 5;

/// How long the daemon waits for the processes to end when it ends itself, in milliseconds.
pub const EXIT_MILLIS: u64 = 500;

/// How a service stands.
#[derive(Debug, Clone, Copy, PartialEq, Eq, Structural)]
pub enum ServiceState {
    Stopped,
    Starting,
    Running,
    Failed,
}

/// A process that was started for a service: in which start cycle, and under which process id.
#[derive(Debug, Clone, Copy, PartialEq, Eq)]
pub struct Process {
    pub cycle: u64,
    pub pid: Option<u32>,
}

/// One service.
///
/// `id` tells this registration of the name from others, and is the number of its log channel.
/// `ready` is the number of the current start cycle: those who wait for it are told when it ends.
#[derive(Debug)]
pub struct Service {
    config: ServiceConfig,
    state: ServiceState,
    process: Option<Process>,
    last_activity: u128,
    ready: u64,
    id: u64,
}

/// What a `Service` holds.
pub struct ServiceView {
    pub config: ServiceConfigView,
    pub state: ServiceState,
    pub process: Option<Process>,
    pub last_activity: u128,
    pub ready: u64,
    pub id: u64,
}

impl View for Service {
    type V = ServiceView;

    closed spec fn view(&self) -> ServiceView {
        ServiceView {
            config: self.config@,
            state: self.state,
            process: self.process,
            last_activity: self.last_activity,
            ready: self.ready,
            id: self.id,
        }
    }
}

/// What there is to do for a service that was stopped: end its process, if it has one, and kill
/// it if it has not ended after `grace` seconds.
#[derive(Debug, Clone, Copy, PartialEq, Eq)]
pub struct StopPlan {
    pub process: Option<Process>,
    pub grace: u64,
}

/// A `StopPlan` and the service it is for.
#[derive(Debug)]
pub struct NamedStop {
    pub name: String,
    pub plan: StopPlan,
}

/// What a list of `NamedStop` holds.
pub open spec fn stops_view(stops: Seq<NamedStop>) -> Seq<(Seq<char>, StopPlan)> {
    stops.map_values(|s: NamedStop| (s.name@, s.plan))
}

// ---------------------------------------------------------------- one service

/// A service that has just been registered.
pub open spec fn fresh(config: ServiceConfigView, now: u128, id: u64) -> ServiceView {
    ServiceView {
        config: config,
        state: ServiceState::Stopped,
        process: None,
        last_activity: now,
        ready: id,
        id: id,
    }
}

/// Whether a process belongs to the current start cycle of a service that is starting or running.
/// So one that is stopped or has failed has none.
pub open spec fn sound(s: ServiceView) -> bool {
    s.process matches Some(p) ==> {
        &&& p.cycle == s.ready
        &&& s.state == ServiceState::Starting || s.state == ServiceState::Running
    }
}

/// The service after it was stopped. One that is stopped already stays as it is.
pub open spec fn halted(s: ServiceView) -> ServiceView {
    if s.state == ServiceState::Stopped {
        s
    } else {
        ServiceView { state: ServiceState::Stopped, process: None, ..s }
    }
}

/// What there is to do when the service is stopped.
pub open spec fn plan_of(s: ServiceView, grace: u64) -> Option<StopPlan> {
    if s.state == ServiceState::Stopped {
        None
    } else {
        Some(StopPlan { process: s.process, grace: grace })
    }
}

/// Whether the service is running and has seen no activity for longer than its idle timeout.
pub open spec fn idle(s: ServiceView, now: u128) -> bool {
    &&& s.state == ServiceState::Running
    &&& now - s.last_activity > s.config.idle_timeout * NANOS
}

impl Service {
    fn new(config: ServiceConfig, now: u128, id: u64) -> (r: Service)
        ensures
            r@ == fresh(config@, now, id),
    {
        Service {
            config,
            state: ServiceState::Stopped,
            process: None,
            last_activity: now,
            ready: id,
            id,
        }
    }

    fn stop(&mut self, grace: u64) -> (r: Option<StopPlan>)
        ensures
            final(self)@ == halted(old(self)@),
            r == plan_of(old(self)@, grace),
    {
        if self.state == ServiceState::Stopped {
            return None;
        }
        let process = self.process;
        self.state = ServiceState::Stopped;
        self.process = None;
        Some(StopPlan { process, grace })
    }

    fn is_idle(&self, now: u128) -> (r: bool)
        ensures
            r == idle(self@, now),
    {
        let limit: u128 = self.config.idle_timeout as u128 * NANOS;
        self.state == ServiceState::Running && now > self.last_activity && now
            - self.last_activity > limit
    }
}

// ---------------------------------------------------------------- all services

/// The services, by name. `retired` are those that were taken out, by number: a start of theirs
/// that was under way goes on.
#[derive(Debug)]
pub struct ServiceManager {
    services: NameMap<Service>,
    retired: HashMap<u64, Service>,
    next_id: u64,
    shutdown_grace: u64,
    startup_timeout: u64,
}

/// What a `ServiceManager` holds. `names` are the names of the services in the order in which
/// they came, `retired` are the services that were taken out, by number, and `next_id` is the
/// number that is given out next.
#[verifier::ext_equal]
pub struct ManagerView {
    pub services: Map<Seq<char>, ServiceView>,
    pub names: Seq<Seq<char>>,
    pub retired: Map<u64, ServiceView>,
    pub next_id: u64,
    pub shutdown_grace: u64,
    pub startup_timeout: u64,
}

impl View for ServiceManager {
    type V = ManagerView;

    closed spec fn view(&self) -> ManagerView {
        ManagerView {
            services: self.services@,
            names: self.services.names(),
            retired: self.retired@.map_values(|s: Service| s@),
            next_id: self.next_id,
            shutdown_grace: self.shutdown_grace,
            startup_timeout: self.startup_timeout,
        }
    }
}

/// The number that follows `id`, which is 0 after the largest.
pub open spec fn id_after(id: u64) -> u64 {
    if id == u64::MAX {
        0
    } else {
        (id + 1) as u64
    }
}

fn next_after(id: u64) -> (r: u64)
    ensures
        r == id_after(id),
{
    if id == u64::MAX {
        0
    } else {
        id + 1
    }
}

impl ManagerView {
    /// The names are exactly those of the services, each once, and every service is sound.
    pub open spec fn wf(self) -> bool {
        &&& self.names.no_duplicates()
        &&& self.services.dom() == self.names.to_set()
        &&& forall|n: Seq<char>| #[trigger]
            self.services.contains_key(n) ==> sound(self.services[n])
        &&& forall|id: u64| #[trigger]
            self.retired.contains_key(id) ==> sound(self.retired[id])
    }

    /// Whether there is a service of that name.
    pub open spec fn has(self, name: Seq<char>) -> bool {
        self.services.contains_key(name)
    }

    /// With `s` in place of the service `name`.
    pub open spec fn set_service(self, name: Seq<char>, s: ServiceView) -> ManagerView {
        ManagerView { services: self.services.insert(name, s), ..self }
    }

    /// After the service `s` was retired.
    pub open spec fn retire(self, s: ServiceView) -> ManagerView {
        ManagerView { retired: self.retired.insert(s.id, s), ..self }
    }

    /// After a service was registered. One that has the name already is retired as it is.
    pub open spec fn added(
        self,
        name: Seq<char>,
        config: ServiceConfigView,
        now: u128,
    ) -> ManagerView {
        ManagerView {
            services: self.services.insert(name, fresh(config, now, self.next_id)),
            names: if self.has(name) {
                self.names
            } else {
                self.names.push(name)
            },
            retired: if self.has(name) {
                self.retire(self.services[name]).retired
            } else {
                self.retired
            },
            next_id: id_after(self.next_id),
            ..self
        }
    }

    /// After the service `name`, if there is one, was stopped and taken out.
    pub open spec fn removed(self, name: Seq<char>) -> ManagerView {
        ManagerView {
            services: self.services.remove(name),
            names: self.names.remove_value(name),
            retired: if self.has(name) {
                self.retire(halted(self.services[name])).retired
            } else {
                self.retired
            },
            ..self
        }
    }

    /// The retired services after those of `names`, one after the other, were stopped and taken
    /// out.
    pub open spec fn retired_after(self, names: Seq<Seq<char>>) -> Map<u64, ServiceView>
        decreases names.len(),
    {
        if names.len() == 0 {
            self.retired
        } else {
            let s = halted(self.services[names.last()]);
            self.retired_after(names.drop_last()).insert(s.id, s)
        }
    }

    /// With the retired services but those of `in_use` forgotten.
    pub open spec fn forgotten(self, in_use: Seq<u64>) -> ManagerView {
        ManagerView {
            retired: self.retired.restrict(Set::new(|id: u64| in_use.contains(id))),
            ..self
        }
    }

    /// After each service of `names` was stopped.
    pub open spec fn halt_each(self, names: Seq<Seq<char>>) -> ManagerView {
        ManagerView {
            services: Map::new(
                |k: Seq<char>| self.services.contains_key(k),
                |k: Seq<char>|
                    if names.contains(k) {
                        halted(self.services[k])
                    } else {
                        self.services[k]
                    },
            ),
            ..self
        }
    }

    /// What there is to do when each service of `names` is stopped.
    pub open spec fn stops_of(self, names: Seq<Seq<char>>) -> Seq<(Seq<char>, StopPlan)>
        decreases names.len(),
    {
        if names.len() == 0 {
            Seq::empty()
        } else {
            let rest = self.stops_of(names.drop_last());
            match plan_of(self.services[names.last()], self.shutdown_grace) {
                Some(plan) => rest.push((names.last(), plan)),
                None => rest,
            }
        }
    }

    /// The names of the services that are idle.
    pub open spec fn idle_names(self, now: u128) -> Seq<Seq<char>> {
        self.names.filter(|n: Seq<char>| idle(self.services[n], now))
    }
}

proof fn lemma_put_back(names: Seq<Seq<char>>, m: Map<Seq<char>, ServiceView>, i: int, s: ServiceView)
    requires
        0 <= i < names.len(),
    ensures
        names.remove(i).insert(i, names[i]) == names,
        m.remove(names[i]).insert(names[i], s) == m.insert(names[i], s),
{
    assert(names.remove(i).insert(i, names[i]) =~= names);
    assert(m.remove(names[i]).insert(names[i], s) =~= m.insert(names[i], s));
}

/// Whether `m` holds the services of `config`, none of them started.
pub open spec fn initial(config: Config, now: u128, m: ManagerView) -> bool {
    &&& m.wf()
    &&& m.names == config.services.names()
    &&& m.services.dom() == config.services@.dom()
    &&& forall|i: int|
        0 <= i < m.names.len() ==> m.services[#[trigger] m.names[i]] == fresh(
            config.services@[m.names[i]],
            now,
            i as u64,
        )
    &&& m.retired == Map::<u64, ServiceView>::empty()
    &&& m.next_id == m.names.len()
    &&& m.shutdown_grace == config.shutdown_grace
    &&& m.startup_timeout == config.startup_timeout
}

impl ServiceManager {
    #[verifier::type_invariant]
    spec fn keeps(&self) -> bool {
        &&& forall|n: Seq<char>| #[trigger]
            self.services@.contains_key(n) ==> sound(self.services@[n])
        &&& forall|id: u64| #[trigger]
            self.retired@.contains_key(id) ==> sound(self.retired@[id]@)
    }

    proof fn lemma_wf(&self)
        requires
            self.keeps(),
            self.services.wf(),
        ensures
            self@.wf(),
    {
    }

    /// The services of `config`, none of them started.
    pub fn new(config: &Config, now: u128) -> (r: ServiceManager)
        ensures
            r@.wf(),
            r@.names == config.services.names(),
            r@.services.dom() == config.services@.dom(),
            forall|i: int|
                0 <= i < r@.names.len() ==> r@.services[#[trigger] r@.names[i]] == fresh(
                    config.services@[r@.names[i]],
                    now,
                    i as u64,
                ),
            r@.retired == Map::<u64, ServiceView>::empty(),
            r@.next_id == r@.names.len(),
            r@.shutdown_grace == config.shutdown_grace,
            r@.startup_timeout == config.startup_timeout,
            initial(*config, now, r@),
    {
        let mut services: NameMap<Service> = NameMap::new();
        let n: usize = config.services.len();
        let mut i: usize = 0;
        let ghost names = config.services.names();
        assert(names.take(0) =~= Seq::empty());
        while i < n
            invariant
                i <= n,
                names == config.services.names(),
                n == names.len(),
                config.services.wf(),
                services.wf(),
                services.names() == names.take(i as int),
                forall|j: int|
                    0 <= j < i ==> services@[#[trigger] names[j]] == fresh(
                        config.services@[names[j]],
                        now,
                        j as u64,
                    ),
            decreases n - i,
        {
            let name = config.services.name_at(i);
            let svc = config.services.value_at(i);
            proof {
                assert(!services.names().contains(name@));
                assert(!services@.contains_key(name@));
                assert(names.take(i + 1) =~= names.take(i as int).push(name@));
            }
            services.insert(name.clone(), Service::new(svc.clone(), now, i as u64));
            i += 1;
        }
        proof {
            assert(names.take(n as int) =~= names);
            assert(services@.dom() =~= config.services@.dom());
        }
        let retired: HashMap<u64, Service> = HashMap::new();
        proof {
            assert(retired@.map_values(|s: Service| s@) =~= Map::<u64, ServiceView>::empty());
            assert forall|k: Seq<char>| #[trigger] services@.contains_key(k) implies sound(
                services@[k],
            ) by {
                assert(names.contains(k));
                let j = names.index_of(k);
                assert(services@[names[j]] == fresh(config.services@[names[j]], now, j as u64));
            }
        }
        ServiceManager {
            services,
            retired,
            next_id: n as u64,
            shutdown_grace: config.shutdown_grace,
            startup_timeout: config.startup_timeout,
        }
    }

    /// Whether a service of that name is configured.
    pub fn has_service(&self, name: &str) -> (r: bool)
        ensures
            r == self@.has(name@),
    {
        self.services.contains_key(name)
    }

    /// The names of all services.
    pub fn service_names(&self) -> (r: Vec<String>)
        ensures
            texts(r@) == self@.names,
            self@.wf(),
    {
        let mut out: Vec<String> = Vec::new();
        let n: usize = self.services.len();
        proof {
            use_type_invariant(self);
            self.lemma_wf();
        }
        let mut i: usize = 0;
        while i < n
            invariant
                i <= n,
                n == self@.names.len(),
                self@.wf(),
                texts(out@) == self@.names.take(i as int),
            decreases n - i,
        {
            let name: String = self.services.name_at(i).clone();
            let ghost was = out@;
            out.push(name);
            assert(texts(out@) =~= texts(was).push(name@));
            assert(self@.names.take(i as int).push(name@) =~= self@.names.take(i + 1));
            i += 1;
        }
        assert(self@.names.take(n as int) =~= self@.names);
        out
    }

    /// The number of the log channel of a service.
    pub fn subscribe_logs(&self, name: &str) -> (r: Option<u64>)
        ensures
            r == (if self@.has(name@) {
                Some(self@.services[name@].id)
            } else {
                None
            }),
    {
        match self.services.get(name) {
            Some(s) => Some(s.id),
            None => None,
        }
    }

    /// The configuration of a service.
    pub fn get_service_config(&self, name: &str) -> (r: Option<ServiceConfig>)
        ensures
            match r {
                Some(c) => self@.has(name@) && c@ == self@.services[name@].config,
                None => !self@.has(name@),
            },
    {
        match self.services.get(name) {
            Some(s) => Some(s.config.clone()),
            None => None,
        }
    }

    /// Puts `s` in the place of the service at place `i`. Hands back the one that was there.
    fn replace_at(&mut self, i: usize, s: Service) -> (r: Service)
        requires
            i < old(self)@.names.len(),
            sound(s@),
        ensures
            final(self)@ == old(self)@.set_service(old(self)@.names[i as int], s@),
            final(self)@.wf(),
            r@ == old(self)@.services[old(self)@.names[i as int]],
            sound(r@),
    {
        proof {
            use_type_invariant(&*self);
        }
        let mut services: NameMap<Service> = NameMap::new();
        std::mem::swap(&mut services, &mut self.services);
        let (key, earlier) = services.take_at(i);
        proof {
            lemma_put_back(old(self)@.names, old(self)@.services, i as int, s@);
        }
        services.put_at(i, key, s);
        self.services = services;
        proof {
            self.lemma_wf();
        }
        earlier
    }

    /// Gives the service at place `i` another state, process, last activity and start cycle.
    fn rewrite(
        &mut self,
        i: usize,
        state: ServiceState,
        process: Option<Process>,
        last_activity: u128,
        ready: u64,
    )
        requires
            i < old(self)@.names.len(),
            process matches Some(p) ==> p.cycle == ready && (state == ServiceState::Starting
                || state == ServiceState::Running),
        ensures
            final(self)@ == old(self)@.set_service(
                old(self)@.names[i as int],
                (ServiceView {
                    state: state,
                    process: process,
                    last_activity: last_activity,
                    ready: ready,
                    ..old(self)@.services[old(self)@.names[i as int]]
                }),
            ),
            final(self)@.wf(),
    {
        let was = self.services.value_at(i);
        let s = Service {
            config: was.config.clone(),
            state,
            process,
            last_activity,
            ready,
            id: was.id,
        };
        self.replace_at(i, s);
    }

    fn retire(&mut self, s: Service)
        requires
            sound(s@),
        ensures
            final(self)@ == old(self)@.retire(s@),
    {
        proof {
            use_type_invariant(&*self);
        }
        let ghost view = |s: Service| s@;
        let ghost before = self.retired@;
        let ghost seen = s@;
        let mut retired: HashMap<u64, Service> = HashMap::new();
        std::mem::swap(&mut retired, &mut self.retired);
        retired.insert(s.id, s);
        self.retired = retired;
        proof {
            assert(self.retired@.map_values(view) =~= before.map_values(view).insert(
                seen.id,
                seen,
            ));
        }
    }

    /// Forgets the retired services but those of `in_use`: the ones for which a start, or a request
    /// that waits for one, is still under way.
    pub fn forget_retired(&mut self, in_use: &Vec<u64>)
        ensures
            final(self)@ == (ManagerView {
                retired: old(self)@.retired.restrict(
                    Set::new(|id: u64| in_use@.contains(id)),
                ),
                ..old(self)@
            }),
            final(self)@ == old(self)@.forgotten(in_use@),
    {
        proof {
            use_type_invariant(&*self);
        }
        let ghost view = |s: Service| s@;
        let ghost before = self.retired@;
        let mut retired: HashMap<u64, Service> = HashMap::new();
        std::mem::swap(&mut retired, &mut self.retired);
        let mut kept: HashMap<u64, Service> = HashMap::new();
        let mut i: usize = 0;
        while i < in_use.len()
            invariant
                i <= in_use@.len(),
                self.services == old(self).services,
                self.next_id == old(self).next_id,
                self.shutdown_grace == old(self).shutdown_grace,
                self.startup_timeout == old(self).startup_timeout,
                before == old(self).retired@,
                self.retired@ == Map::<u64, Service>::empty(),
                forall|id: u64| #[trigger] before.contains_key(id) ==> sound(before[id]@),
                forall|n: Seq<char>| #[trigger]
                    self.services@.contains_key(n) ==> sound(self.services@[n]),
                forall|id: u64| #[trigger]
                    kept@.contains_key(id) <==> before.contains_key(id) && in_use@.take(
                        i as int,
                    ).contains(id),
                forall|id: u64| #[trigger] kept@.contains_key(id) ==> kept@[id] == before[id],
                forall|id: u64| #[trigger]
                    retired@.contains_key(id) <==> before.contains_key(id)
                        && !in_use@.take(i as int).contains(id),
                forall|id: u64| #[trigger]
                    retired@.contains_key(id) ==> retired@[id] == before[id],
            decreases in_use@.len() - i,
        {
            let id: u64 = in_use[i];
            let ghost a = in_use@.take(i as int);
            let ghost b = in_use@.take(i + 1);
            assert forall|k: u64| b.contains(k) <==> a.contains(k) || k == id by {
                if a.contains(k) {
                    let j = a.index_of(k);
                    assert(b[j] == k);
                }
                if k == id {
                    assert(b[i as int] == k);
                }
                if b.contains(k) && k != id {
                    let j = b.index_of(k);
                    assert(a[j] == k);
                }
            }
            if let Some(s) = retired.remove(&id) {
                kept.insert(id, s);
            }
            i += 1;
        }
        self.retired = kept;
        proof {
            assert(in_use@.take(in_use@.len() as int) =~= in_use@);
            assert(self.retired@.map_values(view) =~= before.map_values(view).restrict(
                Set::new(|id: u64| in_use@.contains(id)),
            ));
        }
    }

    /// Registers a service. One that has the name already is replaced.
    pub fn add_service(&mut self, name: String, config: ServiceConfig, now: u128)
        ensures
            final(self)@ == old(self)@.added(name@, config@, now),
            final(self)@.wf(),
    {
        let id: u64 = self.next_id;
        proof {
            use_type_invariant(&*self);
        }
        self.next_id = next_after(id);
        let s = Service::new(config, now, id);
        match self.services.position(name.as_str()) {
            Some(i) => {
                let replaced = self.replace_at(i, s);
                self.retire(replaced);
            },
            None => {
                let mut services: NameMap<Service> = NameMap::new();
                std::mem::swap(&mut services, &mut self.services);
                services.insert(name, s);
                self.services = services;
                proof {
                    self.lemma_wf();
                }
            },
        }
    }

    /// Takes out a service, after stopping it.
    pub fn remove_service(&mut self, name: &str) -> (r: Option<StopPlan>)
        ensures
            final(self)@ == old(self)@.removed(name@),
            final(self)@.wf(),
            r == (if old(self)@.has(name@) {
                plan_of(old(self)@.services[name@], old(self)@.shutdown_grace)
            } else {
                None
            }),
    {
        proof {
            use_type_invariant(&*self);
        }
        let mut services: NameMap<Service> = NameMap::new();
        std::mem::swap(&mut services, &mut self.services);
        let removed = services.remove(name);
        self.services = services;
        proof {
            self.lemma_wf();
        }
        match removed {
            Some(s) => {
                let mut gone = s;
                let plan = gone.stop(self.shutdown_grace);
                self.retire(gone);
                plan
            },
            None => None,
        }
    }

    /// Gives a service another configuration, after stopping it. The next request starts it with
    /// that configuration.
    pub fn update_service_config(&mut self, name: &str, config: ServiceConfig) -> (r: Option<
        StopPlan,
    >)
        ensures
            final(self)@ == (if old(self)@.has(name@) {
                old(self)@.set_service(
                    name@,
                    (ServiceView { config: config@, ..halted(old(self)@.services[name@]) }),
                )
            } else {
                old(self)@
            }),
            final(self)@.wf(),
            r == (if old(self)@.has(name@) {
                plan_of(old(self)@.services[name@], old(self)@.shutdown_grace)
            } else {
                None
            }),
    {
        proof {
            use_type_invariant(&*self);
        }
        let found = self.services.position(name);
        proof {
            self.lemma_wf();
        }
        match found {
            Some(i) => {
                let was = self.services.value_at(i);
                let mut s = Service {
                    config,
                    state: was.state,
                    process: was.process,
                    last_activity: was.last_activity,
                    ready: was.ready,
                    id: was.id,
                };
                let plan = s.stop(self.shutdown_grace);
                self.replace_at(i, s);
                plan
            },
            None => None,
        }
    }

    /// Sets the seconds between asking a service to end and killing it.
    pub fn set_shutdown_grace(&mut self, value: u64)
        ensures
            final(self)@ == (ManagerView { shutdown_grace: value, ..old(self)@ }),
    {
        proof {
            use_type_invariant(&*self);
        }
        self.shutdown_grace = value;
    }

    /// Sets the seconds to wait for a service to respond.
    pub fn set_startup_timeout(&mut self, value: u64)
        ensures
            final(self)@ == (ManagerView { startup_timeout: value, ..old(self)@ }),
    {
        proof {
            use_type_invariant(&*self);
        }
        self.startup_timeout = value;
    }

    /// Notes activity of a service. Each request that is proxied to it counts.
    pub fn record_activity(&mut self, name: &str, now: u128)
        ensures
            final(self)@ == (if old(self)@.has(name@) {
                old(self)@.set_service(
                    name@,
                    (ServiceView { last_activity: now, ..old(self)@.services[name@] }),
                )
            } else {
                old(self)@
            }),
            final(self)@.wf(),
    {
        proof {
            use_type_invariant(&*self);
        }
        let found = self.services.position(name);
        proof {
            self.lemma_wf();
        }
        match found {
            Some(i) => {
                let s = self.services.value_at(i);
                let (state, process, ready) = (s.state, s.process, s.ready);
                self.rewrite(i, state, process, now, ready);
            },
            None => {},
        }
    }

    /// Stops a service. `None` where there is no such service, or it is stopped already.
    pub fn stop_service(&mut self, name: &str) -> (r: Option<StopPlan>)
        ensures
            final(self)@ == (if old(self)@.has(name@) {
                old(self)@.set_service(name@, halted(old(self)@.services[name@]))
            } else {
                old(self)@
            }),
            final(self)@.wf(),
            r == (if old(self)@.has(name@) {
                plan_of(old(self)@.services[name@], old(self)@.shutdown_grace)
            } else {
                None
            }),
    {
        proof {
            use_type_invariant(&*self);
        }
        let found = self.services.position(name);
        proof {
            self.lemma_wf();
        }
        match found {
            Some(i) => {
                let s = self.services.value_at(i);
                let (state, process) = (s.state, s.process);
                let (last_activity, ready) = (s.last_activity, s.ready);
                if state == ServiceState::Stopped {
                    assert(self@.services.insert(name@, s@) =~= self@.services);
                    return None;
                }
                self.rewrite(i, ServiceState::Stopped, None, last_activity, ready);
                Some(StopPlan { process, grace: self.shutdown_grace })
            },
            None => None,
        }
    }

    /// Stops each service of `names`.
    fn halt_all(&mut self, names: &Vec<String>) -> (r: Vec<NamedStop>)
        requires
            texts(names@).no_duplicates(),
            forall|i: int| 0 <= i < names@.len() ==> old(self)@.has(#[trigger] texts(names@)[i]),
            old(self)@.wf(),
        ensures
            final(self)@ == old(self)@.halt_each(texts(names@)),
            final(self)@.wf(),
            stops_view(r@) == old(self)@.stops_of(texts(names@)),
    {
        let ghost before = self@;
        let ghost list = texts(names@);
        let mut out: Vec<NamedStop> = Vec::new();
        let mut i: usize = 0;
        proof {
            assert(list.take(0) =~= Seq::empty());
            assert(before =~= before.halt_each(list.take(0)));
            assert(stops_view(out@) =~= Seq::empty());
        }
        while i < names.len()
            invariant
                before == old(self)@,
                before.wf(),
                list == texts(names@),
                list.no_duplicates(),
                forall|j: int| 0 <= j < names@.len() ==> before.has(#[trigger] list[j]),
                i <= names@.len(),
                self@ == before.halt_each(list.take(i as int)),
                self@.wf(),
                stops_view(out@) == before.stops_of(list.take(i as int)),
            decreases names@.len() - i,
        {
            let name = &names[i];
            proof {
                assert(name@ == list[i as int]);
                assert(list.take(i + 1).drop_last() =~= list.take(i as int));
                assert(list.take(i + 1).last() == name@);
                assert(!list.take(i as int).contains(name@));
            }
            let plan = self.stop_service(name.as_str());
            assert(self@ =~= before.halt_each(list.take(i + 1))) by {
                assert forall|k: Seq<char>| list.take(i + 1).contains(k) <==> (list.take(
                    i as int,
                ).contains(k) || k == name@) by {
                    let a = list.take(i as int);
                    let b = list.take(i + 1);
                    if a.contains(k) {
                        let j = a.index_of(k);
                        assert(b[j] == k);
                    }
                    if k == name@ {
                        assert(b[i as int] == k);
                    }
                    if b.contains(k) && k != name@ {
                        let j = b.index_of(k);
                        assert(a[j] == k);
                    }
                }
                assert(self@.services =~= before.halt_each(list.take(i + 1)).services);
            }
            match plan {
                Some(plan) => {
                    let ghost was = out@;
                    out.push(NamedStop { name: name.clone(), plan });
                    assert(stops_view(out@) =~= stops_view(was).push((name@, plan)));
                },
                None => {},
            }
            i += 1;
        }
        assert(list.take(names@.len() as int) =~= list);
        out
    }

    /// Stops the services that are idle.
    pub fn reap_idle_services(&mut self, now: u128) -> (r: Vec<NamedStop>)
        ensures
            final(self)@ == old(self)@.halt_each(old(self)@.idle_names(now)),
            final(self)@.wf(),
            stops_view(r@) == old(self)@.stops_of(old(self)@.idle_names(now)),
            forall|n: Seq<char>| #[trigger]
                old(self)@.has(n) && idle(old(self)@.services[n], now) ==> stops_view(r@).contains(
                    (
                        n,
                        (StopPlan {
                            process: old(self)@.services[n].process,
                            grace: old(self)@.shutdown_grace,
                        }),
                    ),
                ),
    {
        let ghost chosen = |n: Seq<char>| idle(self@.services[n], now);
        let ghost before = self@;
        let mut names: Vec<String> = Vec::new();
        let n: usize = self.services.len();
        proof {
            use_type_invariant(&*self);
            self.lemma_wf();
        }
        let mut i: usize = 0;
        proof {
            reveal(Seq::filter);
            assert(texts(names@) =~= self@.names.take(0).filter(chosen));
        }
        while i < n
            invariant
                i <= n,
                before == self@,
                n == self@.names.len(),
                self@.wf(),
                chosen == (|n: Seq<char>| idle(before.services[n], now)),
                texts(names@) == self@.names.take(i as int).filter(chosen),
            decreases n - i,
        {
            let ghost was = names@;
            let s = self.services.value_at(i);
            proof {
                reveal(Seq::filter);
                assert(self@.names.take(i + 1).drop_last() =~= self@.names.take(i as int));
            }
            if s.is_idle(now) {
                let name: String = self.services.name_at(i).clone();
                names.push(name);
                assert(texts(names@) =~= texts(was).push(name@));
            }
            i += 1;
        }
        proof {
            assert(self@.names.take(n as int) =~= self@.names);
            lemma_filter_names(self@.names, chosen);
            assert forall|j: int| 0 <= j < names@.len() implies self@.has(
                #[trigger] texts(names@)[j],
            ) by {
                assert(self@.names.filter(chosen).contains(texts(names@)[j]));
            }
            assert forall|n: Seq<char>| #[trigger]
                before.has(n) && idle(before.services[n], now) implies before.stops_of(
                before.idle_names(now),
            ).contains(
                (
                    n,
                    StopPlan { process: before.services[n].process, grace: before.shutdown_grace },
                ),
            ) by {
                law_idle(before.services[n], now);
                law_idle_service_is_ended(before, n, now);
            }
        }
        self.halt_all(&names)
    }

    /// Stops all services.
    pub fn shutdown_all(&mut self) -> (r: Vec<NamedStop>)
        ensures
            final(self)@ == old(self)@.halt_each(old(self)@.names),
            final(self)@.wf(),
            stops_view(r@) == old(self)@.stops_of(old(self)@.names),
            forall|n: Seq<char>| #[trigger]
                old(self)@.has(n) && old(self)@.services[n].state != ServiceState::Stopped
                    ==> stops_view(r@).contains(
                    (
                        n,
                        (StopPlan {
                            process: old(self)@.services[n].process,
                            grace: old(self)@.shutdown_grace,
                        }),
                    ),
                ),
    {
        let ghost before = self@;
        let names: Vec<String> = self.service_names();
        proof {
            assert forall|j: int| 0 <= j < names@.len() implies self@.has(
                #[trigger] texts(names@)[j],
            ) by {
                assert(self@.names.contains(texts(names@)[j]));
            }
            assert forall|n: Seq<char>| #[trigger]
                before.has(n) && before.services[n].state
                    != ServiceState::Stopped implies before.stops_of(before.names).contains(
                (
                    n,
                    StopPlan { process: before.services[n].process, grace: before.shutdown_grace },
                ),
            ) by {
                law_shutdown_ends_every_process(before, n);
            }
        }
        self.halt_all(&names)
    }
}

// ---------------------------------------------------------------- starting

/// A request that waits until a start cycle ends.
///
/// `rechecked` tells that the service was found to be starting only when it was about to be
/// started. `timeout` is the number of seconds to wait.
#[derive(Debug)]
pub struct WaitTicket {
    pub name: String,
    pub id: u64,
    pub cycle: u64,
    pub port: u16,
    pub timeout: u64,
    pub rechecked: bool,
}

/// What a request for a service has to do.
#[derive(Debug)]
pub enum EnsureStep {
    /// The service runs: proxy to this port.
    Ready(u16),
    /// Another request is starting it.
    Wait(WaitTicket),
    /// It has to be started.
    Start,
}

/// A start cycle: of which service, under which number, and how many seconds it may take.
#[derive(Debug)]
pub struct Startup {
    pub name: String,
    pub id: u64,
    pub cycle: u64,
    pub port: u16,
    pub timeout: u64,
}

impl Clone for Startup {
    fn clone(&self) -> (r: Self)
        ensures
            same_startup(r, *self),
    {
        Startup {
            name: self.name.clone(),
            id: self.id,
            cycle: self.cycle,
            port: self.port,
            timeout: self.timeout,
        }
    }
}

/// Whether two start cycles are the same.
pub open spec fn same_startup(a: Startup, b: Startup) -> bool {
    &&& a.name@ == b.name@
    &&& a.id == b.id
    &&& a.cycle == b.cycle
    &&& a.port == b.port
    &&& a.timeout == b.timeout
}

/// The process to start in a start cycle.
#[derive(Debug)]
pub struct SpawnPlan {
    pub startup: Startup,
    pub program: String,
    pub args: Vec<String>,
    pub dir: Vec<u8>,
    pub env: NameMap<String>,
}

/// What a request that is to start a service has to do.
#[derive(Debug)]
pub enum StartStep {
    /// The service runs already: proxy to this port.
    Ready(u16),
    /// Another request is starting it.
    Wait(WaitTicket),
    /// Start this process.
    Spawn(SpawnPlan),
}

/// How a start cycle ended: with the port to proxy to, or with what went wrong. Those who wait for
/// the cycle are told, and the process in `kill` is asked to end.
#[derive(Debug)]
pub struct StartEnd {
    pub result: Result<u16, String>,
    pub cycle: u64,
    pub kill: Option<Process>,
}

/// Whether `end` is that the start cycle failed for the reason `message`.
pub open spec fn failed_for(end: StartEnd, startup: Startup, message: Seq<char>) -> bool {
    &&& end.result matches Err(text)
    &&& text@ == message
    &&& end.cycle == startup.cycle
}

impl ManagerView {
    /// Whether the service `name` is still the registration `id`.
    pub open spec fn is_current(self, name: Seq<char>, id: u64) -> bool {
        self.has(name) && self.services[name].id == id
    }

    /// The registration `id` of the service `name`: the current one, or one that is retired.
    pub open spec fn lookup(self, name: Seq<char>, id: u64) -> Option<ServiceView> {
        if self.is_current(name, id) {
            Some(self.services[name])
        } else if self.retired.contains_key(id) {
            Some(self.retired[id])
        } else {
            None
        }
    }

    /// Whether the process of the service `name` is not running any more, given that `ended` has
    /// ended: that is its process, or it has none since it was stopped while it was starting.
    pub open spec fn lost(self, name: Seq<char>, ended: Option<Process>) -> bool {
        &&& self.has(name)
        &&& self.services[name].state == ServiceState::Running
        &&& self.services[name].process is None || self.services[name].process == ended
    }

    /// After it was noted that the process `ended` has ended. A service that it leaves without a
    /// process is stopped.
    pub open spec fn noted(self, name: Seq<char>, ended: Option<Process>) -> ManagerView {
        if self.lost(name, ended) {
            self.set_service(
                name,
                ServiceView {
                    state: ServiceState::Stopped,
                    process: None,
                    ..self.services[name]
                },
            )
        } else {
            self
        }
    }

    /// After activity of the service `name`.
    pub open spec fn touched(self, name: Seq<char>, now: u128) -> ManagerView {
        self.set_service(name, ServiceView { last_activity: now, ..self.services[name] })
    }

    /// After a start cycle of the service `name` began.
    pub open spec fn begun(self, name: Seq<char>) -> ManagerView {
        ManagerView {
            next_id: id_after(self.next_id),
            ..self.set_service(
                name,
                ServiceView {
                    state: ServiceState::Starting,
                    ready: self.next_id,
                    ..self.services[name]
                },
            )
        }
    }

    /// Whether `t` is what a request gets that waits for the service `name`.
    pub open spec fn is_ticket(self, name: Seq<char>, rechecked: bool, t: WaitTicket) -> bool {
        &&& t.name@ == name
        &&& t.id == self.services[name].id
        &&& t.cycle == self.services[name].ready
        &&& t.port == self.services[name].config.port
        &&& t.timeout == self.startup_timeout
        &&& t.rechecked == rechecked
    }

    /// Whether `p` starts the service `name`: with its command, handed to a login shell, in its
    /// directory and with its environment.
    pub open spec fn is_spawn(self, name: Seq<char>, p: SpawnPlan) -> bool {
        let s = self.services[name];
        &&& p.startup.name@ == name
        &&& p.startup.id == s.id
        &&& p.startup.cycle == self.next_id
        &&& p.startup.port == s.config.port
        &&& p.startup.timeout == self.startup_timeout
        &&& p.program@ == "sh"@
        &&& texts(p.args@) == seq!["-lc"@, s.config.command]
        &&& p.dir@ == s.config.pwd
        &&& p.env@ == s.config.env
    }

    /// With `s` in place of the registration `id` of the service `name`, the current one or one
    /// that is retired.
    pub open spec fn patched(self, name: Seq<char>, id: u64, s: ServiceView) -> ManagerView {
        if self.is_current(name, id) {
            self.set_service(name, s)
        } else if self.retired.contains_key(id) {
            ManagerView { retired: self.retired.insert(id, s), ..self }
        } else {
            self
        }
    }
}

impl ManagerView {
    /// The service of a start cycle, if that cycle is the latest of the service. A start that
    /// another has followed does nothing more to the service.
    pub open spec fn led_by(self, startup: Startup) -> Option<ServiceView> {
        match self.lookup(startup.name@, startup.id) {
            Some(s) => if s.ready == startup.cycle {
                Some(s)
            } else {
                None
            },
            None => None,
        }
    }

    /// The process of a start cycle.
    pub open spec fn process_of(self, startup: Startup) -> Option<Process> {
        match self.led_by(startup) {
            Some(s) => s.process,
            None => None,
        }
    }

    /// After the service of a start cycle, if the cycle is its latest, was given this state,
    /// process and last activity.
    pub open spec fn with_state(
        self,
        startup: Startup,
        state: ServiceState,
        process: Option<Process>,
        last_activity: u128,
    ) -> ManagerView {
        match self.led_by(startup) {
            Some(s) => self.patched(
                startup.name@,
                startup.id,
                ServiceView { state: state, process: process, last_activity: last_activity, ..s },
            ),
            None => self,
        }
    }

    /// Whether a start cycle is still under way: it is the latest of its service, which was not
    /// stopped meanwhile.
    pub open spec fn under_way(self, startup: Startup) -> bool {
        self.led_by(startup) matches Some(s) && s.state == ServiceState::Starting
    }

    /// After the process of a start cycle was started.
    pub open spec fn with_process(self, startup: Startup, pid: Option<u32>) -> ManagerView {
        let s = self.led_by(startup)->0;
        let process = Some(Process { cycle: startup.cycle, pid: pid });
        if self.under_way(startup) {
            self.with_state(startup, s.state, process, s.last_activity)
        } else {
            self
        }
    }

    /// The process that is given up when the process of a start cycle was started: that one, if the
    /// cycle is not under way any more, and else the one that it takes the place of.
    pub open spec fn given_up(self, startup: Startup, pid: Option<u32>) -> Option<Process> {
        if self.under_way(startup) {
            self.process_of(startup)
        } else {
            Some(Process { cycle: startup.cycle, pid: pid })
        }
    }

    /// What there is to do for that process.
    pub open spec fn give_up_plan(self, startup: Startup, pid: Option<u32>) -> Option<StopPlan> {
        match self.given_up(startup, pid) {
            Some(p) => Some(StopPlan { process: Some(p), grace: self.shutdown_grace }),
            None => None,
        }
    }

    /// After a start cycle failed, and its process was given up.
    pub open spec fn start_failed(self, startup: Startup) -> ManagerView {
        let s = self.led_by(startup)->0;
        self.with_state(startup, ServiceState::Failed, None, s.last_activity)
    }

    /// After a service that was starting answered.
    pub open spec fn start_succeeded(self, startup: Startup, now: u128) -> ManagerView {
        let s = self.led_by(startup)->0;
        self.with_state(startup, ServiceState::Running, s.process, now)
    }
}

/// What is said where the process of a start cycle could not be started.
pub open spec fn spawn_message(startup: Startup, error: Seq<char>) -> Seq<char> {
    "Failed to spawn "@ + startup.name@ + ": "@ + error
}

/// What is said of a start cycle that took too long.
pub open spec fn timeout_message(startup: Startup) -> Seq<char> {
    "Service "@ + startup.name@ + " did not become ready within "@ + decimal(
        startup.timeout as nat,
    ) + "s"@
}

/// Whether `end` is that the start cycle succeeded.
pub open spec fn succeeded(end: StartEnd, startup: Startup) -> bool {
    &&& end.result == Ok::<u16, String>(startup.port)
    &&& end.cycle == startup.cycle
    &&& end.kill is None
}

/// Whether `r` is what a request gets that has waited.
pub open spec fn wait_result(
    m: ManagerView,
    ticket: WaitTicket,
    notified: bool,
    r: Result<u16, String>,
) -> bool {
    let runs = m.lookup(ticket.name@, ticket.id) matches Some(s) && s.state
        == ServiceState::Running;
    match r {
        Ok(port) => notified && runs && port == ticket.port,
        Err(message) => !(notified && runs) && message@ == if notified {
            "Service "@ + ticket.name@ + " failed to start"@
        } else if ticket.rechecked {
            "Timed out waiting for service "@ + ticket.name@
        } else {
            "Timed out waiting for service "@ + ticket.name@ + " to start"@
        },
    }
}

/// What is said of a process that ended before its service was ready: how it ended, and the last
/// line that it wrote.
pub open spec fn exit_message(
    name: Seq<char>,
    status: Seq<char>,
    lines: Seq<Seq<char>>,
) -> Seq<char> {
    "Service "@ + name + " exited with "@ + status + if lines.len() == 0 {
        Seq::empty()
    } else {
        " ("@ + lines.last() + ")"@
    }
}

fn exit_text(name: &str, status: &str, lines: &Vec<String>) -> (r: String)
    ensures
        r@ == exit_message(name@, status@, texts(lines@)),
{
    let mut out: String = concat4("Service ", name, " exited with ", status);
    if lines.len() > 0 {
        let last: String = concat3(" (", lines[lines.len() - 1].as_str(), ")");
        out.append(last.as_str());
        assert(last@ == " ("@ + texts(lines@).last() + ")"@);
    }
    assert(out@ =~= exit_message(name@, status@, texts(lines@)));
    out
}

fn same_process(a: Process, b: Process) -> (r: bool)
    ensures
        r == (a == b),
{
    a.cycle == b.cycle && match (a.pid, b.pid) {
        (Some(p), Some(q)) => p == q,
        (None, None) => true,
        _ => false,
    }
}

/// How long the service may be asked, `elapsed` after its process was started: what is left of the
/// time that the start may take.
pub open spec fn time_left(startup: Startup, elapsed: u128) -> int {
    if elapsed > startup.timeout * NANOS {
        0
    } else {
        startup.timeout * NANOS - elapsed
    }
}

/// How long the service may be asked, `elapsed` after its process was started, in nanoseconds.
pub fn probe_time(startup: &Startup, elapsed: u128) -> (r: u128)
    ensures
        r == time_left(*startup, elapsed),
{
    let limit: u128 = startup.timeout as u128 * NANOS;
    if elapsed > limit {
        0
    } else {
        limit - elapsed
    }
}

fn unknown_service(name: &str) -> (r: String)
    ensures
        r@ == "Unknown service: "@ + name@,
{
    concat2("Unknown service: ", name)
}

impl ServiceManager {
    /// The process to look at before a request is proxied to the service `name`.
    pub fn running_process(&self, name: &str) -> (r: Option<Process>)
        ensures
            r == (if self@.has(name@) && self@.services[name@].state == ServiceState::Running {
                self@.services[name@].process
            } else {
                None
            }),
            self@.wf(),
    {
        let found = self.services.get(name);
        proof {
            use_type_invariant(self);
            self.lemma_wf();
        }
        match found {
            Some(s) => if s.state == ServiceState::Running {
                s.process
            } else {
                None
            },
            None => None,
        }
    }

    fn note_ended(&mut self, name: &str, ended: Option<Process>)
        ensures
            final(self)@ == old(self)@.noted(name@, ended),
            final(self)@.wf(),
    {
        proof {
            use_type_invariant(&*self);
        }
        let found = self.services.position(name);
        proof {
            self.lemma_wf();
        }
        let i: usize = match found {
            Some(i) => i,
            None => {
                return;
            },
        };
        let s = self.services.value_at(i);
        let (last_activity, ready) = (s.last_activity, s.ready);
        let lost: bool = s.state == ServiceState::Running && match (s.process, ended) {
            (None, _) => true,
            (Some(p), Some(q)) => same_process(p, q),
            (Some(_), None) => false,
        };
        if lost {
            self.rewrite(i, ServiceState::Stopped, None, last_activity, ready);
        }
    }

    /// What a request for the service `name` has to do. `ended` is the process of
    /// `running_process`, if it was found to have ended: the service is then started anew. So is
    /// one that answered after it was stopped while it was starting. Fails where there is no such
    /// service.
    pub fn ensure_running(&mut self, name: &str, ended: Option<Process>, now: u128) -> (r: Result<
        EnsureStep,
        String,
    >)
        ensures
            final(self)@.wf(),
            ({
                let m = old(self)@.noted(name@, ended);
                match r {
                    Ok(EnsureStep::Ready(port)) => {
                        &&& m.has(name@)
                        &&& m.services[name@].state == ServiceState::Running
                        &&& port == m.services[name@].config.port
                        &&& final(self)@ == m.touched(name@, now)
                    },
                    Ok(EnsureStep::Wait(ticket)) => {
                        &&& m.has(name@)
                        &&& m.services[name@].state == ServiceState::Starting
                        &&& m.is_ticket(name@, false, ticket)
                        &&& final(self)@ == m
                    },
                    Ok(EnsureStep::Start) => {
                        &&& m.has(name@)
                        &&& (m.services[name@].state == ServiceState::Stopped
                            || m.services[name@].state == ServiceState::Failed)
                        &&& final(self)@ == m
                    },
                    Err(message) => {
                        &&& !m.has(name@)
                        &&& message@ == "Unknown service: "@ + name@
                        &&& final(self)@ == m
                    },
                }
            }),
            old(self)@.lost(name@, ended) ==> {
                &&& r matches Ok(EnsureStep::Start)
                &&& final(self)@.services[name@].process is None
                &&& final(self)@.services[name@].state == ServiceState::Stopped
            },
    {
        self.note_ended(name, ended);
        let (state, port, cycle, id) = match self.services.get(name) {
            Some(s) => (s.state, s.config.port, s.ready, s.id),
            None => {
                return Err(unknown_service(name));
            },
        };
        match state {
            ServiceState::Running => {
                self.record_activity(name, now);
                Ok(EnsureStep::Ready(port))
            },
            ServiceState::Starting => Ok(
                EnsureStep::Wait(
                    WaitTicket {
                        name: name.to_owned(),
                        id,
                        cycle,
                        port,
                        timeout: self.startup_timeout,
                        rechecked: false,
                    },
                ),
            ),
            ServiceState::Stopped => Ok(EnsureStep::Start),
            ServiceState::Failed => Ok(EnsureStep::Start),
        }
    }

    /// What a request gets that has waited: the port, if it was told in time that the start cycle
    /// ended and the service runs.
    pub fn wait_finished(&self, ticket: &WaitTicket, notified: bool) -> (r: Result<u16, String>)
        ensures
            wait_result(self@, *ticket, notified, r),
            self@.wf(),
    {
        let name = ticket.name.as_str();
        let found = self.find(name, ticket.id);
        if notified {
            match found {
                Some(s) => {
                    if s.state == ServiceState::Running {
                        return Ok(ticket.port);
                    }
                },
                None => {},
            }
            Err(concat3("Service ", name, " failed to start"))
        } else if ticket.rechecked {
            Err(concat2("Timed out waiting for service ", name))
        } else {
            Err(concat3("Timed out waiting for service ", name, " to start"))
        }
    }

    /// Begins to start the service `name`, unless it runs or is being started. Fails where there
    /// is no such service.
    pub fn start_service(&mut self, name: &str, now: u128) -> (r: Result<StartStep, String>)
        ensures
            final(self)@.wf(),
            match r {
                Ok(StartStep::Ready(port)) => {
                    &&& old(self)@.has(name@)
                    &&& old(self)@.services[name@].state == ServiceState::Running
                    &&& port == old(self)@.services[name@].config.port
                    &&& final(self)@ == old(self)@.touched(name@, now)
                },
                Ok(StartStep::Wait(ticket)) => {
                    &&& old(self)@.has(name@)
                    &&& old(self)@.services[name@].state == ServiceState::Starting
                    &&& old(self)@.is_ticket(name@, true, ticket)
                    &&& final(self)@ == old(self)@
                },
                Ok(StartStep::Spawn(plan)) => {
                    &&& old(self)@.has(name@)
                    &&& (old(self)@.services[name@].state == ServiceState::Stopped || old(
                        self,
                    )@.services[name@].state == ServiceState::Failed)
                    &&& old(self)@.is_spawn(name@, plan)
                    &&& final(self)@ == old(self)@.begun(name@)
                },
                Err(message) => {
                    &&& !old(self)@.has(name@)
                    &&& message@ == "Unknown service: "@ + name@
                    &&& final(self)@ == old(self)@
                },
            },
    {
        proof {
            use_type_invariant(&*self);
        }
        let found = self.services.position(name);
        proof {
            self.lemma_wf();
        }
        let i: usize = match found {
            Some(i) => i,
            None => {
                return Err(unknown_service(name));
            },
        };
        let timeout: u64 = self.startup_timeout;
        let s = self.services.value_at(i);
        let (state, process, id) = (s.state, s.process, s.id);
        let (last_activity, ready, port) = (s.last_activity, s.ready, s.config.port);
        match state {
            ServiceState::Running => {
                self.rewrite(i, state, process, now, ready);
                Ok(StartStep::Ready(port))
            },
            ServiceState::Starting => Ok(
                StartStep::Wait(
                    WaitTicket {
                        name: name.to_owned(),
                        id,
                        cycle: ready,
                        port,
                        timeout,
                        rechecked: true,
                    },
                ),
            ),
            _ => {
                let mut args: Vec<String> = Vec::new();
                args.push("-lc".to_owned());
                args.push(s.config.command.clone());
                assert(texts(args@) =~= seq!["-lc"@, s.config.command@]);
                let dir: Vec<u8> = copy_bytes(&s.config.pwd);
                let env: NameMap<String> = s.config.env.clone();
                let cycle: u64 = self.next_id;
                assert(process is None);
                self.next_id = next_after(cycle);
                self.rewrite(i, ServiceState::Starting, None, last_activity, cycle);
                Ok(
                    StartStep::Spawn(
                        SpawnPlan {
                            startup: Startup { name: name.to_owned(), id, cycle, port, timeout },
                            program: "sh".to_owned(),
                            args,
                            dir,
                            env,
                        },
                    ),
                )
            },
        }
    }

    /// The registration `id` of the service `name`, the current one or one that is retired.
    fn find(&self, name: &str, id: u64) -> (r: Option<&Service>)
        ensures
            self@.wf(),
            match r {
                Some(s) => self@.lookup(name@, id) == Some(s@),
                None => self@.lookup(name@, id) is None,
            },
    {
        let found = self.services.get(name);
        proof {
            use_type_invariant(self);
            self.lemma_wf();
        }
        match found {
            Some(s) => {
                if s.id == id {
                    return Some(s);
                }
            },
            None => {},
        }
        self.retired.get(&id)
    }

    /// The state, process and last activity of the service of a start cycle, if the cycle is its
    /// latest.
    fn seen(&self, startup: &Startup) -> (r: Option<(ServiceState, Option<Process>, u128)>)
        ensures
            self@.wf(),
            match (r, self@.led_by(*startup)) {
                (Some(t), Some(s)) => t == (s.state, s.process, s.last_activity) && sound(s),
                (None, None) => true,
                _ => false,
            },
    {
        match self.find(startup.name.as_str(), startup.id) {
            Some(s) => if s.ready == startup.cycle {
                Some((s.state, s.process, s.last_activity))
            } else {
                None
            },
            None => None,
        }
    }

    /// Gives the service of a start cycle this state, process and last activity.
    fn write(
        &mut self,
        startup: &Startup,
        state: ServiceState,
        process: Option<Process>,
        last_activity: u128,
    )
        requires
            old(self)@.led_by(*startup) is Some,
            process matches Some(p) ==> p.cycle == startup.cycle && (state
                == ServiceState::Starting || state == ServiceState::Running),
        ensures
            final(self)@ == old(self)@.with_state(*startup, state, process, last_activity),
            final(self)@.wf(),
    {
        proof {
            use_type_invariant(&*self);
        }
        let found = self.services.position(startup.name.as_str());
        proof {
            self.lemma_wf();
        }
        match found {
            Some(i) => {
                if self.services.value_at(i).id == startup.id {
                    self.rewrite(i, state, process, last_activity, startup.cycle);
                    return;
                }
            },
            None => {},
        }
        let ghost view = |s: Service| s@;
        let ghost before = self.retired@;
        let mut retired: HashMap<u64, Service> = HashMap::new();
        std::mem::swap(&mut retired, &mut self.retired);
        match retired.remove(&startup.id) {
            Some(taken) => {
                let mut s = taken;
                s.state = state;
                s.process = process;
                s.last_activity = last_activity;
                let ghost seen = s@;
                retired.insert(startup.id, s);
                assert(retired@.map_values(view) =~= before.map_values(view).insert(
                    startup.id,
                    seen,
                ));
            },
            None => {},
        }
        self.retired = retired;
        proof {
            self.lemma_wf();
        }
    }

    /// Notes that the process of a start cycle could not be started.
    pub fn spawn_failed(&mut self, startup: &Startup, error: &str) -> (r: StartEnd)
        ensures
            final(self)@ == old(self)@.start_failed(*startup),
            final(self)@.wf(),
            failed_for(r, *startup, spawn_message(*startup, error@)),
            r.kill == old(self)@.process_of(*startup),
    {
        let kill: Option<Process> = match self.seen(startup) {
            Some((_, process, last_activity)) => {
                self.write(startup, ServiceState::Failed, None, last_activity);
                process
            },
            None => None,
        };
        StartEnd {
            result: Err(concat4("Failed to spawn ", startup.name.as_str(), ": ", error)),
            cycle: startup.cycle,
            kill,
        }
    }

    /// Notes the process of a start cycle. Hands back what there is to do for the process that is
    /// given up: the one that it takes the place of, or the process itself, if the service was
    /// stopped or started anew meanwhile.
    pub fn spawned(&mut self, startup: &Startup, pid: Option<u32>) -> (r: Option<StopPlan>)
        ensures
            final(self)@ == old(self)@.with_process(*startup, pid),
            final(self)@.wf(),
            r == old(self)@.give_up_plan(*startup, pid),
    {
        let process = Some(Process { cycle: startup.cycle, pid });
        let given_up: Option<Process> = match self.seen(startup) {
            Some((ServiceState::Starting, earlier, last_activity)) => {
                self.write(startup, ServiceState::Starting, process, last_activity);
                earlier
            },
            _ => process,
        };
        match given_up {
            Some(_) => Some(StopPlan { process: given_up, grace: self.shutdown_grace }),
            None => None,
        }
    }

    /// The process to look at while a service is starting: that of the start cycle itself.
    pub fn poll_process(&self, startup: &Startup) -> (r: Option<Process>)
        ensures
            r == self@.process_of(*startup),
            self@.wf(),
    {
        match self.seen(startup) {
            Some((_, process, _)) => process,
            None => None,
        }
    }

    /// Notes how the process of `poll_process` stands: still running, or ended with `exit`, when
    /// it had written `lines`. One that has ended fails the start. `None` where the start goes on:
    /// the service is then asked whether it answers.
    pub fn process_polled(
        &mut self,
        startup: &Startup,
        exit: Option<&str>,
        lines: &Vec<String>,
    ) -> (r: Option<StartEnd>)
        ensures
            final(self)@.wf(),
            if exit is Some && old(self)@.process_of(*startup) is Some {
                &&& final(self)@ == old(self)@.start_failed(*startup)
                &&& r matches Some(end)
                &&& failed_for(
                    end,
                    *startup,
                    exit_message(startup.name@, exit->0@, texts(lines@)),
                )
                &&& end.kill is None
            } else {
                final(self)@ == old(self)@ && r is None
            },
    {
        match (exit, self.seen(startup)) {
            (Some(status), Some((_, Some(_), last_activity))) => {
                self.write(startup, ServiceState::Failed, None, last_activity);
                Some(
                    StartEnd {
                        result: Err(exit_text(startup.name.as_str(), status, lines)),
                        cycle: startup.cycle,
                        kill: None,
                    },
                )
            },
            _ => None,
        }
    }

    /// Notes whether a service that is starting answered, `elapsed` after the start. It is ready
    /// once it has, and has failed if it has not when the time is up; but if another start has
    /// followed, that one decides. `None` where the start goes on: the process is looked at again
    /// after a while.
    pub fn health_checked(
        &mut self,
        startup: &Startup,
        healthy: bool,
        elapsed: u128,
        now: u128,
    ) -> (r: Option<StartEnd>)
        ensures
            final(self)@.wf(),
            if healthy {
                &&& final(self)@ == old(self)@.start_succeeded(*startup, now)
                &&& r matches Some(end)
                &&& succeeded(end, *startup)
            } else if elapsed > startup.timeout * NANOS {
                &&& final(self)@ == old(self)@.start_failed(*startup)
                &&& r matches Some(end)
                &&& failed_for(end, *startup, timeout_message(*startup))
                &&& end.kill == old(self)@.process_of(*startup)
            } else {
                final(self)@ == old(self)@ && r is None
            },
    {
        let seen = self.seen(startup);
        let limit: u128 = startup.timeout as u128 * NANOS;
        if healthy {
            match seen {
                Some((_, process, _)) => {
                    self.write(startup, ServiceState::Running, process, now);
                },
                None => {},
            }
            Some(StartEnd { result: Ok(startup.port), cycle: startup.cycle, kill: None })
        } else if elapsed > limit {
            let kill: Option<Process> = match seen {
                Some((_, process, last_activity)) => {
                    self.write(startup, ServiceState::Failed, None, last_activity);
                    process
                },
                None => None,
            };
            let seconds: String = decimal_text(startup.timeout);
            let mut message: String = concat4(
                "Service ",
                startup.name.as_str(),
                " did not become ready within ",
                seconds.as_str(),
            );
            message.append("s");
            Some(StartEnd { result: Err(message), cycle: startup.cycle, kill })
        } else {
            None
        }
    }
}

// ---------------------------------------------------------------- ending processes

/// The process id to send the request to end to.
pub open spec fn to_end(plan: StopPlan) -> Option<u32> {
    match plan.process {
        Some(p) => p.pid,
        None => None,
    }
}

/// The process id to kill when the grace period is over.
pub open spec fn to_kill(exited: bool, pid: Option<u32>) -> Option<u32> {
    if exited {
        None
    } else {
        pid
    }
}

/// The number that stands for the process group of `pid`.
pub open spec fn group_of(pid: u32) -> int {
    -(pid as int)
}

impl StopPlan {
    /// The process id to send the request to end to, if there is one.
    pub fn terminate(&self) -> (r: Option<u32>)
        ensures
            r == match self.process {
                Some(p) => p.pid,
                None => None,
            },
            r == to_end(*self),
    {
        match self.process {
            Some(p) => p.pid,
            None => None,
        }
    }
}

/// The process id to kill when the grace period is over: that of the process that was asked to
/// end, unless it has.
pub fn after_grace(exited: bool, pid: Option<u32>) -> (r: Option<u32>)
    ensures
        r == (if exited {
            None
        } else {
            pid
        }),
        r == to_kill(exited, pid),
{
    if exited {
        None
    } else {
        pid
    }
}

/// The number that stands for the process group of `pid` in a signal. A process id fits in an
/// `i32`.
pub fn process_group(pid: u32) -> (r: i32)
    requires
        pid <= i32::MAX,
    ensures
        r == -pid,
        r == group_of(pid),
{
    -(pid as i32)
}

/// A filter keeps the names distinct, and what it keeps was there and passes.
pub proof fn lemma_filter_names(names: Seq<Seq<char>>, chosen: spec_fn(Seq<char>) -> bool)
    requires
        names.no_duplicates(),
    ensures
        names.filter(chosen).no_duplicates(),
        forall|n: Seq<char>| #[trigger]
            names.filter(chosen).contains(n) <==> names.contains(n) && chosen(n),
    decreases names.len(),
{
    reveal(Seq::filter);
    if names.len() > 0 {
        let rest = names.drop_last();
        let last = names.last();
        lemma_filter_names(rest, chosen);
        let kept = rest.filter(chosen);
        assert(!rest.contains(last));
        assert(!kept.contains(last));
        assert forall|n: Seq<char>| #[trigger] names.contains(n) <==> rest.contains(n) || n
            == last by {
            if names.contains(n) {
                let j = names.index_of(n);
                if j < rest.len() {
                    assert(rest[j] == n);
                }
            }
            if rest.contains(n) {
                let j = rest.index_of(n);
                assert(names[j] == n);
            }
            if n == last {
                assert(names[names.len() - 1] == n);
            }
        }
        if chosen(last) {
            let out = kept.push(last);
            assert(names.filter(chosen) == out);
            assert forall|n: Seq<char>| #[trigger] out.contains(n) <==> kept.contains(n) || n
                == last by {
                if out.contains(n) {
                    let j = out.index_of(n);
                    if j < kept.len() {
                        assert(kept[j] == n);
                    }
                }
                if kept.contains(n) {
                    let j = kept.index_of(n);
                    assert(out[j] == n);
                }
                if n == last {
                    assert(out[kept.len() as int] == n);
                }
            }
            assert(out.no_duplicates());
        }
    }
}

} // verus!
