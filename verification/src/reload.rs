//! Taking over a configuration file that changed while the services are running.
use vstd::prelude::*;
use vstd::string::*;

use crate::config::{same_config, Config, ServiceConfigView};
use crate::paths::{file_name, file_name_of, same_bytes};
use crate::service::{
    halted, lemma_filter_names, stops_view, ManagerView, NamedStop, ServiceManager, ServiceView,
    StopPlan,
};
use crate::text::{same_text, texts};

verus! {

/// Whether a setting was changed from `before` to `after`.
pub open spec fn changed<T>(before: T, after: T) -> bool {
    before != after
}

/// Whether the flags of `report` tell of a change from the settings that the daemon was started
/// with to those of `config`.
pub open spec fn reports(
    report: ReloadReport,
    bind: Seq<char>,
    port: u16,
    domain: Seq<char>,
    config: Config,
) -> bool {
    &&& report.bind_changed == changed(bind, config.bind@)
    &&& report.port_changed == changed(port, config.port)
    &&& report.domain_changed == changed(domain, config.domain@)
}

/// What came of taking over a configuration. The three flags tell of changes that take effect
/// only when the daemon is started again; `stops` is what there is to do for the services that
/// were stopped.
#[derive(Debug)]
pub struct ReloadReport {
    pub bind_changed: bool,
    pub port_changed: bool,
    pub domain_changed: bool,
    pub stops: Vec<NamedStop>,
}

/// The services of a configuration, by name.
pub type Wanted = Map<Seq<char>, ServiceConfigView>;

impl ManagerView {
    /// With other values for the settings that all services share.
    pub open spec fn with_settings(self, shutdown_grace: u64, startup_timeout: u64) -> ManagerView {
        ManagerView { shutdown_grace: shutdown_grace, startup_timeout: startup_timeout, ..self }
    }

    /// The names that are not wanted any more.
    pub open spec fn unwanted(self, wanted: Wanted) -> Seq<Seq<char>> {
        self.names.filter(|n: Seq<char>| !wanted.contains_key(n))
    }

    /// Without the services that are not wanted any more.
    pub open spec fn pruned(self, wanted: Wanted) -> ManagerView {
        ManagerView {
            services: self.services.restrict(wanted.dom()),
            names: self.names.filter(|n: Seq<char>| wanted.contains_key(n)),
            retired: self.retired_after(self.unwanted(wanted)),
            ..self
        }
    }

    /// Whether the service `name` is there and is configured otherwise than `config`.
    pub open spec fn differs(self, name: Seq<char>, config: ServiceConfigView) -> bool {
        self.has(name) && !same_config(self.services[name].config, config)
    }

    /// With the service `name` configured as `config`: registered if it was not there, stopped and
    /// configured anew if it was configured otherwise, and else left alone.
    pub open spec fn reconciled(
        self,
        name: Seq<char>,
        config: ServiceConfigView,
        now: u128,
    ) -> ManagerView {
        if !self.has(name) {
            self.added(name, config, now)
        } else if self.differs(name, config) {
            self.set_service(
                name,
                ServiceView { config: config, ..halted(self.services[name]) },
            )
        } else {
            self
        }
    }

    /// With each service of `names`, one after the other, configured as wanted.
    pub open spec fn reconciled_all(
        self,
        wanted: Wanted,
        names: Seq<Seq<char>>,
        now: u128,
    ) -> ManagerView
        decreases names.len(),
    {
        if names.len() == 0 {
            self
        } else {
            self.reconciled_all(wanted, names.drop_last(), now).reconciled(
                names.last(),
                wanted[names.last()],
                now,
            )
        }
    }

    /// The names of `names` whose services are configured otherwise than wanted.
    pub open spec fn outdated(self, wanted: Wanted, names: Seq<Seq<char>>) -> Seq<Seq<char>> {
        names.filter(|n: Seq<char>| self.differs(n, wanted[n]))
    }

    /// After `config` was taken over.
    pub open spec fn reloaded(self, config: Config, now: u128) -> ManagerView {
        self.with_settings(config.shutdown_grace, config.startup_timeout).pruned(
            config.services@,
        ).reconciled_all(config.services@, config.services.names(), now)
    }

    /// What there is to do when `config` is taken over: for the services that are not wanted any
    /// more, and then for those that are configured anew.
    pub open spec fn reload_stops(self, config: Config) -> Seq<(Seq<char>, StopPlan)> {
        let m = self.with_settings(config.shutdown_grace, config.startup_timeout);
        m.stops_of(m.unwanted(config.services@)) + m.stops_of(
            m.outdated(config.services@, config.services.names()),
        )
    }
}

// ---------------------------------------------------------------- lemmas

proof fn lemma_filter_same(
    names: Seq<Seq<char>>,
    p: spec_fn(Seq<char>) -> bool,
    q: spec_fn(Seq<char>) -> bool,
)
    requires
        forall|n: Seq<char>| names.contains(n) ==> p(n) == q(n),
    ensures
        names.filter(p) == names.filter(q),
    decreases names.len(),
{
    reveal(Seq::filter);
    if names.len() > 0 {
        let rest = names.drop_last();
        assert forall|n: Seq<char>| rest.contains(n) implies p(n) == q(n) by {
            let j = rest.index_of(n);
            assert(names[j] == n);
            assert(names.contains(n));
        }
        assert(names.contains(names.last()));
        lemma_filter_same(rest, p, q);
    }
}

pub(crate) proof fn lemma_filter_all(names: Seq<Seq<char>>, p: spec_fn(Seq<char>) -> bool)
    requires
        forall|n: Seq<char>| names.contains(n) ==> p(n),
    ensures
        names.filter(p) == names,
    decreases names.len(),
{
    reveal(Seq::filter);
    if names.len() > 0 {
        let rest = names.drop_last();
        assert forall|n: Seq<char>| rest.contains(n) implies p(n) by {
            let j = rest.index_of(n);
            assert(names[j] == n);
            assert(names.contains(n));
        }
        assert(names.contains(names.last()));
        lemma_filter_all(rest, p);
        assert(rest.push(names.last()) =~= names);
    }
}

proof fn lemma_remove_last(s: Seq<Seq<char>>, x: Seq<char>)
    requires
        !s.contains(x),
    ensures
        s.push(x).remove_value(x) == s,
        s.remove_value(x) == s,
{
    let t = s.push(x);
    t.index_of_first_ensures(x);
    s.index_of_first_ensures(x);
    assert(t[s.len() as int] == x);
    assert(t.contains(x));
    let i = t.index_of_first(x)->0;
    if i < s.len() {
        assert(s[i] == x);
    }
    assert(t.remove(s.len() as int) =~= s);
}

proof fn lemma_remove_push(s: Seq<Seq<char>>, last: Seq<char>, x: Seq<char>)
    requires
        last != x,
    ensures
        s.push(last).remove_value(x) == s.remove_value(x).push(last),
{
    let t = s.push(last);
    t.index_of_first_ensures(x);
    s.index_of_first_ensures(x);
    if s.contains(x) {
        let i = s.index_of_first(x)->0;
        assert(t[i] == x);
        assert(t.contains(x));
        let j = t.index_of_first(x)->0;
        if j < i {
            assert(s[j] == x);
        }
        if i < j {
            assert(t[i] != x);
        }
        assert(t.remove(i) =~= s.remove(i).push(last));
    } else {
        if t.contains(x) {
            let j = t.index_of(x);
            assert(s[j] == x);
        }
    }
}

proof fn lemma_filter_remove(
    names: Seq<Seq<char>>,
    p: spec_fn(Seq<char>) -> bool,
    q: spec_fn(Seq<char>) -> bool,
    x: Seq<char>,
)
    requires
        names.no_duplicates(),
        forall|n: Seq<char>| names.contains(n) ==> q(n) == (p(n) && n != x),
    ensures
        names.filter(p).remove_value(x) == names.filter(q),
    decreases names.len(),
{
    reveal(Seq::filter);
    if names.len() > 0 {
        let rest = names.drop_last();
        let last = names.last();
        assert forall|n: Seq<char>| rest.contains(n) implies q(n) == (p(n) && n != x) by {
            let j = rest.index_of(n);
            assert(names[j] == n);
            assert(names.contains(n));
        }
        assert(names.contains(last));
        lemma_filter_remove(rest, p, q, x);
        assert(!rest.contains(last));
        lemma_filter_names(rest, p);
        if last == x {
            lemma_remove_last(rest.filter(p), x);
        } else if p(last) {
            lemma_remove_push(rest.filter(p), last, x);
        }
    } else {
        names.filter(p).index_of_first_ensures(x);
        assert(names.filter(p).remove_value(x) =~= names.filter(p));
    }
}

/// Configuring services as wanted leaves the others alone.
pub(crate) proof fn lemma_reconciled_others(
    m: ManagerView,
    wanted: Wanted,
    names: Seq<Seq<char>>,
    now: u128,
    other: Seq<char>,
)
    requires
        !names.contains(other),
    ensures
        m.reconciled_all(wanted, names, now).has(other) == m.has(other),
        m.has(other) ==> m.reconciled_all(wanted, names, now).services[other]
            == m.services[other],
        m.reconciled_all(wanted, names, now).shutdown_grace == m.shutdown_grace,
        m.reconciled_all(wanted, names, now).startup_timeout == m.startup_timeout,
    decreases names.len(),
{
    if names.len() > 0 {
        let rest = names.drop_last();
        assert(!rest.contains(other)) by {
            if rest.contains(other) {
                let j = rest.index_of(other);
                assert(names[j] == other);
            }
        }
        assert(names.contains(names.last()));
        lemma_reconciled_others(m, wanted, rest, now, other);
    }
}

// ---------------------------------------------------------------- taking over

/// Taking out services that are not wanted changes nothing for those that are.
proof fn lemma_pruned_stops(m: ManagerView, wanted: Wanted, names: Seq<Seq<char>>)
    requires
        forall|n: Seq<char>| #[trigger] names.contains(n) ==> m.has(n) && wanted.contains_key(n),
    ensures
        m.pruned(wanted).stops_of(names) == m.stops_of(names),
    decreases names.len(),
{
    if names.len() > 0 {
        let rest = names.drop_last();
        assert forall|n: Seq<char>| #[trigger] rest.contains(n) implies m.has(n)
            && wanted.contains_key(n) by {
            let j = rest.index_of(n);
            assert(names[j] == n);
            assert(names.contains(n));
        }
        assert(names.contains(names.last()));
        lemma_pruned_stops(m, wanted, rest);
    }
}

/// What is left of the names once those of `done` were gone through.
spec fn left_after(wanted: Wanted, done: Seq<Seq<char>>) -> spec_fn(Seq<char>) -> bool {
    |n: Seq<char>| wanted.contains_key(n) || !done.contains(n)
}

/// Takes out the services that are not wanted any more.
fn prune(manager: &mut ServiceManager, wanted: &Config) -> (r: Vec<NamedStop>)
    ensures
        final(manager)@ == old(manager)@.pruned(wanted.services@),
        final(manager)@.wf(),
        stops_view(r@) == old(manager)@.stops_of(old(manager)@.unwanted(wanted.services@)),
{
    let names: Vec<String> = manager.service_names();
    let ghost before = manager@;
    let ghost list = before.names;
    let ghost keep = |n: Seq<char>| wanted.services@.contains_key(n);
    let ghost drop = |n: Seq<char>| !wanted.services@.contains_key(n);
    let mut out: Vec<NamedStop> = Vec::new();
    let mut i: usize = 0;
    proof {
        reveal(Seq::filter);
        assert(list.take(0) =~= Seq::empty());
        assert(stops_view(out@) =~= before.stops_of(list.take(0).filter(drop)));
        let left = left_after(wanted.services@, list.take(0));
        lemma_filter_all(list, left);
        assert(before.services =~= before.services.restrict(Set::new(left)));
    }
    while i < names.len()
        invariant
            before.wf(),
            list == before.names,
            list == texts(names@),
            keep == (|n: Seq<char>| wanted.services@.contains_key(n)),
            drop == (|n: Seq<char>| !wanted.services@.contains_key(n)),
            i <= names@.len(),
            manager@.wf(),
            manager@.next_id == before.next_id,
            manager@.retired == before.retired_after(list.take(i as int).filter(drop)),
            manager@.shutdown_grace == before.shutdown_grace,
            manager@.startup_timeout == before.startup_timeout,
            manager@.services == before.services.restrict(
                Set::new(left_after(wanted.services@, list.take(i as int))),
            ),
            manager@.names == list.filter(left_after(wanted.services@, list.take(i as int))),
            stops_view(out@) == before.stops_of(list.take(i as int).filter(drop)),
        decreases names@.len() - i,
    {
        let name = &names[i];
        let ghost was = manager@;
        let ghost a = list.take(i as int);
        let ghost b = list.take(i + 1);
        proof {
            reveal(Seq::filter);
            assert(name@ == list[i as int]);
            assert(b.drop_last() =~= a);
            assert(b.last() == name@);
            assert(!a.contains(name@));
            assert(list.contains(name@));
            assert(before.has(name@));
            assert forall|k: Seq<char>| b.contains(k) <==> (a.contains(k) || k == name@) by {
                if a.contains(k) {
                    let j = a.index_of(k);
                    assert(b[j] == k);
                }
                if k == name@ {
                    assert(b[i as int] == k);
                }
                if b.contains(k) && k != name@ {
                    let j = b.index_of(k);
                    assert(a[j] == k);
                }
            }
        }
        let ghost left_a = left_after(wanted.services@, a);
        let ghost left_b = left_after(wanted.services@, b);
        if !wanted.services.contains_key(name.as_str()) {
            let plan = manager.remove_service(name.as_str());
            proof {
                assert(was.services[name@] == before.services[name@]);
                lemma_filter_remove(list, left_a, left_b, name@);
                assert(manager@.services =~= before.services.restrict(Set::new(left_b)));
            }
            match plan {
                Some(plan) => {
                    let ghost listed = out@;
                    out.push(NamedStop { name: name.clone(), plan });
                    assert(stops_view(out@) =~= stops_view(listed).push((name@, plan)));
                },
                None => {},
            }
            proof {
                let f = a.filter(drop).push(name@);
                assert(b.filter(drop) == f);
                assert(f.drop_last() =~= a.filter(drop));
            }
        } else {
            proof {
                lemma_filter_same(list, left_a, left_b);
                assert(manager@.services =~= before.services.restrict(Set::new(left_b)));
                assert(b.filter(drop) == a.filter(drop));
            }
        }
        i += 1;
    }
    proof {
        assert(list.take(names@.len() as int) =~= list);
        lemma_filter_same(list, left_after(wanted.services@, list), keep);
        assert(manager@.services =~= before.services.restrict(wanted.services@.dom()));
        assert(manager@ =~= before.pruned(wanted.services@));
    }
    out
}

/// Configures each service as wanted.
fn reconcile(manager: &mut ServiceManager, wanted: &Config, now: u128) -> (r: Vec<NamedStop>)
    requires
        old(manager)@.wf(),
    ensures
        wanted.services.wf(),
        final(manager)@.wf(),
        final(manager)@ == old(manager)@.reconciled_all(
            wanted.services@,
            wanted.services.names(),
            now,
        ),
        stops_view(r@) == old(manager)@.stops_of(
            old(manager)@.outdated(wanted.services@, wanted.services.names()),
        ),
{
    let ghost before = manager@;
    let ghost list = wanted.services.names();
    let ghost old_config = |n: Seq<char>| before.differs(n, wanted.services@[n]);
    let mut out: Vec<NamedStop> = Vec::new();
    let n: usize = wanted.services.len();
    let mut i: usize = 0;
    proof {
        reveal(Seq::filter);
        assert(list.take(0) =~= Seq::empty());
        assert(stops_view(out@) =~= before.stops_of(list.take(0).filter(old_config)));
    }
    while i < n
        invariant
            list == wanted.services.names(),
            wanted.services.wf(),
            n == list.len(),
            i <= n,
            manager@.wf(),
            old_config == (|n: Seq<char>| before.differs(n, wanted.services@[n])),
            manager@ == before.reconciled_all(wanted.services@, list.take(i as int), now),
            stops_view(out@) == before.stops_of(list.take(i as int).filter(old_config)),
        decreases n - i,
    {
        let name = wanted.services.name_at(i);
        let config = wanted.services.value_at(i);
        let ghost a = list.take(i as int);
        let ghost b = list.take(i + 1);
        proof {
            reveal(Seq::filter);
            assert(b.drop_last() =~= a);
            assert(b.last() == name@);
            assert(!a.contains(name@));
            lemma_reconciled_others(before, wanted.services@, a, now, name@);
        }
        match manager.get_service_config(name.as_str()) {
            Some(current) => {
                if !current.same_as(config) {
                    let plan = manager.update_service_config(name.as_str(), config.clone());
                    match plan {
                        Some(plan) => {
                            let ghost listed = out@;
                            out.push(NamedStop { name: name.clone(), plan });
                            assert(stops_view(out@) =~= stops_view(listed).push((name@, plan)));
                        },
                        None => {},
                    }
                    proof {
                        let f = a.filter(old_config).push(name@);
                        assert(b.filter(old_config) == f);
                        assert(f.drop_last() =~= a.filter(old_config));
                    }
                }
            },
            None => {
                manager.add_service(name.clone(), config.clone(), now);
            },
        }
        i += 1;
    }
    assert(list.take(n as int) =~= list);
    out
}

/// Takes over `new_config`, and says what there is to do. The address, port and domain that the
/// daemon was started with stay in use.
pub fn apply_config_reload(
    manager: &mut ServiceManager,
    new_config: &Config,
    initial_bind: &str,
    initial_port: u16,
    initial_domain: &str,
    now: u128,
) -> (r: ReloadReport)
    ensures
        r.bind_changed == (new_config.bind@ != initial_bind@),
        r.port_changed == (new_config.port != initial_port),
        r.domain_changed == (new_config.domain@ != initial_domain@),
        reports(r, initial_bind@, initial_port, initial_domain@, *new_config),
        final(manager)@ == old(manager)@.reloaded(*new_config, now),
        final(manager)@.wf(),
        stops_view(r.stops@) == old(manager)@.reload_stops(*new_config),
{
    let bind_changed: bool = !same_text(new_config.bind.as_str(), initial_bind);
    let port_changed: bool = new_config.port != initial_port;
    let domain_changed: bool = !same_text(new_config.domain.as_str(), initial_domain);
    manager.set_shutdown_grace(new_config.shutdown_grace);
    manager.set_startup_timeout(new_config.startup_timeout);
    let ghost m = manager@;
    let mut stops: Vec<NamedStop> = prune(manager, new_config);
    let ghost kept = manager@;
    let mut more: Vec<NamedStop> = reconcile(manager, new_config, now);
    let ghost first = stops@;
    let ghost second = more@;
    stops.append(&mut more);
    proof {
        let wanted = new_config.services@;
        let names = new_config.services.names();
        assert(stops_view(stops@) =~= stops_view(first) + stops_view(second));
        let p = |n: Seq<char>| m.differs(n, wanted[n]);
        lemma_filter_same(names, |n: Seq<char>| kept.differs(n, wanted[n]), p);
        lemma_filter_names(names, p);
        lemma_pruned_stops(m, wanted, names.filter(p));
    }
    ReloadReport { bind_changed, port_changed, domain_changed, stops }
}

/// The services after the configuration was read again.
pub open spec fn after_change(
    m: ManagerView,
    loaded: Result<Config, String>,
    now: u128,
) -> ManagerView {
    match loaded {
        Ok(config) => m.reloaded(config, now),
        Err(_) => m,
    }
}

/// Takes over the configuration that was read after the file changed. One that could not be read
/// is ignored, and the current one stays.
pub fn config_changed(
    manager: &mut ServiceManager,
    loaded: &Result<Config, String>,
    initial_bind: &str,
    initial_port: u16,
    initial_domain: &str,
    now: u128,
) -> (r: Option<ReloadReport>)
    ensures
        match (*loaded, r) {
            (Ok(config), Some(report)) => {
                &&& report.bind_changed == (config.bind@ != initial_bind@)
                &&& report.port_changed == (config.port != initial_port)
                &&& report.domain_changed == (config.domain@ != initial_domain@)
                &&& reports(report, initial_bind@, initial_port, initial_domain@, config)
                &&& final(manager)@ == old(manager)@.reloaded(config, now)
                &&& stops_view(report.stops@) == old(manager)@.reload_stops(config)
            },
            (Err(_), None) => final(manager)@ == old(manager)@,
            _ => false,
        },
        final(manager)@ == after_change(old(manager)@, *loaded, now),
{
    match loaded {
        Ok(config) => Some(
            apply_config_reload(
                manager,
                config,
                initial_bind,
                initial_port,
                initial_domain,
                now,
            ),
        ),
        Err(_) => None,
    }
}

// ---------------------------------------------------------------- watching

/// How long a change is left to settle before the configuration is read again, in milliseconds:
/// an editor that saves a file does several things to it.
pub const SETTLE_MILLIS: u64 = 500;

/// How many events are kept while the configuration is being read.
pub const EVENT_CAPACITY: usize = 16;

/// What happened to a file.
#[derive(Debug, Clone, Copy, PartialEq, Eq, Structural)]
pub enum WatchKind {
    /// It was created.
    Created,
    /// Its contents were written.
    DataModified,
    /// Another file was renamed to it.
    RenamedTo,
    /// Anything else, such as that it was opened or closed.
    Other,
}

/// Whether an event of that kind about `paths` is one after which the configuration is read again.
pub open spec fn config_event(kind: WatchKind, paths: Seq<Vec<u8>>, name: Seq<u8>) -> bool {
    kind != WatchKind::Other && exists|i: int|
        0 <= i < paths.len() && file_name(#[trigger] paths[i]@) == Some(name)
}

/// Whether an event is one after which the configuration is read again: new contents appeared
/// under the name of the configuration file. `paths` are the files that the event is about.
pub fn is_config_event(kind: WatchKind, paths: &Vec<Vec<u8>>, config_name: &Vec<u8>) -> (r: bool)
    ensures
        r == (kind != WatchKind::Other && exists|i: int|
            0 <= i < paths@.len() && file_name(#[trigger] paths@[i]@) == Some(config_name@)),
        r == config_event(kind, paths@, config_name@),
{
    if kind == WatchKind::Other {
        return false;
    }
    let mut i: usize = 0;
    while i < paths.len()
        invariant
            kind != WatchKind::Other,
            i <= paths@.len(),
            forall|j: int|
                0 <= j < i ==> file_name(#[trigger] paths@[j]@) != Some(config_name@),
        decreases paths@.len() - i,
    {
        if let Some(name) = file_name_of(&paths[i]) {
            if same_bytes(&name, config_name) {
                assert(file_name(paths@[i as int]@) == Some(config_name@));
                return true;
            }
        }
        i += 1;
    }
    false
}

} // verus!
