//! The configuration: its defaults, and where it is looked for.
use vstd::prelude::*;
use vstd::string::*;

use crate::names::{Duplicate, NameMap};
use crate::paths::{copy_bytes, join_path, opt_bytes, path_from, path_join, paths_equal};
use crate::paths::{same_path, written};
use crate::text::{concat2, concat3, decimal, decimal_text};

verus! {

/// Seconds of inactivity after which a service is shut down.
pub const DEFAULT_IDLE_TIMEOUT: u64 = 600;

/// Seconds between asking a service to end and killing it.
pub const DEFAULT_SHUTDOWN_GRACE: u64 = 5;

/// The base domain for routing.
pub const DEFAULT_DOMAIN: &'static str = "localhost";

/// The address to listen on.
pub const DEFAULT_BIND: &'static str = "0.0.0.0";

/// The port to listen on.
pub const DEFAULT_PORT: u16 = 80;

/// Seconds to wait for a service to respond.
pub const DEFAULT_STARTUP_TIMEOUT: u64 = 30;

/// What a text that may be absent holds.
pub open spec fn opt_text(text: Option<String>) -> Option<Seq<char>> {
    match text {
        Some(t) => Some(t@),
        None => None,
    }
}

/// What a text that may be absent holds.
pub open spec fn opt_str(text: Option<&str>) -> Option<Seq<char>> {
    match text {
        Some(t) => Some(t@),
        None => None,
    }
}

/// The configuration as it is written down, before the defaults are filled in.
#[derive(Debug)]
pub struct RawConfig {
    pub bind: Option<String>,
    pub port: Option<u16>,
    pub domain: Option<String>,
    pub shutdown_grace: Option<u64>,
    pub startup_timeout: Option<u64>,
    pub idle_timeout: Option<u64>,
    pub services: NameMap<RawServiceConfig>,
}

/// One service of a `RawConfig`.
#[derive(Debug)]
pub struct RawServiceConfig {
    pub port: u16,
    pub command: String,
    pub pwd: Option<String>,
    pub idle_timeout: Option<u64>,
    pub env: NameMap<String>,
}

/// What a `RawServiceConfig` holds.
pub struct RawServiceView {
    pub port: u16,
    pub command: Seq<char>,
    pub pwd: Option<Seq<char>>,
    pub idle_timeout: Option<u64>,
    pub env: Map<Seq<char>, Seq<char>>,
}

impl View for RawServiceConfig {
    type V = RawServiceView;

    open spec fn view(&self) -> RawServiceView {
        RawServiceView {
            port: self.port,
            command: self.command@,
            pwd: opt_text(self.pwd),
            idle_timeout: self.idle_timeout,
            env: self.env@,
        }
    }
}

/// The configuration with every default filled in.
#[derive(Debug)]
pub struct Config {
    pub bind: String,
    pub port: u16,
    pub domain: String,
    pub shutdown_grace: u64,
    pub startup_timeout: u64,
    pub services: NameMap<ServiceConfig>,
}

/// One service of a `Config`.
#[derive(Debug)]
pub struct ServiceConfig {
    pub port: u16,
    pub command: String,
    pub pwd: Vec<u8>,
    pub env: NameMap<String>,
    pub idle_timeout: u64,
}

/// What a `ServiceConfig` holds.
pub struct ServiceConfigView {
    pub port: u16,
    pub command: Seq<char>,
    pub pwd: Seq<u8>,
    pub env: Map<Seq<char>, Seq<char>>,
    pub idle_timeout: u64,
}

impl View for ServiceConfig {
    type V = ServiceConfigView;

    open spec fn view(&self) -> ServiceConfigView {
        ServiceConfigView {
            port: self.port,
            command: self.command@,
            pwd: self.pwd@,
            env: self.env@,
            idle_timeout: self.idle_timeout,
        }
    }
}

// ---------------------------------------------------------------- paths

/// Whether a `~` at the start of `path` stands for the home directory.
pub open spec fn names_home(path: Seq<char>) -> bool {
    &&& path.len() > 0
    &&& path[0] == '~'
    &&& path.len() == 1 || path[1] == '/'
}

/// `path` with the home directory, if it is known, in place of a leading `~`.
pub open spec fn expanded(path: Seq<char>, home: Option<Seq<char>>) -> Seq<char> {
    match home {
        Some(h) => if names_home(path) {
            h + path.skip(1)
        } else {
            path
        },
        None => path,
    }
}

/// `shellexpand::tilde_with_context`, on Unix: a `~` at the start, followed by a slash or by
/// nothing, is replaced by the home directory that is handed to it; where there is none, and for
/// every other path, the path comes back as it was.
#[verifier::external_body]
fn expand_tilde(path: &str, home: Option<&str>) -> (r: String)
    ensures
        r@ == expanded(path@, opt_str(home)),
{
    shellexpand::tilde_with_context(path, || home).to_string()
}

/// The text that a path is written as, if it is one.
pub open spec fn text_of(path: Seq<u8>) -> Option<Seq<char>> {
    if vstd::utf8::valid_utf8(path) {
        Some(vstd::utf8::decode_utf8(path))
    } else {
        None
    }
}

/// `String::from_utf8`: the text that the bytes encode, if they are valid UTF-8.
#[verifier::external_body]
fn utf8_text(bytes: Vec<u8>) -> (r: Option<String>)
    ensures
        opt_text(r) == text_of(bytes@),
{
    String::from_utf8(bytes).ok()
}

/// The path that is written as `text`, the home directory in place of a leading `~`. A home
/// directory that is not Unicode is taken as not known.
pub open spec fn expanded_path(text: Seq<char>, home: Option<Seq<u8>>) -> Seq<u8> {
    written(
        expanded(
            text,
            match home {
                Some(h) => text_of(h),
                None => None,
            },
        ),
    )
}

/// The path that is written as `text`, the home directory in place of a leading `~`.
pub fn expand_path(text: &str, home: &Option<Vec<u8>>) -> (r: Vec<u8>)
    ensures
        r@ == expanded_path(text@, opt_bytes(*home)),
{
    let home_text: Option<String> = match home {
        Some(h) => utf8_text(copy_bytes(h)),
        None => None,
    };
    let path: String = match &home_text {
        Some(h) => expand_tilde(text, Some(h.as_str())),
        None => expand_tilde(text, None),
    };
    path_from(path.as_str())
}

/// `dirs::config_dir`: the user's directory for configuration files. It depends on the
/// environment, so nothing is stated of it.
#[verifier::external_body]
fn user_config_dir() -> (r: Option<Vec<u8>>) {
    dirs::config_dir().map(|p| p.into_os_string().into_encoded_bytes())
}

/// `dirs::home_dir`: the user's home directory. It depends on the environment, so nothing is
/// stated of it.
#[verifier::external_body]
fn user_home_dir() -> (r: Option<Vec<u8>>) {
    dirs::home_dir().map(|p| p.into_os_string().into_encoded_bytes())
}

// ---------------------------------------------------------------- defaults

impl ServiceConfig {
    /// Whether two services are configured alike. The order of the environment variables does not
    /// matter, nor do ways of writing the same directory.
    pub fn same_as(&self, other: &ServiceConfig) -> (r: bool)
        ensures
            r == same_config(self@, other@),
    {
        self.port == other.port && self.command == other.command && paths_equal(
            &self.pwd,
            &other.pwd,
        ) && self.env.same_as(&other.env) && self.idle_timeout == other.idle_timeout
    }
}

/// Whether two services are configured alike.
pub open spec fn same_config(a: ServiceConfigView, b: ServiceConfigView) -> bool {
    &&& a.port == b.port
    &&& a.command == b.command
    &&& same_path(a.pwd, b.pwd)
    &&& a.env == b.env
    &&& a.idle_timeout == b.idle_timeout
}

impl Clone for ServiceConfig {
    fn clone(&self) -> (r: Self)
        ensures
            r@ == self@,
    {
        ServiceConfig {
            port: self.port,
            command: self.command.clone(),
            pwd: copy_bytes(&self.pwd),
            env: self.env.clone(),
            idle_timeout: self.idle_timeout,
        }
    }
}

impl Duplicate for ServiceConfig {
    fn duplicate(&self) -> (r: Self) {
        self.clone()
    }
}

impl Clone for Config {
    fn clone(&self) -> (r: Self)
        ensures
            r.bind@ == self.bind@,
            r.port == self.port,
            r.domain@ == self.domain@,
            r.shutdown_grace == self.shutdown_grace,
            r.startup_timeout == self.startup_timeout,
            r.services@ == self.services@,
            r.services.names() == self.services.names(),
    {
        Config {
            bind: self.bind.clone(),
            port: self.port,
            domain: self.domain.clone(),
            shutdown_grace: self.shutdown_grace,
            startup_timeout: self.startup_timeout,
            services: self.services.clone(),
        }
    }
}

/// The idle timeout of the services that do not set one.
pub open spec fn global_idle_timeout(raw: RawConfig) -> u64 {
    match raw.idle_timeout {
        Some(t) => t,
        None => DEFAULT_IDLE_TIMEOUT,
    }
}

/// The service that `raw` describes, run in the directory `pwd`.
pub open spec fn resolved_service(
    raw: RawServiceView,
    pwd: Seq<u8>,
    idle_timeout: u64,
) -> ServiceConfigView {
    ServiceConfigView {
        port: raw.port,
        command: raw.command,
        pwd: pwd,
        env: raw.env,
        idle_timeout: match raw.idle_timeout {
            Some(t) => t,
            None => idle_timeout,
        },
    }
}

/// Whether a service written down as `raw` is run in the directory `pwd`: the one it names, or else
/// the current one.
pub open spec fn service_dir(
    raw: RawServiceView,
    cwd: Result<Vec<u8>, String>,
    home: Option<Seq<u8>>,
    pwd: Seq<u8>,
) -> bool {
    match raw.pwd {
        Some(p) => pwd == expanded_path(p, home),
        None => cwd matches Ok(d) && d@ == pwd,
    }
}

/// Whether some service does not name its working directory.
pub open spec fn needs_cwd(raw: RawConfig) -> bool {
    exists|name: Seq<char>| #[trigger]
        raw.services@.contains_key(name) && raw.services@[name].pwd is None
}

/// Fills in the service that `raw` describes, run in the directory `pwd`. `idle_timeout` is for a
/// service that does not set its own.
pub fn resolve_service(raw: &RawServiceConfig, pwd: Vec<u8>, idle_timeout: u64) -> (r: ServiceConfig)
    ensures
        r@ == resolved_service(raw@, pwd@, idle_timeout),
{
    ServiceConfig {
        port: raw.port,
        command: raw.command.clone(),
        pwd,
        env: raw.env.clone(),
        idle_timeout: match raw.idle_timeout {
            Some(t) => t,
            None => idle_timeout,
        },
    }
}

fn text_or(text: &Option<String>, default: &str) -> (r: String)
    ensures
        r@ == match opt_text(*text) {
            Some(t) => t,
            None => default@,
        },
{
    match text {
        Some(t) => t.clone(),
        None => default.to_owned(),
    }
}

/// What came of reading a configuration file.
#[derive(Debug)]
pub enum ConfigSource {
    /// It could not be read.
    Unreadable(String),
    /// It was read, and does not hold a configuration.
    Invalid(String),
    /// It holds this configuration.
    Parsed(RawConfig),
}

/// Whether `c` is `raw` with the defaults filled in, for the current directory `cwd` and the home
/// directory `home`.
pub open spec fn resolved(
    raw: RawConfig,
    cwd: Result<Vec<u8>, String>,
    home: Option<Seq<u8>>,
    c: Config,
) -> bool {
    &&& c.bind@ == match opt_text(raw.bind) {
        Some(t) => t,
        None => DEFAULT_BIND@,
    }
    &&& c.port == match raw.port {
        Some(p) => p,
        None => DEFAULT_PORT,
    }
    &&& c.domain@ == match opt_text(raw.domain) {
        Some(t) => t,
        None => DEFAULT_DOMAIN@,
    }
    &&& c.shutdown_grace == match raw.shutdown_grace {
        Some(t) => t,
        None => DEFAULT_SHUTDOWN_GRACE,
    }
    &&& c.startup_timeout == match raw.startup_timeout {
        Some(t) => t,
        None => DEFAULT_STARTUP_TIMEOUT,
    }
    &&& c.services.wf()
    &&& c.services.names() == raw.services.names()
    &&& c.services@.dom() == raw.services@.dom()
    &&& forall|name: Seq<char>| #[trigger]
        c.services@.contains_key(name) ==> {
            let pwd = c.services@[name].pwd;
            &&& service_dir(raw.services@[name], cwd, home, pwd)
            &&& c.services@[name] == resolved_service(
                raw.services@[name],
                pwd,
                global_idle_timeout(raw),
            )
        }
}

/// The address and port to listen on, as text.
pub open spec fn listen_text(bind: Seq<char>, port: u16) -> Seq<char> {
    bind + ":"@ + decimal(port as nat)
}

/// Whether `r` is what comes of filling in the defaults of `raw`: a configuration, unless a service
/// names no directory and there is no current one.
pub open spec fn parsed(
    raw: RawConfig,
    cwd: Result<Vec<u8>, String>,
    home: Option<Seq<u8>>,
    r: Result<Config, String>,
) -> bool {
    match r {
        Ok(c) => !(needs_cwd(raw) && cwd is Err) && resolved(raw, cwd, home, c),
        Err(t) => needs_cwd(raw) && (cwd matches Err(e) && t@ == e@),
    }
}

/// Whether `r` is what comes of reading a configuration file that is shown as `path`.
pub open spec fn loaded(
    path: Seq<char>,
    source: ConfigSource,
    cwd: Result<Vec<u8>, String>,
    home: Option<Seq<u8>>,
    r: Result<Config, String>,
) -> bool {
    match source {
        ConfigSource::Unreadable(e) => r matches Err(t) && t@ == "Failed to read config file "@
            + path + ": "@ + e@,
        ConfigSource::Invalid(e) => r matches Err(t) && t@ == e@,
        ConfigSource::Parsed(raw) => parsed(raw, cwd, home, r),
    }
}

impl Config {
    /// Turns what came of reading a file into a configuration. `path` is how the path of the file
    /// is shown. `cwd` is the current directory, or why there is none, and `home` the home
    /// directory, if it is known.
    pub fn load(
        path: &str,
        source: &ConfigSource,
        cwd: &Result<Vec<u8>, String>,
        home: &Option<Vec<u8>>,
    ) -> (r: Result<Config, String>)
        ensures
            match *source {
                ConfigSource::Unreadable(e) => r matches Err(t) && t@
                    == "Failed to read config file "@ + path@ + ": "@ + e@,
                ConfigSource::Invalid(e) => r matches Err(t) && t@ == e@,
                ConfigSource::Parsed(raw) => match r {
                    Ok(c) => {
                        &&& !(needs_cwd(raw) && cwd is Err)
                        &&& resolved(raw, *cwd, opt_bytes(*home), c)
                    },
                    Err(t) => needs_cwd(raw) && (*cwd matches Err(e) && t@ == e@),
                },
            },
            loaded(path@, *source, *cwd, opt_bytes(*home), r),
    {
        match source {
            ConfigSource::Unreadable(e) => {
                let mut t: String = concat3("Failed to read config file ", path, ": ");
                t.append(e.as_str());
                Err(t)
            },
            ConfigSource::Invalid(e) => Err(e.clone()),
            ConfigSource::Parsed(raw) => Config::parse(raw, cwd, home),
        }
    }

    /// Fills in the defaults of `raw`. `cwd` is the current directory, for the services that do
    /// not name one, or why there is none, and `home` the home directory, if it is known, for
    /// those that name one below it.
    pub fn parse(
        raw: &RawConfig,
        cwd: &Result<Vec<u8>, String>,
        home: &Option<Vec<u8>>,
    ) -> (r: Result<Config, String>)
        ensures
            match r {
                Ok(c) => {
                    &&& !(needs_cwd(*raw) && cwd is Err)
                    &&& resolved(*raw, *cwd, opt_bytes(*home), c)
                },
                Err(t) => needs_cwd(*raw) && (*cwd matches Err(e) && t@ == e@),
            },
            parsed(*raw, *cwd, opt_bytes(*home), r),
    {
        let idle_timeout: u64 = match raw.idle_timeout {
            Some(t) => t,
            None => DEFAULT_IDLE_TIMEOUT,
        };
        let mut services: NameMap<ServiceConfig> = NameMap::new();
        let n: usize = raw.services.len();
        let mut i: usize = 0;
        assert(raw.services.names().take(0) =~= Seq::empty());
        while i < n
            invariant
                i <= n,
                n == raw.services.names().len(),
                idle_timeout == global_idle_timeout(*raw),
                raw.services.wf(),
                services.wf(),
                services.names() == raw.services.names().take(i as int),
                forall|name: Seq<char>| #[trigger]
                    services@.contains_key(name) ==> {
                        let pwd = services@[name].pwd;
                        &&& raw.services@.contains_key(name)
                        &&& service_dir(raw.services@[name], *cwd, opt_bytes(*home), pwd)
                        &&& services@[name] == resolved_service(
                            raw.services@[name],
                            pwd,
                            idle_timeout,
                        )
                    },
            decreases n - i,
        {
            let name = raw.services.name_at(i);
            let svc = raw.services.value_at(i);
            let pwd: Vec<u8> = match &svc.pwd {
                Some(p) => expand_path(p.as_str(), home),
                None => match cwd {
                    Ok(d) => copy_bytes(d),
                    Err(e) => {
                        assert(raw.services@.contains_key(name@));
                        return Err(e.clone());
                    },
                },
            };
            proof {
                assert(!services.names().contains(name@));
                assert(!services@.contains_key(name@));
                assert(raw.services.names().take(i + 1) =~= raw.services.names().take(
                    i as int,
                ).push(name@));
            }
            services.insert(name.clone(), resolve_service(svc, pwd, idle_timeout));
            i += 1;
        }
        proof {
            assert(raw.services.names().take(n as int) =~= raw.services.names());
            assert(services@.dom() =~= raw.services@.dom());
            assert forall|name: Seq<char>| #[trigger]
                raw.services@.contains_key(name) && cwd is Err implies raw.services@[name].pwd
                is Some by {
                assert(services@.contains_key(name));
            }
        }
        Ok(
            Config {
                bind: text_or(&raw.bind, DEFAULT_BIND),
                port: match raw.port {
                    Some(p) => p,
                    None => DEFAULT_PORT,
                },
                domain: text_or(&raw.domain, DEFAULT_DOMAIN),
                shutdown_grace: match raw.shutdown_grace {
                    Some(t) => t,
                    None => DEFAULT_SHUTDOWN_GRACE,
                },
                startup_timeout: match raw.startup_timeout {
                    Some(t) => t,
                    None => DEFAULT_STARTUP_TIMEOUT,
                },
                services,
            },
        )
    }

    /// The address and port to listen on, as text.
    pub fn listen_address(&self) -> (r: String)
        ensures
            r@ == self.bind@ + ":"@ + decimal(self.port as nat),
            r@ == listen_text(self.bind@, self.port),
    {
        let port: String = decimal_text(self.port as u64);
        concat3(self.bind.as_str(), ":", port.as_str())
    }
}

// ---------------------------------------------------------------- where the files are

/// The configuration file for all users.
pub const SYSTEM_CONFIG: &'static str = "/etc/baywatch/config.yaml";

/// The configuration file below the directory `dir`.
pub open spec fn config_file(dir: Seq<u8>) -> Seq<u8> {
    path_join(path_join(dir, written("baywatch"@)), written("config.yaml"@))
}

fn config_file_in(dir: &Vec<u8>) -> (r: Vec<u8>)
    ensures
        r@ == config_file(dir@),
{
    let sub: Vec<u8> = join_path(dir, &path_from("baywatch"));
    join_path(&sub, &path_from("config.yaml"))
}

/// The directory for configuration files below the home directory `home`.
pub open spec fn home_config(home: Seq<u8>) -> Seq<u8> {
    path_join(home, written(".config"@))
}

/// Where the configuration file is looked for.
#[derive(Debug)]
pub enum ConfigLookup {
    /// The path was given.
    Given(Vec<u8>),
    /// The first that exists of the file in the user's directory for configuration files, the one
    /// below the home directory, and the one for all users. `fallback` is the path to complain of
    /// where none does.
    Search { xdg: Option<Vec<u8>>, user: Option<Vec<u8>>, fallback: Vec<u8> },
}

/// Whether `r` is where to look, for the path that was given, if one was, and for the user's
/// directory for configuration files and home directory.
pub open spec fn lookup_of(
    cli_path: Option<Seq<char>>,
    config_dir: Option<Seq<u8>>,
    home: Option<Seq<u8>>,
    r: ConfigLookup,
) -> bool {
    match cli_path {
        Some(p) => r matches ConfigLookup::Given(path) && path@ == expanded_path(p, home),
        None => {
            &&& r matches ConfigLookup::Search { xdg, user, fallback }
            &&& opt_bytes(xdg) == match config_dir {
                Some(dir) => Some(config_file(dir)),
                None => None,
            }
            &&& opt_bytes(user) == match home {
                Some(h) => Some(config_file(home_config(h))),
                None => None,
            }
            &&& fallback@ == match config_dir {
                Some(dir) => config_file(dir),
                None => match home {
                    Some(h) => config_file(home_config(h)),
                    None => config_file(home_config(written("."@))),
                },
            }
        },
    }
}

/// Where to look for the configuration file, for the path that was given, if one was, and for the
/// user's directory for configuration files and home directory.
pub fn config_lookup(
    cli_path: Option<&str>,
    config_dir: Option<Vec<u8>>,
    home: Option<Vec<u8>>,
) -> (r: ConfigLookup)
    ensures
        lookup_of(opt_str(cli_path), opt_bytes(config_dir), opt_bytes(home), r),
{
    if let Some(p) = cli_path {
        return ConfigLookup::Given(expand_path(p, &home));
    }
    let xdg: Option<Vec<u8>> = match &config_dir {
        Some(dir) => Some(config_file_in(dir)),
        None => None,
    };
    let user: Option<Vec<u8>> = match &home {
        Some(h) => {
            let dir: Vec<u8> = join_path(h, &path_from(".config"));
            Some(config_file_in(&dir))
        },
        None => None,
    };
    let fallback: Vec<u8> = match (&xdg, &user) {
        (Some(path), _) => copy_bytes(path),
        (None, Some(path)) => copy_bytes(path),
        (None, None) => {
            let dir: Vec<u8> = join_path(&path_from("."), &path_from(".config"));
            config_file_in(&dir)
        },
    };
    ConfigLookup::Search { xdg, user, fallback }
}

/// Where to look for the configuration file: the path that was given, a leading `~` expanded, or
/// else the places where it is kept. Which directories those are depends on the environment.
pub fn resolve_config_path(cli_path: Option<&str>) -> (r: ConfigLookup)
    ensures
        exists|dir: Option<Seq<u8>>, home: Option<Seq<u8>>| #[trigger]
            lookup_of(opt_str(cli_path), dir, home, r),
{
    config_lookup(cli_path, user_config_dir(), user_home_dir())
}

impl ConfigLookup {
    /// The configuration file, once it is known which of the places hold one.
    pub open spec fn chosen(self, xdg_exists: bool, user_exists: bool, system_exists: bool) -> Seq<
        u8,
    > {
        match self {
            ConfigLookup::Given(path) => path@,
            ConfigLookup::Search { xdg, user, fallback } => if xdg is Some && xdg_exists {
                xdg->0@
            } else if user is Some && user_exists {
                user->0@
            } else if system_exists {
                written(SYSTEM_CONFIG@)
            } else {
                fallback@
            },
        }
    }

    /// The configuration file, once it is known which of the places hold one.
    pub fn choose_path(self, xdg_exists: bool, user_exists: bool, system_exists: bool) -> (r: Vec<
        u8,
    >)
        ensures
            r@ == self.chosen(xdg_exists, user_exists, system_exists),
    {
        match self {
            ConfigLookup::Given(path) => path,
            ConfigLookup::Search { xdg, user, fallback } => {
                if xdg_exists {
                    if let Some(path) = xdg {
                        return path;
                    }
                }
                if user_exists {
                    if let Some(path) = user {
                        return path;
                    }
                }
                if system_exists {
                    path_from(SYSTEM_CONFIG)
                } else {
                    fallback
                }
            },
        }
    }
}

/// The control socket: in the runtime directory, if there is one, and else in a directory under
/// `/tmp` that is named after the user.
pub open spec fn socket_file(runtime_dir: Option<Seq<char>>, uid: u32) -> Seq<u8> {
    path_join(
        match runtime_dir {
            Some(dir) => path_join(written(dir), written("baywatch"@)),
            None => written("/tmp/baywatch-"@ + decimal(uid as nat)),
        },
        written("baywatch.sock"@),
    )
}

/// The path of the control socket, for the runtime directory and the user.
pub fn socket_path(runtime_dir: Option<&str>, uid: u32) -> (r: Vec<u8>)
    ensures
        r@ == socket_file(opt_str(runtime_dir), uid),
{
    let dir: Vec<u8> = match runtime_dir {
        Some(dir) => join_path(&path_from(dir), &path_from("baywatch")),
        None => {
            let user: String = decimal_text(uid as u64);
            let text: String = concat2("/tmp/baywatch-", user.as_str());
            path_from(text.as_str())
        },
    };
    join_path(&dir, &path_from("baywatch.sock"))
}

} // verus!
