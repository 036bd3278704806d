use baywatch::config::{
    config_lookup, expand_path, resolve_config_path, resolve_service, socket_path, Config, ConfigLookup,
    ConfigSource, RawConfig, RawServiceConfig, ServiceConfig,
};
use baywatch::names::NameMap;
use serde_yaml::Value;

fn text(value: &Value, key: &str) -> Option<String> {
    value.get(key).and_then(Value::as_str).map(str::to_string)
}

fn number(value: &Value, key: &str) -> Option<u64> {
    value.get(key).and_then(Value::as_u64)
}

fn service(value: &Value) -> RawServiceConfig {
    let mut env = NameMap::new();
    if let Some(vars) = value.get("env").and_then(Value::as_mapping) {
        for (k, v) in vars {
            env.insert(k.as_str().unwrap().to_string(), v.as_str().unwrap().to_string());
        }
    }
    RawServiceConfig {
        port: number(value, "port").unwrap() as u16,
        command: text(value, "command").unwrap(),
        pwd: text(value, "pwd"),
        idle_timeout: number(value, "idle_timeout"),
        env,
    }
}

fn raw(yaml: &str) -> RawConfig {
    let value: Value = serde_yaml::from_str(yaml).unwrap();
    let mut services = NameMap::new();
    for (name, svc) in value.get("services").unwrap().as_mapping().unwrap() {
        services.insert(name.as_str().unwrap().to_string(), service(svc));
    }
    RawConfig {
        bind: text(&value, "bind"),
        port: number(&value, "port").map(|p| p as u16),
        domain: text(&value, "domain"),
        shutdown_grace: number(&value, "shutdown_grace"),
        startup_timeout: number(&value, "startup_timeout"),
        idle_timeout: number(&value, "idle_timeout"),
        services,
    }
}

fn cwd() -> Result<Vec<u8>, String> {
    Ok(b"/work".to_vec())
}

fn home() -> Option<Vec<u8>> {
    Some(b"/home/u".to_vec())
}

#[test]
fn test_parse_full_config() {
    let yaml = r#"
bind: 127.0.0.1
port: 8080
domain: example.com
shutdown_grace: 10
idle_timeout: 300
services:
  web:
    port: 3000
    command: npm start
    pwd: ~/projects/web
    idle_timeout: 120
  api:
    port: 4000
    command: cargo run
"#;
    let config = Config::parse(&raw(yaml), &cwd(), &home()).unwrap();
    assert_eq!(config.bind, "127.0.0.1");
    assert_eq!(config.port, 8080);
    assert_eq!(config.domain, "example.com");
    assert_eq!(config.shutdown_grace, 10);
    assert_eq!(config.services.len(), 2);

    let web = config.services.get("web").unwrap();
    assert_eq!(web.port, 3000);
    assert_eq!(web.command, "npm start");
    assert_eq!(web.idle_timeout, 120);

    let api = config.services.get("api").unwrap();
    assert_eq!(api.port, 4000);
    assert_eq!(api.idle_timeout, 300); // inherited from global
}

#[test]
fn test_parse_minimal_config() {
    let yaml = r#"
services:
  app:
    port: 5000
    command: python app.py
"#;
    let config = Config::parse(&raw(yaml), &cwd(), &home()).unwrap();
    assert_eq!(config.bind, "0.0.0.0");
    assert_eq!(config.port, 80);
    assert_eq!(config.domain, "localhost");

    let app = config.services.get("app").unwrap();
    assert_eq!(app.idle_timeout, 600); // DEFAULT_IDLE_TIMEOUT
}

const README: &str = r#"
bind: 0.0.0.0
port: 80
domain: localhost
idle_timeout: 900

services:
  myapp:
    port: 3000
    command: npm start
    pwd: ~/projects/myapp
    idle_timeout: 300

  api:
    port: 8000
    command: cargo run --release
    pwd: ~/projects/api

  freetar:
    port: 22001
    command: uvx freetar
    idle_timeout: 60
    env:
      FREETAR_PORT: "22001"
"#;

#[test]
fn config_of_the_readme() {
    let config = Config::parse(&raw(README), &cwd(), &home()).unwrap();
    assert_eq!(config.listen_address(), "0.0.0.0:80");
    assert_eq!(config.shutdown_grace, 5);
    assert_eq!(config.startup_timeout, 30);
    assert_eq!(config.services.get("myapp").unwrap().idle_timeout, 300);
    assert_eq!(config.services.get("api").unwrap().idle_timeout, 900);
    let freetar = config.services.get("freetar").unwrap();
    assert_eq!(freetar.idle_timeout, 60);
    assert_eq!(freetar.pwd, b"/work");
    assert_eq!(freetar.env.get("FREETAR_PORT").unwrap(), "22001");
    let copy = config.clone();
    assert_eq!(copy.services.len(), 3);
    assert!(copy.services.get("freetar").unwrap().same_as(freetar));
}

#[test]
fn home_directory_is_expanded() {
    let config = Config::parse(&raw(README), &cwd(), &home()).unwrap();
    assert_eq!(config.services.get("myapp").unwrap().pwd, b"/home/u/projects/myapp");
    let config = Config::parse(&raw(README), &cwd(), &None).unwrap();
    assert_eq!(config.services.get("myapp").unwrap().pwd, b"~/projects/myapp");
}

#[test]
fn only_a_tilde_of_its_own_is_expanded() {
    assert_eq!(expand_path("~", &home()), b"/home/u");
    assert_eq!(expand_path("~/", &home()), b"/home/u/");
    assert_eq!(expand_path("~other/x", &home()), b"~other/x");
    assert_eq!(expand_path("/a/~", &home()), b"/a/~");
    assert_eq!(expand_path("", &home()), b"");
    assert_eq!(expand_path("~/a", &Some(b"/home/\xff".to_vec())), b"~/a");
    assert_eq!(expand_path("~/\u{e9}", &home()), "/home/u/\u{e9}".as_bytes());
}

#[test]
fn missing_directory_fails_only_where_it_is_needed() {
    let gone = Err("No such file or directory".to_string());
    let e = Config::parse(&raw(README), &gone, &home()).unwrap_err();
    assert_eq!(e, "No such file or directory");
    let yaml = "services: {app: {port: 1, command: x, pwd: /srv}}";
    let config = Config::parse(&raw(yaml), &gone, &home()).unwrap();
    assert_eq!(config.services.get("app").unwrap().pwd, b"/srv");
}

#[test]
fn load_reports_what_went_wrong() {
    let source = ConfigSource::Unreadable("No such file or directory (os error 2)".to_string());
    assert_eq!(
        Config::load("/etc/x.yaml", &source, &cwd(), &home()).unwrap_err(),
        "Failed to read config file /etc/x.yaml: No such file or directory (os error 2)"
    );
    let source = ConfigSource::Invalid("missing field `services`".to_string());
    assert_eq!(
        Config::load("/etc/x.yaml", &source, &cwd(), &home()).unwrap_err(),
        "missing field `services`"
    );
    let source = ConfigSource::Parsed(raw(README));
    assert_eq!(Config::load("/etc/x.yaml", &source, &cwd(), &home()).unwrap().port, 80);
}

#[test]
fn given_path_wins() {
    match resolve_config_path(Some("/some/where.yaml")) {
        ConfigLookup::Given(p) => assert_eq!(p, b"/some/where.yaml"),
        other => panic!("{:?}", other),
    }
    let path = resolve_config_path(Some("~/b.yaml")).choose_path(true, true, true);
    assert_eq!(path, shellexpand::tilde("~/b.yaml").as_bytes());
    let path = config_lookup(Some("~/b.yaml"), None, home()).choose_path(false, false, false);
    assert_eq!(path, b"/home/u/b.yaml");
}

#[test]
fn search_goes_from_the_user_to_the_system() {
    let search = || config_lookup(None, Some(b"/xdg".to_vec()), home());
    let xdg = b"/xdg/baywatch/config.yaml";
    let user = b"/home/u/.config/baywatch/config.yaml";
    let system = b"/etc/baywatch/config.yaml";
    assert_eq!(search().choose_path(true, true, true), xdg);
    assert_eq!(search().choose_path(true, false, false), xdg);
    assert_eq!(search().choose_path(false, true, true), user);
    assert_eq!(search().choose_path(false, true, false), user);
    assert_eq!(search().choose_path(false, false, true), system);
    assert_eq!(search().choose_path(false, false, false), xdg);
}

#[test]
fn search_without_a_config_directory() {
    let search = || config_lookup(None, None, home());
    let user = b"/home/u/.config/baywatch/config.yaml";
    let system = b"/etc/baywatch/config.yaml";
    assert_eq!(search().choose_path(true, false, false), user);
    assert_eq!(search().choose_path(true, true, true), user);
    assert_eq!(search().choose_path(true, false, true), system);
    let search = || config_lookup(None, None, None);
    assert_eq!(search().choose_path(true, true, false), b"./.config/baywatch/config.yaml");
    assert_eq!(search().choose_path(true, true, true), system);
    let search = config_lookup(None, Some(b"/\xff".to_vec()), None);
    assert_eq!(search.choose_path(true, false, false), b"/\xff/baywatch/config.yaml");
}

#[test]
fn search_uses_the_directories_of_the_environment() {
    let path = resolve_config_path(None).choose_path(false, false, false);
    let dir = dirs::config_dir().unwrap_or_else(|| {
        dirs::home_dir()
            .unwrap_or_else(|| std::path::PathBuf::from("."))
            .join(".config")
    });
    let expected = dir.join("baywatch").join("config.yaml");
    assert_eq!(path, expected.to_str().unwrap().as_bytes());
    let path = resolve_config_path(None).choose_path(false, true, false);
    if let Some(home) = dirs::home_dir() {
        let expected = home.join(".config").join("baywatch").join("config.yaml");
        assert_eq!(path, expected.to_str().unwrap().as_bytes());
    }
}

#[test]
fn socket_under_tmp() {
    assert_eq!(socket_path(None, 1000), b"/tmp/baywatch-1000/baywatch.sock");
}

#[test]
fn socket_in_the_runtime_directory() {
    assert_eq!(
        socket_path(Some("/run/user/1000"), 1000),
        b"/run/user/1000/baywatch/baywatch.sock"
    );
    assert_eq!(socket_path(Some(""), 1000), b"baywatch/baywatch.sock");
}

fn plain(pwd: &str, env: &[(&str, &str)]) -> ServiceConfig {
    let mut vars = NameMap::new();
    for (k, v) in env {
        vars.insert(k.to_string(), v.to_string());
    }
    let raw = RawServiceConfig {
        port: 3000,
        command: "npm start".to_string(),
        pwd: None,
        idle_timeout: None,
        env: vars,
    };
    resolve_service(&raw, pwd.as_bytes().to_vec(), 600)
}

#[test]
fn configurations_are_compared_by_what_they_say() {
    let a = plain("/srv/app", &[("A", "1"), ("B", "2")]);
    assert!(a.same_as(&a.clone()));
    assert!(a.same_as(&plain("/srv//app/", &[("B", "2"), ("A", "1")])));
    assert!(!a.same_as(&plain("/srv/app", &[("A", "1")])));
    assert!(!a.same_as(&plain("/srv/app", &[("A", "1"), ("B", "3")])));
    assert!(!a.same_as(&plain("/srv/other", &[("A", "1"), ("B", "2")])));
    let mut b = a.clone();
    b.port = 3001;
    assert!(!a.same_as(&b));
    let mut c = a.clone();
    c.command = "npm test".to_string();
    assert!(!a.same_as(&c));
    let mut d = a.clone();
    d.idle_timeout = 601;
    assert!(!a.same_as(&d));
}
