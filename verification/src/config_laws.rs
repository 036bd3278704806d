//! What holds of the configuration: that what is written in the file is what is in force.
use vstd::prelude::*;
use vstd::string::*;

use crate::config::{config_file, expanded, expanded_path, home_config, listen_text, loaded};
use crate::config::{lookup_of, resolved, same_config, socket_file, text_of, Config, ConfigLookup};
use crate::config::{ConfigSource, RawConfig, RawServiceConfig, ServiceConfig, ServiceConfigView};
use crate::paths::{absolute, lemma_parts_single, named_parts, path_join, same_path, written};
use crate::text::decimal;
use crate::text_laws::{law_decimal, law_join_path, law_numbers_are_told_apart, number};

verus! {

/// Every global option that is written in the file is the one in force, and one that is not written
/// has its default: `0.0.0.0`, 80, `localhost`, 5 and 30 seconds.
pub proof fn law_global_options(
    raw: RawConfig,
    cwd: Result<Vec<u8>, String>,
    home: Option<Seq<u8>>,
    c: Config,
)
    requires
        resolved(raw, cwd, home, c),
    ensures
        raw.bind matches Some(bind) ==> c.bind@ == bind@,
        raw.port matches Some(port) ==> c.port == port,
        raw.domain matches Some(domain) ==> c.domain@ == domain@,
        raw.shutdown_grace matches Some(grace) ==> c.shutdown_grace == grace,
        raw.startup_timeout matches Some(timeout) ==> c.startup_timeout == timeout,
        raw.bind is None ==> c.bind@ == "0.0.0.0"@,
        raw.port is None ==> c.port == 80,
        raw.domain is None ==> c.domain@ == "localhost"@,
        raw.shutdown_grace is None ==> c.shutdown_grace == 5,
        raw.startup_timeout is None ==> c.startup_timeout == 30,
{
}

/// What is said of a service that is written in the file, and of one in force, is what it holds,
/// field by field.
pub proof fn law_fields(raw: RawServiceConfig, config: ServiceConfig)
    ensures
        raw@.port == raw.port,
        raw@.command == raw.command@,
        raw.pwd matches Some(dir) ==> raw@.pwd == Some(dir@),
        raw.pwd is None ==> raw@.pwd is None,
        raw@.idle_timeout == raw.idle_timeout,
        raw@.env == raw.env@,
        config@.port == config.port,
        config@.command == config.command@,
        config@.pwd == config.pwd@,
        config@.env == config.env@,
        config@.idle_timeout == config.idle_timeout,
{
}

/// The services in force are those that are written in the file, in that order, each with the port,
/// the command and the environment written there, in the directory that it names, or else in the
/// current one.
pub proof fn law_service_options(
    raw: RawConfig,
    cwd: Result<Vec<u8>, String>,
    home: Option<Seq<u8>>,
    c: Config,
    name: Seq<char>,
)
    requires
        resolved(raw, cwd, home, c),
    ensures
        c.services.names() == raw.services.names(),
        c.services@.contains_key(name) <==> raw.services@.contains_key(name),
        raw.services@.contains_key(name) ==> {
            let written_down = raw.services@[name];
            let in_force = c.services@[name];
            &&& in_force.port == written_down.port
            &&& in_force.command == written_down.command
            &&& in_force.env == written_down.env
            &&& written_down.pwd is None ==> (cwd matches Ok(dir) && in_force.pwd == dir@)
            &&& written_down.pwd matches Some(dir) ==> {
                &&& dir.len() == 0 || dir[0] != '~' ==> in_force.pwd == written(dir)
                &&& dir.len() > 0 && dir[0] == '~' ==> in_force.pwd == expanded_path(dir, home)
            }
        },
{
    if raw.services@.contains_key(name) {
        assert(c.services@.contains_key(name));
    }
}

/// Reading a configuration fails exactly where the file cannot be read, does not hold a
/// configuration, or holds a service that names no directory while there is no current one. Why is
/// said each time.
pub proof fn law_load_fails(
    path: Seq<char>,
    source: ConfigSource,
    cwd: Result<Vec<u8>, String>,
    home: Option<Seq<u8>>,
    r: Result<Config, String>,
)
    requires
        loaded(path, source, cwd, home, r),
    ensures
        r is Ok <==> (source matches ConfigSource::Parsed(raw) && (cwd is Ok || forall|n: Seq<char>|
            #[trigger]
            raw.services@.contains_key(n) ==> raw.services@[n].pwd is Some)),
        source matches ConfigSource::Unreadable(e) ==> (r matches Err(t) && t@
            == "Failed to read config file "@ + path + ": "@ + e@),
        source matches ConfigSource::Invalid(e) ==> (r matches Err(t) && t@ == e@),
        source is Parsed && r is Err ==> (cwd matches Err(e) && r->Err_0@ == e@),
        source matches ConfigSource::Parsed(raw) ==> (r matches Ok(c) ==> resolved(
            raw,
            cwd,
            home,
            c,
        )),
{
}

/// A `~` that stands alone or before a slash is replaced by the home directory, and what follows it
/// stays. A `~` before anything else, a path without one, and a path where no home directory is
/// known, stay as they are.
pub proof fn law_tilde(home: Seq<char>, rest: Seq<char>, path: Seq<char>)
    ensures
        expanded("~"@, Some(home)) == home,
        expanded("~/"@ + rest, Some(home)) == home + "/"@ + rest,
        path.len() == 0 || path[0] != '~' ==> expanded(path, Some(home)) == path,
        rest.len() > 0 && rest[0] != '/' ==> expanded("~"@ + rest, Some(home)) == "~"@ + rest,
        expanded(path, None) == path,
{
    reveal_strlit("~");
    reveal_strlit("~/");
    reveal_strlit("/");
    assert(expanded("~"@, Some(home)) =~= home);
    assert(("~/"@ + rest).skip(1) =~= "/"@ + rest);
    assert(expanded("~/"@ + rest, Some(home)) =~= home + "/"@ + rest);
    let other = "~"@ + rest;
    if rest.len() > 0 && rest[0] != '/' {
        assert(other[1] == rest[0]);
    }
}

/// The home directory is the one that is put in the place of a `~`, written out again as it is. One
/// that is not Unicode is not put in.
pub proof fn law_tilde_path(text: Seq<char>, home: Seq<char>, bytes: Seq<u8>)
    ensures
        expanded_path(text, Some(written(home))) == written(expanded(text, Some(home))),
        !vstd::utf8::valid_utf8(bytes) ==> expanded_path(text, Some(bytes)) == written(text),
        expanded_path(text, None) == written(text),
        text_of(written(text)) == Some(text),
{
    vstd::utf8::encode_utf8_valid_utf8(home);
    vstd::utf8::encode_utf8_decode_utf8(home);
    vstd::utf8::encode_utf8_valid_utf8(text);
    vstd::utf8::encode_utf8_decode_utf8(text);
}

/// Where no configuration file is found, the path to complain of is that in the user's directory
/// for configuration files, or else that below the home directory, or else that below the current
/// one.
pub proof fn law_no_config_found(
    config_dir: Option<Seq<u8>>,
    home: Option<Seq<u8>>,
    lookup: ConfigLookup,
)
    requires
        lookup_of(None, config_dir, home, lookup),
    ensures
        ({
            let path = lookup.chosen(false, false, false);
            &&& config_dir matches Some(dir) ==> path == config_file(dir)
            &&& config_dir is None ==> (home matches Some(h) ==> path == config_file(
                home_config(h),
            ))
            &&& config_dir is None && home is None ==> path == config_file(
                home_config(written("."@)),
            )
        }),
{
}

/// The configuration file below a directory is `baywatch/config.yaml` there, and the directory for
/// configuration files below the home directory is `.config`.
pub proof fn law_config_file(dir: Seq<u8>)
    ensures
        named_parts(config_file(dir)) == named_parts(dir) + seq![
            written("baywatch"@),
            written("config.yaml"@),
        ],
        named_parts(home_config(dir)) == named_parts(dir) + seq![written(".config"@)],
        absolute(config_file(dir)) == absolute(dir),
{
    lemma_plain("baywatch"@);
    lemma_plain("config.yaml"@);
    lemma_plain(".config"@);
    law_join_path(dir, written("baywatch"@));
    law_join_path(
        path_join(dir, written("baywatch"@)),
        written("config.yaml"@),
    );
    law_join_path(dir, written(".config"@));
}

/// These names are single parts.
proof fn lemma_plain(text: Seq<char>)
    requires
        text == "baywatch"@ || text == "config.yaml"@ || text == ".config"@ || text
            == "baywatch.sock"@,
    ensures
        !absolute(written(text)),
        named_parts(written(text)) == seq![written(text)],
{
    reveal_strlit("baywatch");
    reveal_strlit("config.yaml");
    reveal_strlit(".config");
    reveal_strlit("baywatch.sock");
    assert forall|i: int| 0 <= i < text.len() implies (#[trigger] text[i] as int) < 128 && text[i]
        != '/' by {}
    vstd::utf8::is_ascii_chars_encode_utf8(text);
    let bytes = written(text);
    assert forall|i: int| 0 <= i < bytes.len() implies bytes[i] != 47u8 by {
        assert(bytes[i] == text[i] as u8);
    }
    lemma_parts_single(bytes);
    assert(text.len() > 1);
    assert(bytes.len() == text.len());
}

/// The control socket is `baywatch/baywatch.sock` in the runtime directory, whoever the user is,
/// and where there is none it is below `/tmp`, in a directory that is named after the user's
/// number.
pub proof fn law_control_socket(dir: Seq<char>, a: u32, b: u32)
    ensures
        socket_file(Some(dir), a) == socket_file(Some(dir), b),
        named_parts(socket_file(Some(dir), a)) == named_parts(written(dir)) + seq![
            written("baywatch"@),
            written("baywatch.sock"@),
        ],
        named_parts(socket_file(None, a)) == named_parts(
            written("/tmp/baywatch-"@ + decimal(a as nat)),
        ) + seq![written("baywatch.sock"@)],
{
    lemma_plain("baywatch"@);
    lemma_plain("baywatch.sock"@);
    law_join_path(written(dir), written("baywatch"@));
    law_join_path(
        path_join(written(dir), written("baywatch"@)),
        written("baywatch.sock"@),
    );
    law_join_path(written("/tmp/baywatch-"@ + decimal(a as nat)), written("baywatch.sock"@));
}

/// The daemon listens on the address and the port that are configured: the text starts with the
/// address, and what follows the colon is the port. So other ports are other texts.
pub proof fn law_listen_address(bind: Seq<char>, a: u16, b: u16)
    ensures
        listen_text(bind, a).take(bind.len() as int) == bind,
        listen_text(bind, a)[bind.len() as int] == ':',
        number(listen_text(bind, a).skip(bind.len() as int + 1)) == a,
        listen_text(bind, a) == listen_text(bind, b) ==> a == b,
{
    reveal_strlit(":");
    law_decimal(a as nat);
    law_decimal(b as nat);
    let x = listen_text(bind, a);
    let y = listen_text(bind, b);
    assert(x.take(bind.len() as int) =~= bind);
    assert(x.skip(bind.len() as int + 1) =~= decimal(a as nat));
    assert(y.skip(bind.len() as int + 1) =~= decimal(b as nat));
    if x == y {
        law_numbers_are_told_apart(a as nat, b as nat);
    }
}

/// Two services are configured alike exactly where the port, the command, the environment and the
/// idle timeout are the same, and the directories are the same path. The order in which they are
/// compared does not matter.
pub proof fn law_same_config(a: ServiceConfigView, b: ServiceConfigView)
    ensures
        same_config(a, b) ==> a.port == b.port,
        same_config(a, b) ==> a.command == b.command,
        same_config(a, b) ==> a.env == b.env,
        same_config(a, b) ==> a.idle_timeout == b.idle_timeout,
        same_config(a, b) ==> same_path(a.pwd, b.pwd),
        same_config(a, a),
        same_config(a, b) == same_config(b, a),
        a.port == b.port && a.command == b.command && a.env == b.env && a.idle_timeout
            == b.idle_timeout && same_path(a.pwd, b.pwd) ==> same_config(a, b),
{
}

} // verus!
