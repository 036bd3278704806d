//! The control socket: what clients send over it, and what they are answered.
//!
//! A client sends one line, `<command> <service>`. The daemon answers `OK`, after which it streams
//! the log where the command is `tail`, or a line that starts with `ERR: `, and closes.
use vstd::prelude::*;
use vstd::string::*;

use crate::service::{halted, plan_of, ManagerView, ServiceManager, StopPlan};
use crate::text::{concat2, concat3, concat4, same_text, split_at_mark, split_once, trim, trimmed};

verus! {

/// How many lines of the log of a service are kept for a client that is slow to read them.
pub const LOG_CAPACITY: usize = 256;

/// What a client can ask for.
#[derive(Debug, Clone, Copy, PartialEq, Eq, Structural)]
pub enum Command {
    /// The log of a service.
    Tail,
    /// That a service is stopped, to be started again with the next request.
    Restart,
}

/// The word for a command.
pub open spec fn word(command: Command) -> Seq<char> {
    match command {
        Command::Tail => "tail"@,
        Command::Restart => "restart"@,
    }
}

// ---------------------------------------------------------------- the client

/// The line that asks for `command` on `service`.
pub open spec fn request(command: Command, service: Seq<char>) -> Seq<char> {
    word(command) + " "@ + service + "\n"@
}

/// The line that asks for `command` on `service`.
pub fn request_line(command: Command, service: &str) -> (r: String)
    ensures
        r@ == request(command, service@),
{
    match command {
        Command::Tail => concat4("tail", " ", service, "\n"),
        Command::Restart => concat4("restart", " ", service, "\n"),
    }
}

/// What a client is told where the daemon cannot be reached.
pub open spec fn connect_text(path: Seq<char>, error: Seq<char>) -> Seq<char> {
    "Could not connect to baywatch daemon ("@ + path + "): "@ + error
}

/// What the first line of the answer tells the client.
pub open spec fn reply_of(line: Option<Seq<char>>) -> Result<(), Seq<char>> {
    match line {
        Some(l) => if l == "OK"@ {
            Ok(())
        } else {
            Err(l)
        },
        None => Err("Connection closed by daemon"@),
    }
}

/// What a client is told that asked for a restart.
pub open spec fn restart_text(service: Seq<char>) -> Seq<char> {
    "Service '"@ + service + "' stopped (will restart on next request)"@
}

/// What a client is told where the daemon cannot be reached.
pub fn connect_failed(path: &str, error: &str) -> (r: String)
    ensures
        r@ == "Could not connect to baywatch daemon ("@ + path@ + "): "@ + error@,
        r@ == connect_text(path@, error@),
{
    concat4("Could not connect to baywatch daemon (", path, "): ", error)
}

/// Whether the daemon did what was asked, by the first line of its answer, and else what the
/// client is told. There is no line where the connection was closed.
pub fn read_reply(line: Option<&str>) -> (r: Result<(), String>)
    ensures
        match line {
            Some(l) => if l@ == "OK"@ {
                r is Ok
            } else {
                r matches Err(e) && e@ == l@
            },
            None => r matches Err(e) && e@ == "Connection closed by daemon"@,
        },
        match r {
            Ok(_) => reply_of(crate::config::opt_str(line)) == Ok::<(), Seq<char>>(()),
            Err(e) => reply_of(crate::config::opt_str(line)) == Err::<(), Seq<char>>(e@),
        },
{
    match line {
        Some(l) => if same_text(l, "OK") {
            Ok(())
        } else {
            Err(l.to_owned())
        },
        None => Err("Connection closed by daemon".to_owned()),
    }
}

/// What a client is told that asked for a restart, once the service was stopped.
pub fn restart_message(service: &str) -> (r: String)
    ensures
        r@ == "Service '"@ + service@ + "' stopped (will restart on next request)"@,
        r@ == restart_text(service@),
{
    concat3("Service '", service, "' stopped (will restart on next request)")
}

// ---------------------------------------------------------------- the daemon

/// What a client asked for.
#[derive(Debug)]
pub struct ControlRequest {
    pub command: Command,
    pub service: String,
}

/// What the line of a client asks for, or the answer to a line that asks for nothing.
pub open spec fn requested(line: Seq<char>) -> Result<(Command, Seq<char>), Seq<char>> {
    match split_at_mark(trimmed(line), ' ') {
        Some((command, rest)) => {
            let service = trimmed(rest);
            if service.len() == 0 {
                Err("ERR: missing service name\n"@)
            } else if command == word(Command::Tail) {
                Ok((Command::Tail, service))
            } else if command == word(Command::Restart) {
                Ok((Command::Restart, service))
            } else {
                Err("ERR: unknown command '"@ + command + "'\n"@)
            }
        },
        None => Err("ERR: expected '<command> <service>'\n"@),
    }
}

/// Takes apart the line of a client. Fails with the answer to a line that asks for nothing.
pub fn parse_request(line: &str) -> (r: Result<ControlRequest, String>)
    ensures
        match r {
            Ok(q) => requested(line@) == Ok::<(Command, Seq<char>), Seq<char>>(
                (q.command, q.service@),
            ),
            Err(answer) => requested(line@) == Err::<(Command, Seq<char>), Seq<char>>(answer@),
        },
{
    match split_once(trim(line), ' ') {
        Some((command, rest)) => {
            let service = trim(rest);
            proof {
                reveal_strlit("");
                if service@.len() == 0 {
                    assert(service@ =~= ""@);
                }
            }
            if same_text(service, "") {
                Err("ERR: missing service name\n".to_owned())
            } else if same_text(command, "tail") {
                Ok(ControlRequest { command: Command::Tail, service: service.to_owned() })
            } else if same_text(command, "restart") {
                Ok(ControlRequest { command: Command::Restart, service: service.to_owned() })
            } else {
                Err(concat3("ERR: unknown command '", command, "'\n"))
            }
        },
        None => Err("ERR: expected '<command> <service>'\n".to_owned()),
    }
}

/// The answer where there is no service of that name.
pub open spec fn unknown_answer(service: Seq<char>) -> Seq<char> {
    "ERR: unknown service '"@ + service + "'\n"@
}

/// What the daemon does for a client.
#[derive(Debug)]
pub enum ControlStep {
    /// Send this, and close.
    Answer(String),
    /// Send this, then what comes over the log channel of that number.
    Stream { answer: String, channel: u64 },
    /// End the process of a service as planned, if there is something to do, send this, and close.
    Stop { answer: String, service: String, plan: Option<StopPlan> },
}

/// Whether `step` is what is done for a client that asks for `command` on `service`.
pub open spec fn serves(
    m: ManagerView,
    command: Command,
    service: Seq<char>,
    step: ControlStep,
) -> bool {
    if !m.has(service) {
        step matches ControlStep::Answer(answer) && answer@ == unknown_answer(service)
    } else {
        match command {
            Command::Tail => {
                &&& step matches ControlStep::Stream { answer, channel }
                &&& answer@ == "OK\n"@
                &&& channel == m.services[service].id
            },
            Command::Restart => {
                &&& step matches ControlStep::Stop { answer, service: stopped, plan }
                &&& answer@ == "OK\n"@
                &&& stopped@ == service
                &&& plan == plan_of(m.services[service], m.shutdown_grace)
            },
        }
    }
}

/// The services after a client asked for `command` on `service`.
pub open spec fn served(m: ManagerView, command: Command, service: Seq<char>) -> ManagerView {
    if m.has(service) && command == Command::Restart {
        m.set_service(service, halted(m.services[service]))
    } else {
        m
    }
}

/// What is done for a client that asks for the log of a service.
pub fn handle_tail(service_name: &str, manager: &ServiceManager) -> (r: ControlStep)
    ensures
        if manager@.has(service_name@) {
            r matches ControlStep::Stream { answer, channel } && answer@ == "OK\n"@ && channel
                == manager@.services[service_name@].id
        } else {
            r matches ControlStep::Answer(answer) && answer@ == unknown_answer(service_name@)
        },
        serves(manager@, Command::Tail, service_name@, r),
{
    match manager.subscribe_logs(service_name) {
        Some(channel) => ControlStep::Stream { answer: "OK\n".to_owned(), channel },
        None => ControlStep::Answer(concat3("ERR: unknown service '", service_name, "'\n")),
    }
}

/// What is done for a client that asks for a restart: the service is stopped.
pub fn handle_restart(service_name: &str, manager: &mut ServiceManager) -> (r: ControlStep)
    ensures
        final(manager)@.wf(),
        if old(manager)@.has(service_name@) {
            &&& final(manager)@ == old(manager)@.set_service(
                service_name@,
                halted(old(manager)@.services[service_name@]),
            )
            &&& r matches ControlStep::Stop { answer, service, plan }
            &&& answer@ == "OK\n"@
            &&& service@ == service_name@
            &&& plan == plan_of(
                old(manager)@.services[service_name@],
                old(manager)@.shutdown_grace,
            )
        } else {
            &&& final(manager)@ == old(manager)@
            &&& r matches ControlStep::Answer(answer)
            &&& answer@ == unknown_answer(service_name@)
        },
        serves(old(manager)@, Command::Restart, service_name@, r),
        final(manager)@ == served(old(manager)@, Command::Restart, service_name@),
{
    let known: bool = manager.has_service(service_name);
    let plan = manager.stop_service(service_name);
    if known {
        ControlStep::Stop { answer: "OK\n".to_owned(), service: service_name.to_owned(), plan }
    } else {
        ControlStep::Answer(concat3("ERR: unknown service '", service_name, "'\n"))
    }
}

/// What is done for a client that sent `line`.
pub fn handle_control_client(line: &str, manager: &mut ServiceManager) -> (r: ControlStep)
    ensures
        match requested(line@) {
            Ok((command, service)) => if !old(manager)@.has(service) {
                &&& final(manager)@ == old(manager)@
                &&& r matches ControlStep::Answer(answer)
                &&& answer@ == unknown_answer(service)
            } else {
                match command {
                    Command::Tail => {
                        &&& final(manager)@ == old(manager)@
                        &&& r matches ControlStep::Stream { answer, channel }
                        &&& answer@ == "OK\n"@
                        &&& channel == old(manager)@.services[service].id
                    },
                    Command::Restart => {
                        &&& final(manager)@ == old(manager)@.set_service(
                            service,
                            halted(old(manager)@.services[service]),
                        )
                        &&& r matches ControlStep::Stop { answer, service: stopped, plan }
                        &&& answer@ == "OK\n"@
                        &&& stopped@ == service
                        &&& plan == plan_of(
                            old(manager)@.services[service],
                            old(manager)@.shutdown_grace,
                        )
                    },
                }
            },
            Err(text) => {
                &&& final(manager)@ == old(manager)@
                &&& r matches ControlStep::Answer(answer)
                &&& answer@ == text
            },
        },
        match requested(line@) {
            Ok((command, service)) => {
                &&& serves(old(manager)@, command, service, r)
                &&& final(manager)@ == served(old(manager)@, command, service)
            },
            Err(text) => final(manager)@ == old(manager)@,
        },
{
    match parse_request(line) {
        Ok(q) => match q.command {
            Command::Tail => handle_tail(q.service.as_str(), manager),
            Command::Restart => handle_restart(q.service.as_str(), manager),
        },
        Err(answer) => ControlStep::Answer(answer),
    }
}

/// What came over a log channel.
#[derive(Debug)]
pub enum LogEvent {
    /// A line.
    Line(String),
    /// Lines were lost, since they were not read in time.
    Lagged,
    /// Nothing more will come.
    Closed,
}

/// What a client that reads the log is sent.
#[derive(Debug)]
pub enum TailStep {
    /// Send this, and stop if that fails.
    Send(String),
    /// Send nothing, and go on.
    Skip,
    /// Stop.
    Stop,
}

/// What a client is sent for a line of the log.
pub open spec fn log_text(line: Seq<char>) -> Seq<char> {
    line + "\n"@
}

/// Whether `step` is what a client that reads the log is sent.
pub open spec fn tails(event: LogEvent, step: TailStep) -> bool {
    match event {
        LogEvent::Line(line) => step matches TailStep::Send(text) && text@ == log_text(line@),
        LogEvent::Lagged => step is Skip,
        LogEvent::Closed => step is Stop,
    }
}

/// What a client that reads the log is sent.
pub fn tail_step(event: LogEvent) -> (r: TailStep)
    ensures
        match event {
            LogEvent::Line(line) => r matches TailStep::Send(text) && text@ == line@ + "\n"@,
            LogEvent::Lagged => r is Skip,
            LogEvent::Closed => r is Stop,
        },
        tails(event, r),
{
    match event {
        LogEvent::Line(line) => TailStep::Send(concat2(line.as_str(), "\n")),
        LogEvent::Lagged => TailStep::Skip,
        LogEvent::Closed => TailStep::Stop,
    }
}

} // verus!
