# baywatch

A daemon that runs web services on demand and proxies requests to them, with its rules verified in
Verus. A service is started by the first request for `<name>.<domain>`, and stopped after it has
been idle for its configured time.

- `src/` is the library: every decision of the daemon, with its contract. It starts no process,
  opens no socket and reads no clock; it says what is to be done and takes what came of it.
  - `config` defaults and the places of files; `paths`, `text` and `names` what it is written with
  - `service` the services and their states; `startup` a request followed until its service is ready
  - `reload` taking over a changed configuration file
  - `routing` which service a request is for; `proxy` how it is passed on and answered
  - `control` the control socket
  - `laws` what holds of all of this together
- `app/` is the daemon around it: processes, sockets, signals, the file watcher, the command line.
- `tests/` runs the library, with the outside crates that it calls.
