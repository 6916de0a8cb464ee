# gezellij

Rules for keeping terminal sessions alive and in order, written in Rust and proved with Verus.

* `src/` is the library. Every function states in its contract what it returns or changes, and
  Verus proves it. Public proof functions named `law_...` state what holds across functions: a
  handover delivers exactly the descriptors that were sent, a session thawed by hand stays thawed,
  a prefix is read back from its text.
* `src/outside.rs` holds what is relied upon without proof: the hash function, the random number
  generator, the clock and the formatter.
* `tests/` runs the library on concrete values.
* `app/` is the part that talks to the operating system. It reads, asks the library what is to be
  done, and does it.

| Module | What it decides |
|---|---|
| `command` | what a pane runs, and whether it is run again |
| `services`, `service_commands` | definitions of services, their names and files, the `service` commands |
| `net`, `ipv6` | the loopback prefix and the address of every service |
| `cgroups`, `freeze_commands`, `auto_freeze` | control groups of panes, freezing and thawing |
| `handover` | what travels between two servers, and what is made of what arrives |
| `pty`, `fd_table` | terminals, their descriptors and their children |
| `client_activity` | who is idle, and who is parked |
| `upgrade`, `upgrade_commands` | replacing the binary under a running server |
| `text`, `path`, `time`, `sorting` | texts, paths, spans of time, stable sorting |
