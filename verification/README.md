# argv-podman-manager

A terminal manager for the Podman Compose projects under `containers/`: it lists the
projects with their status, starts and stops them, follows their container events and
live logs, controls the Podman API socket, and keeps a per-project auto-restart selection
with a systemd boot unit.

## Layout

- `src/` is the library, verified with Verus. Every function carries a contract over a
  mathematical model of its inputs and result:
  - `service.rs`: the size-limited log buffers and their revision counter;
  - `status.rs`: project statuses, how a refresh reconciles them, and a status table;
  - `podman/`, `docker/`: parsing of `ps`, `inspect` and `events` output, the event rules
    that move a project's status, the event log, compose project paths and commands, and
    the control of the API socket;
  - `auto_restart.rs`, `boot.rs`, `systemd.rs`, `cli.rs`, `config.rs`: the auto-restart
    selection and the files it is read from, the boot run (wait for the runtime, then
    start each selected project), the boot unit text and installer steps, the command
    line and key bindings;
  - `app/`: the start and stop flows, key handling, selection and timers, the render
    cache, pull progress, and the notices each action ends with;
  - `ui/`: the styled text of every pane (colours, titles, rows, progress bars) and the
    layout decisions;
  - `text.rs`: the string operations the rest is built from, each specified over
    `Seq<char>`.
- `app/` is the program around the library: the terminal and event loop (ratatui,
  crossterm, tokio), the processes it runs, file reading and writing (serde, toml,
  serde_yaml), and the floating-point percentage of a pull's size ratio.
- `tests/` runs the library on concrete values.

## Collections

The render cache keeps its entries in a `VecDeque`, as vstd specifies it. The project
status table is a vector of distinct names with their statuses, not a `HashMap` keyed by
`String`: Verus accepts calls on such a map but lets nothing be proved of what they
return, while the table's contracts (one entry per name, lookups by name) are proved.
