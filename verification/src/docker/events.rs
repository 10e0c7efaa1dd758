//! Turning Docker container events into project status changes and event-log entries.
use vstd::prelude::*;
use vstd::string::*;
use vstd::utf8::*;

use crate::podman::events::{
    event_entry, event_entry_text, event_scope, normalize_template_spec, normalize_template_value,
    reports_runtime, reports_runtime_spec, runtime_entry,
};
use crate::podman::inspect::{normalize_runtime_spec, normalize_runtime_value};
use crate::service::{lemma_boundary_after_ascii, lemma_newline_from, lemma_utf8_concat, newline_from, utf8};
use crate::status::Status;
use crate::text::{
    contains_text, strings_view, join, join_words, owned, piece, piece_at, splitn, splitn_spec, str_eq, trim, trim_spec, words,
};

pub use crate::listener::EventListenerHandle;
pub use crate::podman::events::{apply_status_update, opt_view, status_update_spec};

verus! {

broadcast use vstd::utf8::group_utf8_lib;

/// Byte limit of a project's event log.
pub const MAX_EVENT_LOG_SIZE: usize = 102400;

/// The words of `value` joined by ", " (`split_whitespace` then `join(", ")`).
pub fn normalize_whitespace(value: &str) -> (r: String)
    ensures
        r@ == join(words(value@), ", "@),
{
    let sep = ", ";
    proof {
        reveal_strlit(", ");
    }
    join_words(value, sep)
}

/// How many bytes of the log `b` are dropped before an entry of `entry_len` bytes is
/// appended: none while the two fit; else up to and including the first newline at or
/// after the point that leaves half the limit, or none where there is no such newline.
pub open spec fn drop_count(b: Seq<u8>, entry_len: nat) -> int {
    if b.len() + entry_len > MAX_EVENT_LOG_SIZE {
        let tp = if b.len() > MAX_EVENT_LOG_SIZE / 2 {
            b.len() - MAX_EVENT_LOG_SIZE / 2
        } else {
            0
        };
        if tp > 0 && newline_from(b, tp) < b.len() {
            newline_from(b, tp) + 1
        } else {
            0
        }
    } else {
        0
    }
}

/// Whether dropping bytes before an entry of `entry_len` bytes starts the search on a
/// character boundary; where it does not, the search would split a character.
pub open spec fn drop_on_boundary(b: Seq<u8>, entry_len: nat) -> bool {
    b.len() + entry_len > MAX_EVENT_LOG_SIZE && b.len() > MAX_EVENT_LOG_SIZE / 2 ==> is_char_boundary(
        b,
        b.len() - MAX_EVENT_LOG_SIZE / 2,
    )
}

/// The log after appending `entry` to `log`.
pub open spec fn appended_log(log: Seq<char>, entry: Seq<char>) -> Seq<char> {
    let b = utf8(log);
    decode_utf8(b.subrange(drop_count(b, utf8(entry).len()), b.len() as int)) + entry
}

/// Appends the event-log line for `action`, scoped to the container where one is named,
/// first dropping the oldest lines where the log would outgrow its limit.
pub fn append_event_log_entry(logs: &mut String, project: &str, container_name: &str, action: &str)
    requires
        drop_on_boundary(
            utf8(old(logs)@),
            utf8(event_entry(event_scope(project@, container_name@), action@)).len(),
        ),
    ensures
        final(logs)@ == appended_log(
            old(logs)@,
            event_entry(event_scope(project@, container_name@), action@),
        ),
{
    let entry = event_entry_text(project, container_name, action);
    let es = entry.as_str();
    let entry_len = es.as_bytes().len();
    let st = logs.as_str();
    let bytes = st.as_bytes();
    let len = bytes.len();
    let ghost b = utf8(logs@);
    proof {
        assert(st.spec_bytes() == b);
        encode_utf8_valid_utf8(logs@);
        assert(es.spec_bytes() == utf8(entry@));
    }
    let mut drop: usize = 0;
    if len as u128 + entry_len as u128 > MAX_EVENT_LOG_SIZE as u128 {
        let tp = len.saturating_sub(MAX_EVENT_LOG_SIZE / 2);
        if tp > 0 {
            let mut p = tp;
            while p < len && bytes[p] != 10u8
                invariant
                    tp <= p <= len,
                    len == b.len(),
                    bytes@ == b,
                    newline_from(b, tp as int) == newline_from(b, p as int),
                decreases len - p,
            {
                p = p + 1;
            }
            proof {
                lemma_newline_from(b, p as int);
            }
            if p < len {
                drop = p + 1;
            }
        }
    }
    assert(drop == drop_count(b, utf8(entry@).len()));
    proof {
        if drop > 0 {
            lemma_boundary_after_ascii(b, drop - 1);
        } else {
            is_char_boundary_start_end_of_seq(b);
        }
    }
    let (_, rest) = st.split_at(drop);
    let mut kept = rest.to_owned();
    proof {
        assert(rest.spec_bytes() == utf8(rest@));
        valid_utf8_split(b, drop as int);
        decode_utf8_encode_utf8(b.subrange(drop as int, b.len() as int));
        encode_utf8_decode_utf8(rest@);
    }
    kept.append(entry.as_str());
    *logs = kept;
}

/// Whether [`append_event_log_entry`] can record the entry (see [`drop_on_boundary`]).
pub fn can_append_event(logs: &String, project: &str, container_name: &str, action: &str) -> (b: bool)
    ensures
        b == drop_on_boundary(
            utf8(logs@),
            utf8(event_entry(event_scope(project@, container_name@), action@)).len(),
        ),
{
    let entry = event_entry_text(project, container_name, action);
    let es = entry.as_str();
    let entry_len = es.as_bytes().len();
    let st = logs.as_str();
    let len = st.as_bytes().len();
    proof {
        assert(st.spec_bytes() == utf8(logs@));
        assert(es.spec_bytes() == utf8(entry@));
    }
    if len as u128 + entry_len as u128 > MAX_EVENT_LOG_SIZE as u128 && len > MAX_EVENT_LOG_SIZE / 2 {
        st.is_char_boundary(len - MAX_EVENT_LOG_SIZE / 2)
    } else {
        true
    }
}

/// Appends an event about the project as a whole.
pub fn append_project_event(logs: &mut String, project: &str, action: &str)
    requires
        drop_on_boundary(utf8(old(logs)@), utf8(event_entry(project@, action@)).len()),
    ensures
        final(logs)@ == appended_log(old(logs)@, event_entry(project@, action@)),
{
    let empty = "";
    proof {
        reveal_strlit("");
    }
    append_event_log_entry(logs, project, empty, action);
}

/// The runtime details of a container, given what inspecting its networks and its ports
/// printed (`None` where an inspection failed or printed nothing).
pub open spec fn runtime_values_spec(ips: Option<Seq<char>>, ports: Option<Seq<char>>) -> (
    Seq<char>,
    Seq<char>,
) {
    let i = match ips {
        Some(v) => v,
        None => "unknown"@,
    };
    let p = match ports {
        Some(v) => v,
        None => "none"@,
    };
    (normalize_runtime_spec(i, "pending"@), normalize_runtime_spec(p, "none"@))
}

/// Appends the runtime line of a named container; an unnamed one adds nothing. The line
/// is appended as it is, without dropping old lines.
pub fn append_runtime_details(
    logs: &mut String,
    container_name: &str,
    ips: Option<&str>,
    ports: Option<&str>,
)
    ensures
        container_name@.len() == 0 ==> final(logs)@ == old(logs)@,
        container_name@.len() > 0 ==> final(logs)@ == old(logs)@ + runtime_entry(
            container_name@,
            runtime_values_spec(opt_str(ips), opt_str(ports)).0,
            runtime_values_spec(opt_str(ips), opt_str(ports)).1,
        ),
{
    if container_name.is_empty() {
        return;
    }
    let unknown = "unknown";
    let none = "none";
    let pending = "pending";
    proof {
        reveal_strlit("unknown");
        reveal_strlit("none");
        reveal_strlit("pending");
    }
    let i = match ips {
        Some(v) => v,
        None => unknown,
    };
    let p = match ports {
        Some(v) => v,
        None => none,
    };
    let i = normalize_runtime_value(i, pending);
    let p = normalize_runtime_value(p, none);
    let mut line = owned("[event] ");
    line.append(container_name);
    line.append(" runtime ips=[");
    line.append(i.as_str());
    line.append("] ports=[");
    line.append(p.as_str());
    line.append("]\n");
    logs.append(line.as_str());
}


/// The plain values of a list of containers with what inspecting their networks and
/// ports printed.
pub open spec fn containers_view(c: Seq<(String, Option<String>, Option<String>)>) -> Seq<
    (Seq<char>, Option<Seq<char>>, Option<Seq<char>>),
> {
    c.map_values(
        |e: (String, Option<String>, Option<String>)| (e.0@, opt_view(e.1), opt_view(e.2)),
    )
}

/// The log after the lines for `containers` have been appended to `log`: for each, its
/// snapshot event where `with_event` holds, then its runtime line.
pub open spec fn snapshot_log(
    log: Seq<char>,
    project: Seq<char>,
    containers: Seq<(Seq<char>, Option<Seq<char>>, Option<Seq<char>>)>,
    with_event: bool,
) -> Seq<char>
    decreases containers.len(),
{
    if containers.len() == 0 {
        log
    } else {
        let (name, ips, ports) = containers.last();
        let before = snapshot_log(log, project, containers.drop_last(), with_event);
        let after_event = if with_event {
            appended_log(before, event_entry(event_scope(project, name), "running (snapshot)"@))
        } else {
            before
        };
        if name.len() == 0 {
            after_event
        } else {
            after_event + runtime_entry(
                name,
                runtime_values_spec(ips, ports).0,
                runtime_values_spec(ips, ports).1,
            )
        }
    }
}

/// Whether every append of [`snapshot_log`] is defined.
pub open spec fn snapshot_accepted(
    log: Seq<char>,
    project: Seq<char>,
    containers: Seq<(Seq<char>, Option<Seq<char>>, Option<Seq<char>>)>,
    with_event: bool,
) -> bool
    decreases containers.len(),
{
    if containers.len() == 0 {
        true
    } else {
        let (name, ips, ports) = containers.last();
        let before = snapshot_log(log, project, containers.drop_last(), with_event);
        &&& snapshot_accepted(log, project, containers.drop_last(), with_event)
        &&& (with_event ==> drop_on_boundary(
            utf8(before),
            utf8(event_entry(event_scope(project, name), "running (snapshot)"@)).len(),
        ))
    }
}

proof fn lemma_snapshot_accepted_prefix(
    log: Seq<char>,
    project: Seq<char>,
    all: Seq<(Seq<char>, Option<Seq<char>>, Option<Seq<char>>)>,
    k: int,
    with_event: bool,
)
    requires
        0 <= k <= all.len(),
        snapshot_accepted(log, project, all, with_event),
    ensures
        snapshot_accepted(log, project, all.take(k), with_event),
    decreases all.len() - k,
{
    if k < all.len() {
        lemma_snapshot_accepted_prefix(log, project, all, k + 1, with_event);
        assert(all.take(k + 1).drop_last() =~= all.take(k));
    } else {
        assert(all.take(k) =~= all);
    }
}

fn append_containers(
    logs: &mut String,
    project: &str,
    containers: &Vec<(String, Option<String>, Option<String>)>,
    with_event: bool,
)
    requires
        snapshot_accepted(old(logs)@, project@, containers_view(containers@), with_event),
    ensures
        final(logs)@ == snapshot_log(old(logs)@, project@, containers_view(containers@), with_event),
{
    let snapshot = "running (snapshot)";
    proof {
        reveal_strlit("running (snapshot)");
    }
    let ghost start = logs@;
    let ghost all = containers_view(containers@);
    let mut i: usize = 0;
    while i < containers.len()
        invariant
            i <= containers.len(),
            snapshot@ == "running (snapshot)"@,
            all == containers_view(containers@),
            snapshot_accepted(start, project@, all, with_event),
            logs@ == snapshot_log(start, project@, all.take(i as int), with_event),
        decreases containers.len() - i,
    {
        let ghost pre = all.take(i as int);
        let ghost cur = all.take(i + 1);
        proof {
            assert(cur.drop_last() =~= pre);
            assert(cur.last() == all[i as int]);
            lemma_snapshot_accepted_prefix(start, project@, all, (i + 1) as int, with_event);
            assert(snapshot_accepted(start, project@, cur, with_event));
        }
        let name = containers[i].0.as_str();
        let ips = match &containers[i].1 {
            Some(v) => Some(v.as_str()),
            None => None,
        };
        let ports = match &containers[i].2 {
            Some(v) => Some(v.as_str()),
            None => None,
        };
        assert(all[i as int] == (name@, opt_str(ips), opt_str(ports)));
        if with_event {
            append_event_log_entry(logs, project, name, snapshot);
        }
        append_runtime_details(logs, name, ips, ports);
        assert(logs@ == snapshot_log(start, project@, cur, with_event));
        i = i + 1;
    }
    assert(all.take(containers.len() as int) =~= all);
}

/// Appends, for each running container of `project` (with what inspecting it printed),
/// a snapshot event and its runtime line.
pub fn append_running_snapshot(
    logs: &mut String,
    project: &str,
    containers: &Vec<(String, Option<String>, Option<String>)>,
)
    requires
        snapshot_accepted(old(logs)@, project@, containers_view(containers@), true),
    ensures
        final(logs)@ == snapshot_log(old(logs)@, project@, containers_view(containers@), true),
{
    append_containers(logs, project, containers, true);
}

/// Appends the runtime line of each running container of `project`.
pub fn append_project_runtime_details(
    logs: &mut String,
    project: &str,
    containers: &Vec<(String, Option<String>, Option<String>)>,
)
    ensures
        final(logs)@ == snapshot_log(old(logs)@, project@, containers_view(containers@), false),
{
    proof {
        lemma_no_event_accepted(old(logs)@, project@, containers_view(containers@));
    }
    append_containers(logs, project, containers, false);
}

proof fn lemma_no_event_accepted(
    log: Seq<char>,
    project: Seq<char>,
    all: Seq<(Seq<char>, Option<Seq<char>>, Option<Seq<char>>)>,
)
    ensures
        snapshot_accepted(log, project, all, false),
    decreases all.len(),
{
    if all.len() > 0 {
        lemma_no_event_accepted(log, project, all.drop_last());
    }
}

/// The text of an optional string slice, as a value.
pub open spec fn opt_str(o: Option<&str>) -> Option<Seq<char>> {
    match o {
        Some(s) => Some(s@),
        None => None,
    }
}

/// One line of `docker events` output.
pub struct EventLine {
    pub action: String,
    pub project: String,
    pub container_name: String,
    pub exit_code: String,
}

/// The fields of an event line: action, project label, container and exit code,
/// tab-separated, each trimmed.
pub open spec fn event_fields(line: Seq<char>) -> (Seq<char>, Seq<char>, Seq<char>, Seq<char>) {
    let parts = splitn_spec(line, 4, '\t');
    (
        trim_spec(piece(parts, 0)),
        normalize_template_spec(trim_spec(piece(parts, 1))),
        trim_spec(piece(parts, 2)),
        trim_spec(piece(parts, 3)),
    )
}

pub fn parse_event_line(line: &str) -> (r: EventLine)
    ensures
        (r.action@, r.project@, r.container_name@, r.exit_code@) == event_fields(line@),
{
    let parts = splitn(line, 4, '\t');
    let action = trim(piece_at(&parts, 0));
    let project = normalize_template_value(trim(piece_at(&parts, 1)));
    let container_name = trim(piece_at(&parts, 2));
    let exit_code = trim(piece_at(&parts, 3));
    EventLine {
        action: owned(action),
        project,
        container_name: owned(container_name),
        exit_code: owned(exit_code),
    }
}

/// The status a Docker event moves a project to (`None`: the event leaves it as it is).
///
/// Creation, restart and unpause mean the project is starting; an exit ends in `Stopped`
/// when the project was being stopped, was already stopped or exited with code 0, and in
/// `Error` otherwise; a "healthy" health report means running and an "unhealthy" one an
/// error.
pub open spec fn next_status_spec(action: Seq<char>, current: Status, exit_code: Seq<char>) -> Option<
    Status,
> {
    if action == "create"@ || action == "restart"@ || action == "unpause"@ {
        Some(Status::Starting)
    } else if action == "start"@ {
        Some(Status::Running)
    } else if action == "stop"@ || action == "destroy"@ || action == "pause"@ {
        Some(Status::Stopped)
    } else if action == "die"@ || action == "kill"@ {
        if current == Status::Stopping || current == Status::Stopped || exit_code == "0"@ {
            Some(Status::Stopped)
        } else {
            Some(Status::Error)
        }
    } else if "health_status: "@.is_prefix_of(action) {
        if action == "health_status: healthy"@ {
            Some(Status::Running)
        } else if action == "health_status: unhealthy"@ {
            Some(Status::Error)
        } else {
            None
        }
    } else {
        None
    }
}

/// Law: when a container dies or is killed, the project stops where the exit was clean
/// (code `0`) or the project was being stopped or was already stopped, whatever else
/// holds; any other such exit is an error. A health report is running exactly when
/// healthy and an error exactly when unhealthy.
pub proof fn law_exit_outcomes(action: Seq<char>, current: Status, exit_code: Seq<char>)
    ensures
        (action == "die"@ || action == "kill"@) && exit_code == "0"@ ==> next_status_spec(
            action,
            current,
            exit_code,
        ) == Some(Status::Stopped),
        (action == "die"@ || action == "kill"@) && (current == Status::Stopping || current
            == Status::Stopped) ==> next_status_spec(action, current, exit_code) == Some(
            Status::Stopped,
        ),
        (action == "die"@ || action == "kill"@) && exit_code != "0"@ && current != Status::Stopping
            && current != Status::Stopped ==> next_status_spec(action, current, exit_code)
            == Some(Status::Error),
        next_status_spec("health_status: healthy"@, current, exit_code) == Some(Status::Running),
        next_status_spec("health_status: unhealthy"@, current, exit_code) == Some(Status::Error),
{
    reveal_strlit("create");
    reveal_strlit("restart");
    reveal_strlit("unpause");
    reveal_strlit("start");
    reveal_strlit("stop");
    reveal_strlit("destroy");
    reveal_strlit("pause");
    reveal_strlit("die");
    reveal_strlit("kill");
    reveal_strlit("0");
    reveal_strlit("health_status: ");
    reveal_strlit("health_status: healthy");
    reveal_strlit("health_status: unhealthy");
    assert("health_status: "@.is_prefix_of("health_status: healthy"@)) by {
        assert("health_status: healthy"@.take(15) =~= "health_status: "@);
    }
    assert("health_status: "@.is_prefix_of("health_status: unhealthy"@)) by {
        assert("health_status: unhealthy"@.take(15) =~= "health_status: "@);
    }
    if action == "die"@ {
        assert("die"@.len() != "create"@.len());
        assert("die"@.len() != "restart"@.len());
        assert("die"@.len() != "unpause"@.len());
        assert("die"@.len() != "start"@.len());
        assert("die"@.len() != "stop"@.len());
        assert("die"@.len() != "destroy"@.len());
        assert("die"@.len() != "pause"@.len());
    }
    if action == "kill"@ {
        assert("kill"@.len() != "create"@.len());
        assert("kill"@.len() != "restart"@.len());
        assert("kill"@.len() != "unpause"@.len());
        assert("kill"@.len() != "start"@.len());
        assert("kill"@[0] != "stop"@[0]);
        assert("kill"@.len() != "destroy"@.len());
        assert("kill"@.len() != "pause"@.len());
    }
}

pub fn next_status(action: &str, current: Status, exit_code: &str) -> (r: Option<Status>)
    ensures
        r == next_status_spec(action@, current, exit_code@),
{
    proof {
        reveal_strlit("create");
        reveal_strlit("restart");
        reveal_strlit("unpause");
        reveal_strlit("start");
        reveal_strlit("stop");
        reveal_strlit("destroy");
        reveal_strlit("pause");
        reveal_strlit("die");
        reveal_strlit("kill");
        reveal_strlit("0");
        reveal_strlit("health_status: ");
        reveal_strlit("health_status: healthy");
        reveal_strlit("health_status: unhealthy");
    }
    if str_eq(action, "create") || str_eq(action, "restart") || str_eq(action, "unpause") {
        Some(Status::Starting)
    } else if str_eq(action, "start") {
        Some(Status::Running)
    } else if str_eq(action, "stop") || str_eq(action, "destroy") || str_eq(action, "pause") {
        Some(Status::Stopped)
    } else if str_eq(action, "die") || str_eq(action, "kill") {
        if current == Status::Stopping || current == Status::Stopped || str_eq(exit_code, "0") {
            Some(Status::Stopped)
        } else {
            Some(Status::Error)
        }
    } else if crate::text::starts_with_str(action, "health_status: ") {
        if str_eq(action, "health_status: healthy") {
            Some(Status::Running)
        } else if str_eq(action, "health_status: unhealthy") {
            Some(Status::Error)
        } else {
            None
        }
    } else {
        None
    }
}

/// Records an event on the project it belongs to: logs it, then, for a container that
/// has come up, its runtime line, then moves the status on.
pub fn handle_event_line(
    ev: &EventLine,
    project: &str,
    events: &mut String,
    status: &mut Status,
    pull_progress: &mut Option<String>,
    ips: Option<&str>,
    ports: Option<&str>,
)
    requires
        ev.action@.len() > 0 && project@.len() > 0 ==> drop_on_boundary(
            utf8(old(events)@),
            utf8(event_entry(event_scope(project@, ev.container_name@), ev.action@)).len(),
        ),
    ensures
        ev.action@.len() == 0 || project@.len() == 0 ==> final(events)@ == old(events)@
            && *final(status) == *old(status) && *final(pull_progress) == *old(pull_progress),
        ev.action@.len() > 0 && project@.len() > 0 ==> final(events)@ == ({
            let logged = appended_log(
                old(events)@,
                event_entry(event_scope(project@, ev.container_name@), ev.action@),
            );
            if reports_runtime_spec(ev.action@) && ev.container_name@.len() > 0 {
                logged + runtime_entry(
                    ev.container_name@,
                    runtime_values_spec(opt_str(ips), opt_str(ports)).0,
                    runtime_values_spec(opt_str(ips), opt_str(ports)).1,
                )
            } else {
                logged
            }
        }),
        ev.action@.len() > 0 && project@.len() > 0 ==> (
        *final(status),
        opt_view(*final(pull_progress)),
        ) == status_update_spec(
            *old(status),
            opt_view(*old(pull_progress)),
            next_status_spec(ev.action@, *old(status), ev.exit_code@),
        ),
{
    if ev.action.as_str().is_empty() || project.is_empty() {
        return;
    }
    let action = ev.action.as_str();
    let container_name = ev.container_name.as_str();
    append_event_log_entry(events, project, container_name, action);
    if reports_runtime(action) {
        append_runtime_details(events, container_name, ips, ports);
    }
    let next = next_status(action, *status, ev.exit_code.as_str());
    apply_status_update(status, pull_progress, next);
}

/// The project of a container that the event does not label: none for an unnamed
/// container, else the compose project label that inspecting it gave.
pub fn resolve_project_from_container(container_name: &str, inspected: Option<String>) -> (r: Option<
    String,
>)
    ensures
        container_name@.len() == 0 ==> r is None,
        container_name@.len() > 0 ==> r == inspected,
{
    if container_name.is_empty() {
        return None;
    }
    inspected
}

/// The watched project a Docker event goes to: the project its label names, else the one
/// its container's inspected label names; none for an event without an action, or whose
/// project is unknown or not watched.
pub open spec fn event_project_spec(
    action: Seq<char>,
    labelled: Seq<char>,
    container_name: Seq<char>,
    inspected: Option<Seq<char>>,
    watched: Seq<Seq<char>>,
) -> Option<Seq<char>> {
    let p = if labelled.len() > 0 {
        labelled
    } else if container_name.len() == 0 {
        Seq::<char>::empty()
    } else {
        match inspected {
            Some(r) => r,
            None => Seq::<char>::empty(),
        }
    };
    if action.len() == 0 || p.len() == 0 || !watched.contains(p) {
        None
    } else {
        Some(p)
    }
}

/// Whether the event's container has to be inspected to learn its project: the event has
/// an action and names a container but no project.
pub fn needs_inspection(ev: &EventLine) -> (b: bool)
    ensures
        b == (ev.action@.len() > 0 && ev.project@.len() == 0 && ev.container_name@.len() > 0),
{
    !ev.action.as_str().is_empty() && ev.project.as_str().is_empty() && !ev.container_name.as_str().is_empty()
}

/// The watched project a Docker event goes to, given what inspecting its container gave.
pub fn event_project(ev: &EventLine, inspected: Option<String>, watched: &Vec<String>) -> (r: Option<
    String,
>)
    ensures
        opt_view(r) == event_project_spec(
            ev.action@,
            ev.project@,
            ev.container_name@,
            opt_view(inspected),
            strings_view(watched@),
        ),
{
    if ev.action.as_str().is_empty() {
        return None;
    }
    let project = if !ev.project.as_str().is_empty() {
        ev.project.clone()
    } else {
        match resolve_project_from_container(ev.container_name.as_str(), inspected) {
            Some(p) => p,
            None => String::new(),
        }
    };
    if project.as_str().is_empty() || !contains_text(watched, project.as_str()) {
        None
    } else {
        Some(project)
    }
}

} // verus!
