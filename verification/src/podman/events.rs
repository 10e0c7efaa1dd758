//! Turning Podman container events into project status changes and event-log entries.
use vstd::prelude::*;
use vstd::string::*;

use crate::podman::inspect::{first_label_from, project_name, ContainerRuntimeDetails};
use crate::service::{accepts_push, after_push, LogBuffer, LogBufferView};
use crate::status::Status;
use crate::text::{
    contains_text, strings_view, owned, parse_i64, split_spec, parse_i64_spec, split_once, split_once_spec, piece, piece_at, splitn, splitn_spec, starts_with_str, str_eq, trim, trim_spec,
};

pub use crate::listener::EventListenerHandle;

verus! {

/// The event-log line for `action` on `scope`.
pub open spec fn event_entry(scope: Seq<char>, action: Seq<char>) -> Seq<char> {
    "[event] "@ + scope + " "@ + action + "\n"@
}

/// The scope an event is logged under: the container where one is named, else the project.
pub open spec fn event_scope(project: Seq<char>, container_name: Seq<char>) -> Seq<char> {
    if container_name.len() == 0 {
        project
    } else {
        container_name
    }
}

/// The event-log line that reports a container's networks and ports.
pub open spec fn runtime_entry(container_name: Seq<char>, ips: Seq<char>, ports: Seq<char>) -> Seq<
    char,
> {
    "[event] "@ + container_name + " runtime ips=["@ + ips + "] ports=["@ + ports + "]\n"@
}

pub fn event_entry_text(project: &str, container_name: &str, action: &str) -> (r: String)
    ensures
        r@ == event_entry(event_scope(project@, container_name@), action@),
{
    let scope = if container_name.is_empty() {
        project
    } else {
        container_name
    };
    let prefix = "[event] ";
    let space = " ";
    let nl = "\n";
    proof {
        reveal_strlit("[event] ");
        reveal_strlit(" ");
        reveal_strlit("\n");
    }
    let mut r = owned(prefix);
    r.append(scope);
    r.append(space);
    r.append(action);
    r.append(nl);
    r
}

pub fn runtime_entry_text(container_name: &str, details: &ContainerRuntimeDetails) -> (r: String)
    ensures
        r@ == runtime_entry(container_name@, details.ips@, details.ports@),
{
    let a = "[event] ";
    let b = " runtime ips=[";
    let c = "] ports=[";
    let d = "]\n";
    proof {
        reveal_strlit("[event] ");
        reveal_strlit(" runtime ips=[");
        reveal_strlit("] ports=[");
        reveal_strlit("]\n");
    }
    let mut r = owned(a);
    r.append(container_name);
    r.append(b);
    r.append(details.ips.as_str());
    r.append(c);
    r.append(details.ports.as_str());
    r.append(d);
    r
}

/// Appends the event-log line for `action`, scoped to the container where one is named.
pub fn append_event_log_entry(
    logs: &mut LogBuffer,
    project: &str,
    container_name: &str,
    action: &str,
)
    requires
        old(logs).accepts(event_entry(event_scope(project@, container_name@), action@)),
    ensures
        final(logs)@ == after_push(
            old(logs)@,
            event_entry(event_scope(project@, container_name@), action@),
        ),
{
    let entry = event_entry_text(project, container_name, action);
    logs.push_str(entry.as_str());
}

/// Appends an event about the project as a whole.
pub fn append_project_event(logs: &mut LogBuffer, project: &str, action: &str)
    requires
        old(logs).accepts(event_entry(project@, action@)),
    ensures
        final(logs)@ == after_push(old(logs)@, event_entry(project@, action@)),
{
    let empty = "";
    proof {
        reveal_strlit("");
    }
    append_event_log_entry(logs, project, empty, action);
}

/// Appends the runtime line of a named container; an unnamed one adds nothing.
pub fn append_runtime_details(
    logs: &mut LogBuffer,
    container_name: &str,
    details: &ContainerRuntimeDetails,
)
    requires
        container_name@.len() > 0 ==> old(logs).accepts(
            runtime_entry(container_name@, details.ips@, details.ports@),
        ),
    ensures
        container_name@.len() == 0 ==> final(logs)@ == old(logs)@,
        container_name@.len() > 0 ==> final(logs)@ == after_push(
            old(logs)@,
            runtime_entry(container_name@, details.ips@, details.ports@),
        ),
{
    if container_name.is_empty() {
        return;
    }
    let line = runtime_entry_text(container_name, details);
    logs.push_str(line.as_str());
}

/// The log after the snapshot lines of `containers` (each a name with its runtime details)
/// have been appended to `v`, from index `i` on.
pub open spec fn snapshot_log(
    v: LogBufferView,
    project: Seq<char>,
    containers: Seq<(Seq<char>, Seq<char>, Seq<char>)>,
    with_event: bool,
) -> LogBufferView
    decreases containers.len(),
{
    if containers.len() == 0 {
        v
    } else {
        let (name, ips, ports) = containers.last();
        let before = snapshot_log(v, project, containers.drop_last(), with_event);
        let after_event = if with_event {
            after_push(before, event_entry(event_scope(project, name), "running (snapshot)"@))
        } else {
            before
        };
        if name.len() == 0 {
            after_event
        } else {
            after_push(after_event, runtime_entry(name, ips, ports))
        }
    }
}

/// Whether every push of [`snapshot_log`] is defined.
pub open spec fn snapshot_accepted(
    v: LogBufferView,
    project: Seq<char>,
    containers: Seq<(Seq<char>, Seq<char>, Seq<char>)>,
    with_event: bool,
) -> bool
    decreases containers.len(),
{
    if containers.len() == 0 {
        true
    } else {
        let (name, ips, ports) = containers.last();
        let before = snapshot_log(v, project, containers.drop_last(), with_event);
        let after_event = if with_event {
            after_push(before, event_entry(event_scope(project, name), "running (snapshot)"@))
        } else {
            before
        };
        &&& snapshot_accepted(v, project, containers.drop_last(), with_event)
        &&& (with_event ==> accepts_push(
            before,
            event_entry(event_scope(project, name), "running (snapshot)"@),
        ))
        &&& (name.len() > 0 ==> accepts_push(after_event, runtime_entry(name, ips, ports)))
    }
}

/// The plain values of a list of containers with their details.
pub open spec fn containers_view(containers: Seq<(String, ContainerRuntimeDetails)>) -> Seq<
    (Seq<char>, Seq<char>, Seq<char>),
> {
    containers.map_values(
        |c: (String, ContainerRuntimeDetails)| (c.0@, c.1.ips@, c.1.ports@),
    )
}

fn append_containers(
    logs: &mut LogBuffer,
    project: &str,
    containers: &Vec<(String, ContainerRuntimeDetails)>,
    with_event: bool,
)
    requires
        snapshot_accepted(old(logs)@, project@, containers_view(containers@), with_event),
    ensures
        final(logs)@ == snapshot_log(old(logs)@, project@, containers_view(containers@), with_event),
{
    let snapshot = "running (snapshot)";
    proof {
        reveal_strlit("running (snapshot)");
    }
    let ghost start = logs@;
    let ghost all = containers_view(containers@);
    let mut i: usize = 0;
    while i < containers.len()
        invariant
            i <= containers.len(),
            snapshot@ == "running (snapshot)"@,
            all == containers_view(containers@),
            snapshot_accepted(start, project@, all, with_event),
            logs@ == snapshot_log(start, project@, all.take(i as int), with_event),
        decreases containers.len() - i,
    {
        let ghost pre = all.take(i as int);
        let ghost cur = all.take(i + 1);
        proof {
            assert(cur.drop_last() =~= pre);
            assert(cur.last() == all[i as int]);
            lemma_snapshot_accepted_prefix(start, project@, all, (i + 1) as int, with_event);
            assert(snapshot_accepted(start, project@, cur, with_event));
        }
        let name = containers[i].0.as_str();
        let details = &containers[i].1;
        assert(all[i as int] == (name@, details.ips@, details.ports@));
        if with_event {
            append_event_log_entry(logs, project, name, snapshot);
        }
        append_runtime_details(logs, name, details);
        assert(logs@ == snapshot_log(start, project@, cur, with_event));
        i = i + 1;
    }
    assert(all.take(containers.len() as int) =~= all);
}

/// A prefix of an accepted snapshot is accepted.
pub proof fn lemma_snapshot_accepted_prefix(
    v: LogBufferView,
    project: Seq<char>,
    all: Seq<(Seq<char>, Seq<char>, Seq<char>)>,
    k: int,
    with_event: bool,
)
    requires
        0 <= k <= all.len(),
        snapshot_accepted(v, project, all, with_event),
    ensures
        snapshot_accepted(v, project, all.take(k), with_event),
    decreases all.len() - k,
{
    if k < all.len() {
        lemma_snapshot_accepted_prefix(v, project, all, k + 1, with_event);
        assert(all.take(k + 1).drop_last() =~= all.take(k));
    } else {
        assert(all.take(k) =~= all);
    }
}

/// Whether every push of a snapshot of `containers` onto `logs` is defined (see
/// [`LogBuffer::accepts`]).
pub fn can_append_snapshot(
    logs: &LogBuffer,
    project: &str,
    containers: &Vec<(String, ContainerRuntimeDetails)>,
    with_event: bool,
) -> (b: bool)
    ensures
        b == snapshot_accepted(logs@, project@, containers_view(containers@), with_event),
{
    let snapshot = "running (snapshot)";
    proof {
        reveal_strlit("running (snapshot)");
    }
    let ghost start = logs@;
    let ghost all = containers_view(containers@);
    let mut copy = logs.duplicate();
    let mut i: usize = 0;
    while i < containers.len()
        invariant
            i <= containers.len(),
            snapshot@ == "running (snapshot)"@,
            start == logs@,
            all == containers_view(containers@),
            snapshot_accepted(start, project@, all.take(i as int), with_event),
            copy@ == snapshot_log(start, project@, all.take(i as int), with_event),
        decreases containers.len() - i,
    {
        let ghost pre = all.take(i as int);
        let ghost cur = all.take(i + 1);
        proof {
            assert(cur.drop_last() =~= pre);
            assert(cur.last() == all[i as int]);
            if snapshot_accepted(start, project@, all, with_event) {
                lemma_snapshot_accepted_prefix(start, project@, all, (i + 1) as int, with_event);
            }
        }
        let name = containers[i].0.as_str();
        let details = &containers[i].1;
        assert(all[i as int] == (name@, details.ips@, details.ports@));
        if with_event {
            let entry = event_entry_text(project, name, snapshot);
            if !copy.can_push(entry.as_str()) {
                return false;
            }
            copy.push_str(entry.as_str());
        }
        if !name.is_empty() {
            let line = runtime_entry_text(name, details);
            if !copy.can_push(line.as_str()) {
                return false;
            }
            copy.push_str(line.as_str());
        }
        assert(copy@ == snapshot_log(start, project@, cur, with_event));
        i = i + 1;
    }
    assert(all.take(containers.len() as int) =~= all);
    true
}

/// Appends, for each running container of `project` (with the details inspecting it
/// gave), a snapshot event and its runtime line.
pub fn append_running_snapshot(
    logs: &mut LogBuffer,
    project: &str,
    containers: &Vec<(String, ContainerRuntimeDetails)>,
)
    requires
        snapshot_accepted(old(logs)@, project@, containers_view(containers@), true),
    ensures
        final(logs)@ == snapshot_log(old(logs)@, project@, containers_view(containers@), true),
{
    append_containers(logs, project, containers, true);
}

/// Appends the runtime line of each running container of `project`.
pub fn append_project_runtime_details(
    logs: &mut LogBuffer,
    project: &str,
    containers: &Vec<(String, ContainerRuntimeDetails)>,
)
    requires
        snapshot_accepted(old(logs)@, project@, containers_view(containers@), false),
    ensures
        final(logs)@ == snapshot_log(old(logs)@, project@, containers_view(containers@), false),
{
    append_containers(logs, project, containers, false);
}

/// An inspect template value with Podman's "no value" marker read as empty.
pub open spec fn normalize_template_spec(value: Seq<char>) -> Seq<char> {
    if value.len() == 0 || value == "<no value>"@ {
        Seq::empty()
    } else {
        value
    }
}

pub fn normalize_template_value(value: &str) -> (r: String)
    ensures
        r@ == normalize_template_spec(value@),
{
    let marker = "<no value>";
    proof {
        reveal_strlit("<no value>");
    }
    if value.is_empty() || str_eq(value, marker) {
        String::new()
    } else {
        owned(value)
    }
}

/// One line of `podman events` output (without its timestamp).
pub struct EventLine {
    pub action: String,
    pub container_name: String,
    pub exit_code: String,
    pub podman_project: String,
    pub legacy_project: String,
}

/// The fields of an event line: action, container, exit code, and the two project labels,
/// tab-separated, each trimmed.
pub open spec fn event_fields(line: Seq<char>) -> (
    Seq<char>,
    Seq<char>,
    Seq<char>,
    Seq<char>,
    Seq<char>,
) {
    let parts = splitn_spec(line, 5, '\t');
    (
        trim_spec(piece(parts, 0)),
        trim_spec(piece(parts, 1)),
        trim_spec(piece(parts, 2)),
        normalize_template_spec(trim_spec(piece(parts, 3))),
        normalize_template_spec(trim_spec(piece(parts, 4))),
    )
}

pub fn parse_event_line(line: &str) -> (r: EventLine)
    ensures
        (r.action@, r.container_name@, r.exit_code@, r.podman_project@, r.legacy_project@)
            == event_fields(line@),
{
    let parts = splitn(line, 5, '\t');
    let action = trim(piece_at(&parts, 0));
    let container_name = trim(piece_at(&parts, 1));
    let exit_code = trim(piece_at(&parts, 2));
    let podman_project = normalize_template_value(trim(piece_at(&parts, 3)));
    let legacy_project = normalize_template_value(trim(piece_at(&parts, 4)));
    EventLine {
        action: owned(action),
        container_name: owned(container_name),
        exit_code: owned(exit_code),
        podman_project,
        legacy_project,
    }
}

/// The project an event names by its labels: the Podman label, else the legacy one
/// (empty where neither is set).
pub open spec fn labelled_project_spec(podman: Seq<char>, legacy: Seq<char>) -> Seq<char> {
    if podman.len() > 0 {
        podman
    } else {
        legacy
    }
}

impl EventLine {
    pub fn labelled_project(&self) -> (r: String)
        ensures
            r@ == labelled_project_spec(self.podman_project@, self.legacy_project@),
    {
        if !self.podman_project.as_str().is_empty() {
            self.podman_project.clone()
        } else {
            self.legacy_project.clone()
        }
    }
}

/// Whether an event names a container that has just come up, whose runtime details are
/// then logged.
pub open spec fn reports_runtime_spec(action: Seq<char>) -> bool {
    action == "start"@ || action == "restart"@ || action == "unpause"@
}

pub fn reports_runtime(action: &str) -> (b: bool)
    ensures
        b == reports_runtime_spec(action@),
{
    let a = "start";
    let b = "restart";
    let c = "unpause";
    proof {
        reveal_strlit("start");
        reveal_strlit("restart");
        reveal_strlit("unpause");
    }
    str_eq(action, a) || str_eq(action, b) || str_eq(action, c)
}

/// The status an event moves a project to (`None`: the event leaves it as it is).
///
/// Creation does not imply a successful start; an exit ends in `Stopped` when the project
/// was being stopped, was already stopped or exited with code 0, and in `Error` otherwise.
pub open spec fn next_status_spec(action: Seq<char>, current: Status, exit_code: Seq<char>) -> Option<
    Status,
> {
    if action == "create"@ {
        None
    } else if action == "restart"@ || action == "unpause"@ || action == "start"@ {
        Some(Status::Running)
    } else if action == "stop"@ || action == "destroy"@ || action == "pause"@ {
        Some(Status::Stopped)
    } else if action == "die"@ || action == "died"@ || action == "exited"@ || action == "kill"@ {
        if current == Status::Stopping || current == Status::Stopped || exit_code == "0"@ {
            Some(Status::Stopped)
        } else {
            Some(Status::Error)
        }
    } else if action == "remove"@ {
        Some(Status::Stopped)
    } else if "health_status: "@.is_prefix_of(action) {
        if action == "health_status: healthy"@ {
            Some(Status::Running)
        } else if action == "health_status: unhealthy"@ {
            Some(Status::Error)
        } else {
            None
        }
    } else {
        None
    }
}

pub fn next_status(action: &str, current: Status, exit_code: &str) -> (r: Option<Status>)
    ensures
        r == next_status_spec(action@, current, exit_code@),
{
    proof {
        reveal_strlit("create");
        reveal_strlit("restart");
        reveal_strlit("unpause");
        reveal_strlit("start");
        reveal_strlit("stop");
        reveal_strlit("destroy");
        reveal_strlit("pause");
        reveal_strlit("die");
        reveal_strlit("died");
        reveal_strlit("exited");
        reveal_strlit("kill");
        reveal_strlit("0");
        reveal_strlit("remove");
        reveal_strlit("health_status: ");
        reveal_strlit("health_status: healthy");
        reveal_strlit("health_status: unhealthy");
    }
    if str_eq(action, "create") {
        None
    } else if str_eq(action, "restart") || str_eq(action, "unpause") || str_eq(action, "start") {
        Some(Status::Running)
    } else if str_eq(action, "stop") || str_eq(action, "destroy") || str_eq(action, "pause") {
        Some(Status::Stopped)
    } else if str_eq(action, "die") || str_eq(action, "died") || str_eq(action, "exited")
        || str_eq(action, "kill") {
        if current == Status::Stopping || current == Status::Stopped || str_eq(exit_code, "0") {
            Some(Status::Stopped)
        } else {
            Some(Status::Error)
        }
    } else if str_eq(action, "remove") {
        Some(Status::Stopped)
    } else if starts_with_str(action, "health_status: ") {
        if str_eq(action, "health_status: healthy") {
            Some(Status::Running)
        } else if str_eq(action, "health_status: unhealthy") {
            Some(Status::Error)
        } else {
            None
        }
    } else {
        None
    }
}

/// The status and pull progress after a change to `next`: progress is dropped unless the
/// project is pulling, and a pull is only ended by `Running` or `Error`.
pub open spec fn status_update_spec(
    current: Status,
    progress: Option<Seq<char>>,
    next: Option<Status>,
) -> (Status, Option<Seq<char>>) {
    match next {
        None => (current, progress),
        Some(n) => {
            let p = if n != Status::Pulling {
                None
            } else {
                progress
            };
            let s = if current != Status::Pulling || n == Status::Running || n == Status::Error {
                n
            } else {
                current
            };
            (s, p)
        },
    }
}

/// The text of an optional string, as a value.
pub open spec fn opt_view(o: Option<String>) -> Option<Seq<char>> {
    match o {
        Some(s) => Some(s@),
        None => None,
    }
}

pub fn apply_status_update(status: &mut Status, pull_progress: &mut Option<String>, next: Option<Status>)
    ensures
        (*final(status), opt_view(*final(pull_progress))) == status_update_spec(
            *old(status),
            opt_view(*old(pull_progress)),
            next,
        ),
{
    if let Some(n) = next {
        if n != Status::Pulling {
            *pull_progress = None;
        }
        if *status != Status::Pulling || n == Status::Running || n == Status::Error {
            *status = n;
        }
    }
}

/// The log after an event on `project` has been recorded: its line, then, for a container
/// that has come up, its runtime line.
pub open spec fn event_log_after(
    v: LogBufferView,
    project: Seq<char>,
    container_name: Seq<char>,
    action: Seq<char>,
    ips: Seq<char>,
    ports: Seq<char>,
) -> LogBufferView {
    let first = after_push(v, event_entry(event_scope(project, container_name), action));
    if reports_runtime_spec(action) && container_name.len() > 0 {
        after_push(first, runtime_entry(container_name, ips, ports))
    } else {
        first
    }
}

/// Whether the pushes of [`event_log_after`] are defined.
pub open spec fn event_log_accepts(
    v: LogBufferView,
    project: Seq<char>,
    container_name: Seq<char>,
    action: Seq<char>,
    ips: Seq<char>,
    ports: Seq<char>,
) -> bool {
    let entry = event_entry(event_scope(project, container_name), action);
    &&& accepts_push(v, entry)
    &&& (reports_runtime_spec(action) && container_name.len() > 0 ==> accepts_push(
        after_push(v, entry),
        runtime_entry(container_name, ips, ports),
    ))
}

/// Records an event on the project it belongs to: logs it (with the container's runtime
/// details where it has come up), then moves the status on.
pub fn handle_event_line(
    ev: &EventLine,
    project: &str,
    events: &mut LogBuffer,
    status: &mut Status,
    pull_progress: &mut Option<String>,
    details: &ContainerRuntimeDetails,
)
    requires
        ev.action@.len() > 0 && project@.len() > 0 ==> event_log_accepts(
            old(events)@,
            project@,
            ev.container_name@,
            ev.action@,
            details.ips@,
            details.ports@,
        ),
    ensures
        ev.action@.len() == 0 || project@.len() == 0 ==> final(events)@ == old(events)@
            && *final(status) == *old(status) && *final(pull_progress) == *old(pull_progress),
        ev.action@.len() > 0 && project@.len() > 0 ==> final(events)@ == event_log_after(
            old(events)@,
            project@,
            ev.container_name@,
            ev.action@,
            details.ips@,
            details.ports@,
        ),
        ev.action@.len() > 0 && project@.len() > 0 ==> (
        *final(status),
        opt_view(*final(pull_progress)),
        ) == status_update_spec(
            *old(status),
            opt_view(*old(pull_progress)),
            next_status_spec(ev.action@, *old(status), ev.exit_code@),
        ),
{
    if ev.action.as_str().is_empty() || project.is_empty() {
        return;
    }
    let action = ev.action.as_str();
    let container_name = ev.container_name.as_str();
    append_event_log_entry(events, project, container_name, action);
    if reports_runtime(action) {
        append_runtime_details(events, container_name, details);
    }
    let next = next_status(action, *status, ev.exit_code.as_str());
    apply_status_update(status, pull_progress, next);
}

/// The project a container's inspected labels name, for an event that names a container.
pub open spec fn resolved_project_spec(container_name: Seq<char>, inspected: Option<Seq<char>>) -> Option<
    Seq<char>,
> {
    if container_name.len() == 0 {
        None
    } else {
        match inspected {
            Some(v) => first_label_from(split_spec(v, '\t'), 0),
            None => None,
        }
    }
}

/// The watched project an event goes to: the project its labels name, else the one its
/// container's inspected labels name; none for an event without an action, or whose
/// project is unknown or not watched.
pub open spec fn event_project_spec(
    action: Seq<char>,
    labelled: Seq<char>,
    resolved: Option<Seq<char>>,
    watched: Seq<Seq<char>>,
) -> Option<Seq<char>> {
    let p = if labelled.len() > 0 {
        labelled
    } else {
        match resolved {
            Some(r) => r,
            None => Seq::<char>::empty(),
        }
    };
    if action.len() == 0 || p.len() == 0 || !watched.contains(p) {
        None
    } else {
        Some(p)
    }
}

/// Law: an event goes only to a watched project with a name, never when it has no action;
/// the project its labels name wins over what inspecting the container says, the Podman
/// label over the legacy one; and an event whose label names a watched project goes to it.
pub proof fn law_event_dispatch(
    action: Seq<char>,
    podman: Seq<char>,
    legacy: Seq<char>,
    resolved: Option<Seq<char>>,
    watched: Seq<Seq<char>>,
)
    ensures
        action.len() == 0 ==> event_project_spec(
            action,
            labelled_project_spec(podman, legacy),
            resolved,
            watched,
        ) == None::<Seq<char>>,
        (event_project_spec(action, labelled_project_spec(podman, legacy), resolved, watched)
            matches Some(p)) ==> watched.contains(
            event_project_spec(action, labelled_project_spec(podman, legacy), resolved, watched)->0,
        ) && event_project_spec(action, labelled_project_spec(podman, legacy), resolved, watched)->0.len() > 0,
        podman.len() > 0 ==> labelled_project_spec(podman, legacy) == podman,
        podman.len() == 0 ==> labelled_project_spec(podman, legacy) == legacy,
        action.len() > 0 && podman.len() > 0 && watched.contains(podman) ==> event_project_spec(
            action,
            labelled_project_spec(podman, legacy),
            resolved,
            watched,
        ) == Some(podman),
        action.len() > 0 && podman.len() == 0 && legacy.len() > 0 && watched.contains(legacy)
            ==> event_project_spec(action, labelled_project_spec(podman, legacy), resolved, watched)
            == Some(legacy),
{
}

/// Whether the event's container has to be inspected to learn its project: the event has
/// an action and names a container but no project.
pub fn needs_inspection(ev: &EventLine) -> (b: bool)
    ensures
        b == (ev.action@.len() > 0 && labelled_project_spec(ev.podman_project@, ev.legacy_project@).len()
            == 0 && ev.container_name@.len() > 0),
{
    let labelled = ev.labelled_project();
    !ev.action.as_str().is_empty() && labelled.as_str().is_empty() && !ev.container_name.as_str().is_empty()
}

/// The watched project an event goes to, given what inspecting its container gave.
pub fn event_project(ev: &EventLine, inspected: Option<&str>, watched: &Vec<String>) -> (r: Option<
    String,
>)
    ensures
        opt_view(r) == event_project_spec(
            ev.action@,
            labelled_project_spec(ev.podman_project@, ev.legacy_project@),
            resolved_project_spec(
                ev.container_name@,
                match inspected {
                    Some(v) => Some(v@),
                    None => None,
                },
            ),
            strings_view(watched@),
        ),
{
    if ev.action.as_str().is_empty() {
        return None;
    }
    let labelled = ev.labelled_project();
    let project = if !labelled.as_str().is_empty() {
        labelled
    } else {
        match resolve_project_from_container(ev.container_name.as_str(), inspected) {
            Some(p) => p,
            None => String::new(),
        }
    };
    if project.as_str().is_empty() || !contains_text(watched, project.as_str()) {
        None
    } else {
        Some(project)
    }
}

/// Whether [`handle_event_line`] can record the event in `events` (see [`LogBuffer::accepts`]).
pub fn can_handle_event(
    ev: &EventLine,
    project: &str,
    events: &LogBuffer,
    details: &ContainerRuntimeDetails,
) -> (b: bool)
    ensures
        b == event_log_accepts(
            events@,
            project@,
            ev.container_name@,
            ev.action@,
            details.ips@,
            details.ports@,
        ),
{
    let action = ev.action.as_str();
    let container_name = ev.container_name.as_str();
    let entry = event_entry_text(project, container_name, action);
    if !events.can_push(entry.as_str()) {
        return false;
    }
    if !(reports_runtime(action) && !container_name.is_empty()) {
        return true;
    }
    let mut copy = events.duplicate();
    copy.push_str(entry.as_str());
    let line = runtime_entry_text(container_name, details);
    copy.can_push(line.as_str())
}

/// The podman `--format` template of event lines: time, status (with health), container,
/// exit code and both project labels, tab-separated.
pub fn format_event_template() -> (r: String)
    ensures
        r@ == "{{.TimeNano}}\t{{.Status}}{{if eq .Status \"health_status\"}}: {{.HealthStatus}}{{end}}\t{{.Name}}\t{{.ContainerExitCode}}\t{{index .Attributes \"io.podman.compose.project\"}}\t{{index .Attributes \"com.docker.compose.project\"}}"@,
{
    let t = "{{.TimeNano}}\t{{.Status}}{{if eq .Status \"health_status\"}}: {{.HealthStatus}}{{end}}\t{{.Name}}\t{{.ContainerExitCode}}\t{{index .Attributes \"io.podman.compose.project\"}}\t{{index .Attributes \"com.docker.compose.project\"}}";
    owned(t)
}


/// The event of a `<nanoseconds>\t<event>` line whose time lies in the polling window
/// `(since, until]`.
pub open spec fn event_in_window_spec(line: Seq<char>, since: i64, until: i64) -> Option<
    Seq<char>,
> {
    match split_once_spec(line, seq!['\t']) {
        None => None,
        Some(pair) => match parse_i64_spec(pair.0) {
            None => None,
            Some(t) => if since < t && t <= until {
                Some(pair.1)
            } else {
                None
            },
        },
    }
}

pub fn event_in_window<'a>(line: &'a str, since: i64, until: i64) -> (r: Option<&'a str>)
    ensures
        r matches Some(e) ==> event_in_window_spec(line@, since, until) == Some(e@),
        r is None ==> event_in_window_spec(line@, since, until) is None,
{
    let tab = "\t";
    proof {
        reveal_strlit("\t");
        assert(tab@ =~= seq!['\t']);
    }
    let (timestamp, event) = match split_once(line, tab) {
        Some(pair) => pair,
        None => return None,
    };
    match parse_i64(timestamp) {
        Some(t) => {
            if since < t && t <= until {
                Some(event)
            } else {
                None
            }
        },
        None => None,
    }
}

/// Law: adjacent polling windows share their boundary but no event: an event of
/// `(a, c]` lies in exactly one of `(a, b]` and `(b, c]`.
pub proof fn law_windows_partition(line: Seq<char>, a: i64, b: i64, c: i64)
    requires
        a <= b <= c,
    ensures
        !(event_in_window_spec(line, a, b) is Some && event_in_window_spec(line, b, c) is Some),
        event_in_window_spec(line, a, c) is Some <==> (event_in_window_spec(line, a, b) is Some
            || event_in_window_spec(line, b, c) is Some),
        event_in_window_spec(line, a, b) is Some ==> event_in_window_spec(line, a, c)
            == event_in_window_spec(line, a, b),
        event_in_window_spec(line, b, c) is Some ==> event_in_window_spec(line, a, c)
            == event_in_window_spec(line, b, c),
{
}

/// Where the listener's next poll for events starts, in nanoseconds since the epoch.
pub struct EventWindow {
    pub since: i64,
}

impl EventWindow {
    /// The window of a listener started at `start`.
    pub fn new(start: i64) -> (w: Self)
        ensures
            w.since == start,
    {
        EventWindow { since: start }
    }

    /// After a poll of `(since, until]`: one that succeeded moves the window on to start at
    /// its end; one that failed keeps it, so the next poll covers its events too.
    pub fn poll_ended(&mut self, until: i64, succeeded: bool)
        ensures
            final(self).since == (if succeeded {
                until
            } else {
                old(self).since
            }),
    {
        if succeeded {
            self.since = until;
        }
    }
}

/// Law: a failed poll loses no event: the next poll, from the same start to a later end,
/// covers every event the failed one would have, as the same event.
pub proof fn law_failed_poll_loses_nothing(line: Seq<char>, since: i64, until: i64, later: i64)
    requires
        since <= until <= later,
    ensures
        event_in_window_spec(line, since, until) is Some ==> event_in_window_spec(
            line,
            since,
            later,
        ) == event_in_window_spec(line, since, until),
{
}

/// The project of a container that the event does not label: none for an unnamed
/// container, else what inspecting the container's project labels printed (see
/// [`project_name`]).
pub fn resolve_project_from_container(container_name: &str, inspected: Option<&str>) -> (r: Option<
    String,
>)
    ensures
        container_name@.len() == 0 ==> r is None,
        container_name@.len() > 0 && inspected is None ==> r is None,
        container_name@.len() > 0 ==> (inspected matches Some(v) ==> (match first_label_from(
            split_spec(v@, '\t'),
            0,
        ) {
            Some(t) => r matches Some(name) && name@ == t,
            None => r is None,
        })),
{
    if container_name.is_empty() {
        return None;
    }
    project_name(inspected)
}

/// Whether an action reports that a container exited.
pub open spec fn is_exit_action(action: Seq<char>) -> bool {
    action == "die"@ || action == "died"@ || action == "exited"@ || action == "kill"@
}

/// Law: when a container exits, the project stops where the exit was clean (code `0`) or
/// the project was being stopped or was already stopped, whatever else holds; any other
/// exit is an error. A start, restart or unpause means running; a stop, destroy, pause or
/// removal means stopped; a creation alone changes nothing.
pub proof fn law_exit_outcomes(action: Seq<char>, current: Status, exit_code: Seq<char>)
    ensures
        is_exit_action(action) && exit_code == "0"@ ==> next_status_spec(action, current, exit_code)
            == Some(Status::Stopped),
        is_exit_action(action) && (current == Status::Stopping || current == Status::Stopped)
            ==> next_status_spec(action, current, exit_code) == Some(Status::Stopped),
        is_exit_action(action) && exit_code != "0"@ && current != Status::Stopping && current
            != Status::Stopped ==> next_status_spec(action, current, exit_code) == Some(
            Status::Error,
        ),
        (action == "start"@ || action == "restart"@ || action == "unpause"@) ==> next_status_spec(
            action,
            current,
            exit_code,
        ) == Some(Status::Running),
        (action == "stop"@ || action == "destroy"@ || action == "pause"@ || action == "remove"@)
            ==> next_status_spec(action, current, exit_code) == Some(Status::Stopped),
        next_status_spec("create"@, current, exit_code) == None::<Status>,
{
    reveal_strlit("create");
    reveal_strlit("restart");
    reveal_strlit("unpause");
    reveal_strlit("start");
    reveal_strlit("stop");
    reveal_strlit("destroy");
    reveal_strlit("pause");
    reveal_strlit("die");
    reveal_strlit("died");
    reveal_strlit("exited");
    reveal_strlit("kill");
    reveal_strlit("remove");
    reveal_strlit("0");
    if action == "die"@ {
        assert("die"@.len() != "create"@.len());
        assert("die"@.len() != "restart"@.len());
        assert("die"@.len() != "unpause"@.len());
        assert("die"@.len() != "start"@.len());
        assert("die"@.len() != "stop"@.len());
        assert("die"@.len() != "destroy"@.len());
        assert("die"@.len() != "pause"@.len());
    }
    if action == "died"@ {
        assert("died"@.len() != "create"@.len());
        assert("died"@.len() != "restart"@.len());
        assert("died"@.len() != "unpause"@.len());
        assert("died"@.len() != "start"@.len());
        assert("died"@[0] != "stop"@[0]);
        assert("died"@.len() != "destroy"@.len());
        assert("died"@.len() != "pause"@.len());
    }
    if action == "exited"@ {
        assert("exited"@[0] != "create"@[0]);
        assert("exited"@.len() != "restart"@.len());
        assert("exited"@.len() != "unpause"@.len());
        assert("exited"@.len() != "start"@.len());
        assert("exited"@.len() != "stop"@.len());
        assert("exited"@.len() != "destroy"@.len());
        assert("exited"@.len() != "pause"@.len());
    }
    if action == "kill"@ {
        assert("kill"@.len() != "create"@.len());
        assert("kill"@.len() != "restart"@.len());
        assert("kill"@.len() != "unpause"@.len());
        assert("kill"@.len() != "start"@.len());
        assert("kill"@[0] != "stop"@[0]);
        assert("kill"@.len() != "destroy"@.len());
        assert("kill"@.len() != "pause"@.len());
    }
    if action == "start"@ {
        assert("start"@.len() != "create"@.len());
        assert("start"@.len() != "restart"@.len());
        assert("start"@.len() != "unpause"@.len());
    }
    if action == "restart"@ {
        assert("restart"@.len() != "create"@.len());
    }
    if action == "unpause"@ {
        assert("unpause"@.len() != "create"@.len());
        assert("unpause"@[0] != "restart"@[0]);
    }
    if action == "stop"@ {
        assert("stop"@.len() != "create"@.len());
        assert("stop"@.len() != "restart"@.len());
        assert("stop"@.len() != "unpause"@.len());
        assert("stop"@.len() != "start"@.len());
    }
    if action == "destroy"@ {
        assert("destroy"@.len() != "create"@.len());
        assert("destroy"@[0] != "restart"@[0]);
        assert("destroy"@[0] != "unpause"@[0]);
        assert("destroy"@.len() != "start"@.len());
        assert("destroy"@.len() != "stop"@.len());
    }
    if action == "pause"@ {
        assert("pause"@.len() != "create"@.len());
        assert("pause"@.len() != "restart"@.len());
        assert("pause"@.len() != "unpause"@.len());
        assert("pause"@[0] != "start"@[0]);
        assert("pause"@.len() != "stop"@.len());
        assert("pause"@.len() != "destroy"@.len());
    }
    if action == "remove"@ {
        assert("remove"@[0] != "create"@[0]);
        assert("remove"@.len() != "restart"@.len());
        assert("remove"@.len() != "unpause"@.len());
        assert("remove"@.len() != "start"@.len());
        assert("remove"@.len() != "stop"@.len());
        assert("remove"@.len() != "destroy"@.len());
        assert("remove"@.len() != "pause"@.len());
        assert("remove"@.len() != "die"@.len());
        assert("remove"@.len() != "died"@.len());
        assert("remove"@[0] != "exited"@[0]);
        assert("remove"@.len() != "kill"@.len());
    }
}

/// Law: events never end a pull except in `Running` or `Error`; a `create` event leaves
/// the status (a failed start stays failed); an unhealthy report is an error; and any
/// change of status away from pulling drops the pull progress.
pub proof fn law_event_status_rules(
    current: Status,
    progress: Option<Seq<char>>,
    action: Seq<char>,
    exit_code: Seq<char>,
)
    ensures
        ({
            let (s, _) = status_update_spec(
                Status::Pulling,
                progress,
                next_status_spec(action, Status::Pulling, exit_code),
            );
            s == Status::Pulling || s == Status::Running || s == Status::Error
        }),
        status_update_spec(current, progress, next_status_spec("create"@, current, exit_code))
            == (current, progress),
        next_status_spec("health_status: unhealthy"@, current, exit_code) == Some(Status::Error),
        (next_status_spec(action, current, exit_code) matches Some(n) && n != Status::Pulling)
            ==> status_update_spec(
            current,
            progress,
            next_status_spec(action, current, exit_code),
        ).1 is None,
{
    reveal_strlit("health_status: unhealthy");
    reveal_strlit("health_status: ");
    reveal_strlit("create");
    reveal_strlit("restart");
    reveal_strlit("unpause");
    reveal_strlit("start");
    reveal_strlit("stop");
    reveal_strlit("destroy");
    reveal_strlit("pause");
    reveal_strlit("die");
    reveal_strlit("died");
    reveal_strlit("exited");
    reveal_strlit("kill");
    reveal_strlit("remove");
    reveal_strlit("health_status: healthy");
    assert("health_status: "@.is_prefix_of("health_status: unhealthy"@)) by {
        assert("health_status: unhealthy"@.take(15) =~= "health_status: "@);
    }
}

} // verus!
