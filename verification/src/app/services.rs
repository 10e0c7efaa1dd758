//! Starting and stopping a Compose project: the checks made before, and the steps taken
//! as each command reports back.
//!
//! The application runs the commands; after each it hands the outcome to [`flow_step`],
//! applies the effects it returns (log text, events, status, pull progress) and performs
//! the next action it names.
use vstd::prelude::*;

use crate::status::{
    is_transitioning_spec, lookup_spec, reconcile_spec, reconcile_status, Status, StatusTable,
    ToastState,
};
use crate::text::owned;
use crate::toast::{named_toast, prefixed_toast, toast, toast_view, Toast};

verus! {

/// How a command ended.
#[derive(Debug)]
pub enum CommandOutcome {
    /// It ran and exited with success.
    Succeeded,
    /// It ran and exited with a failure status.
    Failed,
    /// It could not be run; the error's text.
    CouldNotRun(String),
}

/// What the application reports to the flow.
#[derive(Debug)]
pub enum FlowEvent {
    /// Starting was requested and passed its checks.
    StartRequested,
    /// Whether every image of the project is already present.
    ImagesChecked(bool),
    /// How the pull command ended.
    PullDone(CommandOutcome),
    /// How the `up` command ended.
    UpDone(CommandOutcome),
    /// The status the runtime reports after `up`.
    Confirmed(Status),
    /// Stopping was requested and passed its checks.
    StopRequested,
    /// How the `down` command ended.
    DownDone(CommandOutcome),
}

/// What happens to the project's pull progress.
#[derive(Debug)]
pub enum ProgressChange {
    Keep,
    Clear,
    Replace(String),
}

/// What the application does next.
#[derive(Clone, Copy, Debug, PartialEq, Eq, Structural)]
pub enum NextAction {
    /// Check whether the project's images are present.
    CheckImages,
    /// Go on as after a successful pull, without pulling.
    SkipPull,
    /// Run the pull command, its output under `Pull output:`.
    RunPull,
    /// Run `up`, its output under `Up output:`.
    RunUp,
    /// Ask the runtime for the project's status.
    ConfirmRunning,
    /// Stop the live-log follower, then run `down`, its output under `Down output:`.
    RunDown,
    /// Nothing more.
    Finish,
}

/// The effects of one step, in the order the application applies them: clear the command
/// log, push the log texts, append the project events, set the status and progress,
/// append the runtime details of the project's containers.
#[derive(Debug)]
pub struct FlowStep {
    pub clear_logs: bool,
    pub log_text: Vec<String>,
    pub events: Vec<String>,
    pub status: Option<Status>,
    pub progress: ProgressChange,
    pub runtime_details: bool,
    pub next: NextAction,
}

/// The plain values of a [`CommandOutcome`].
pub enum OutcomeView {
    Succeeded,
    Failed,
    CouldNotRun(Seq<char>),
}

/// The plain values of a [`FlowEvent`].
pub enum FlowEventView {
    StartRequested,
    ImagesChecked(bool),
    PullDone(OutcomeView),
    UpDone(OutcomeView),
    Confirmed(Status),
    StopRequested,
    DownDone(OutcomeView),
}

/// The plain values of a [`ProgressChange`].
pub enum ProgressView {
    Keep,
    Clear,
    Replace(Seq<char>),
}

/// The plain values of a [`FlowStep`].
pub struct FlowStepView {
    pub clear_logs: bool,
    pub log_text: Seq<Seq<char>>,
    pub events: Seq<Seq<char>>,
    pub status: Option<Status>,
    pub progress: ProgressView,
    pub runtime_details: bool,
    pub next: NextAction,
}

impl View for CommandOutcome {
    type V = OutcomeView;

    open spec fn view(&self) -> OutcomeView {
        match self {
            CommandOutcome::Succeeded => OutcomeView::Succeeded,
            CommandOutcome::Failed => OutcomeView::Failed,
            CommandOutcome::CouldNotRun(e) => OutcomeView::CouldNotRun(e@),
        }
    }
}

impl View for FlowEvent {
    type V = FlowEventView;

    open spec fn view(&self) -> FlowEventView {
        match self {
            FlowEvent::StartRequested => FlowEventView::StartRequested,
            FlowEvent::ImagesChecked(b) => FlowEventView::ImagesChecked(*b),
            FlowEvent::PullDone(o) => FlowEventView::PullDone(o@),
            FlowEvent::UpDone(o) => FlowEventView::UpDone(o@),
            FlowEvent::Confirmed(s) => FlowEventView::Confirmed(*s),
            FlowEvent::StopRequested => FlowEventView::StopRequested,
            FlowEvent::DownDone(o) => FlowEventView::DownDone(o@),
        }
    }
}

impl View for ProgressChange {
    type V = ProgressView;

    open spec fn view(&self) -> ProgressView {
        match self {
            ProgressChange::Keep => ProgressView::Keep,
            ProgressChange::Clear => ProgressView::Clear,
            ProgressChange::Replace(s) => ProgressView::Replace(s@),
        }
    }
}

impl View for FlowStep {
    type V = FlowStepView;

    open spec fn view(&self) -> FlowStepView {
        FlowStepView {
            clear_logs: self.clear_logs,
            log_text: self.log_text@.map_values(|s: String| s@),
            events: self.events@.map_values(|s: String| s@),
            status: self.status,
            progress: self.progress@,
            runtime_details: self.runtime_details,
            next: self.next,
        }
    }
}

/// A step with the given effects.
pub open spec fn step(
    clear_logs: bool,
    log_text: Seq<Seq<char>>,
    events: Seq<Seq<char>>,
    status: Option<Status>,
    progress: ProgressView,
    runtime_details: bool,
    next: NextAction,
) -> FlowStepView {
    FlowStepView { clear_logs, log_text, events, status, progress, runtime_details, next }
}

/// The effects of a command that ended in failure: a log line where it could not run, an
/// event naming the failure, and the error status.
pub open spec fn failure_step(
    log_prefix: Seq<char>,
    event_prefix: Seq<char>,
    o: OutcomeView,
    extra_events: Seq<Seq<char>>,
    progress: ProgressView,
) -> FlowStepView {
    match o {
        OutcomeView::CouldNotRun(e) => step(
            false,
            seq![log_prefix + ": "@ + e + "\n"@],
            seq![event_prefix + ": "@ + e] + extra_events,
            Some(Status::Error),
            progress,
            false,
            NextAction::Finish,
        ),
        _ => step(
            false,
            seq![],
            seq![event_prefix + ": command exited with non-zero status"@] + extra_events,
            Some(Status::Error),
            progress,
            false,
            NextAction::Finish,
        ),
    }
}

/// The step that follows each event.
///
/// Starting sets the project pulling with progress "queued"; present images skip the pull;
/// a successful pull moves to starting and runs `up`; a successful `up` is confirmed with
/// the runtime, which must report the project running; every failure ends in the error
/// status. Stopping sets the project stopping and runs `down`, which ends in stopped or in
/// error.
pub open spec fn flow_step_spec(ev: FlowEventView) -> FlowStepView {
    match ev {
        FlowEventView::StartRequested => step(
            true,
            seq![],
            seq!["start requested"@, "pulling images"@],
            Some(Status::Pulling),
            ProgressView::Replace("queued"@),
            false,
            NextAction::CheckImages,
        ),
        FlowEventView::ImagesChecked(cached) => if cached {
            step(
                false,
                seq!["All images already present, skipping pull.\n"@],
                seq!["pull cached"@],
                None,
                ProgressView::Replace("cached"@),
                false,
                NextAction::SkipPull,
            )
        } else {
            step(false, seq![], seq![], None, ProgressView::Keep, false, NextAction::RunPull)
        },
        FlowEventView::PullDone(o) => match o {
            OutcomeView::Succeeded => step(
                false,
                seq![],
                seq!["pull complete"@, "up requested"@],
                Some(Status::Starting),
                ProgressView::Clear,
                false,
                NextAction::RunUp,
            ),
            _ => failure_step("Pull failed"@, "pull failed"@, o, seq!["error"@], ProgressView::Clear),
        },
        FlowEventView::UpDone(o) => match o {
            OutcomeView::Succeeded => step(
                false,
                seq![],
                seq![],
                None,
                ProgressView::Keep,
                false,
                NextAction::ConfirmRunning,
            ),
            _ => failure_step("Up failed"@, "up failed"@, o, seq![], ProgressView::Keep),
        },
        FlowEventView::Confirmed(actual) => if actual == Status::Running {
            step(
                false,
                seq![],
                seq!["running confirmed"@],
                Some(Status::Running),
                ProgressView::Keep,
                true,
                NextAction::Finish,
            )
        } else {
            step(
                false,
                seq![],
                seq!["up completed but service not running"@],
                Some(Status::Error),
                ProgressView::Keep,
                false,
                NextAction::Finish,
            )
        },
        FlowEventView::StopRequested => step(
            false,
            seq![],
            seq!["stop requested"@],
            Some(Status::Stopping),
            ProgressView::Clear,
            false,
            NextAction::RunDown,
        ),
        FlowEventView::DownDone(o) => match o {
            OutcomeView::Succeeded => step(
                false,
                seq![],
                seq!["stopped confirmed"@],
                Some(Status::Stopped),
                ProgressView::Keep,
                false,
                NextAction::Finish,
            ),
            _ => failure_step("Down failed"@, "down failed"@, o, seq![], ProgressView::Keep),
        },
    }
}

fn texts0() -> (r: Vec<String>)
    ensures
        r@.map_values(|s: String| s@) == Seq::<Seq<char>>::empty(),
{
    let r: Vec<String> = Vec::new();
    assert(r@.map_values(|s: String| s@) =~= Seq::<Seq<char>>::empty());
    r
}

fn texts1(a: String) -> (r: Vec<String>)
    ensures
        r@.map_values(|s: String| s@) == seq![a@],
{
    let mut r: Vec<String> = Vec::new();
    r.push(a);
    assert(r@.map_values(|s: String| s@) =~= seq![a@]);
    r
}

fn texts2(a: String, b: String) -> (r: Vec<String>)
    ensures
        r@.map_values(|s: String| s@) == seq![a@, b@],
{
    let mut r: Vec<String> = Vec::new();
    r.push(a);
    r.push(b);
    assert(r@.map_values(|s: String| s@) =~= seq![a@, b@]);
    r
}

/// `a`, then `b`, then `c`.
fn concat3(a: &str, b: &str, c: &str) -> (r: String)
    ensures
        r@ == a@ + b@ + c@,
{
    let mut r = owned(a);
    r.append(b);
    r.append(c);
    r
}

fn failure(
    log_prefix: &str,
    event_prefix: &str,
    o: &CommandOutcome,
    error_event: bool,
    progress: ProgressChange,
) -> (r: FlowStep)
    requires
        !(o is Succeeded),
    ensures
        r@ == failure_step(
            log_prefix@,
            event_prefix@,
            o@,
            if error_event {
                seq!["error"@]
            } else {
                seq![]
            },
            progress@,
        ),
{
    let (log_text, first) = match o {
        CommandOutcome::CouldNotRun(e) => {
            let line = concat3(log_prefix, ": ", e.as_str());
            let mut l = line;
            l.append("\n");
            (texts1(l), concat3(event_prefix, ": ", e.as_str()))
        },
        _ => {
            let mut m = owned(event_prefix);
            m.append(": command exited with non-zero status");
            (texts0(), m)
        },
    };
    let events = if error_event {
        texts2(first, owned("error"))
    } else {
        texts1(first)
    };
    let r = FlowStep {
        clear_logs: false,
        log_text,
        events,
        status: Some(Status::Error),
        progress,
        runtime_details: false,
        next: NextAction::Finish,
    };
    proof {
        let ex = if error_event {
            seq!["error"@]
        } else {
            seq![]
        };
        match o@ {
            OutcomeView::CouldNotRun(e) => {
                assert(r@.events =~= seq![event_prefix@ + ": "@ + e] + ex);
            },
            _ => {
                assert(r@.events =~= seq![event_prefix@ + ": command exited with non-zero status"@]
                    + ex);
            },
        }
    }
    r
}

fn plain(
    clear_logs: bool,
    log_text: Vec<String>,
    events: Vec<String>,
    status: Option<Status>,
    progress: ProgressChange,
    runtime_details: bool,
    next: NextAction,
) -> (r: FlowStep)
    ensures
        r@ == step(
            clear_logs,
            log_text@.map_values(|s: String| s@),
            events@.map_values(|s: String| s@),
            status,
            progress@,
            runtime_details,
            next,
        ),
{
    FlowStep { clear_logs, log_text, events, status, progress, runtime_details, next }
}

/// The step that follows `ev` (see [`flow_step_spec`]).
pub fn flow_step(ev: FlowEvent) -> (r: FlowStep)
    ensures
        r@ == flow_step_spec(ev@),
{
    match ev {
        FlowEvent::StartRequested => plain(
            true,
            texts0(),
            texts2(owned("start requested"), owned("pulling images")),
            Some(Status::Pulling),
            ProgressChange::Replace(owned("queued")),
            false,
            NextAction::CheckImages,
        ),
        FlowEvent::ImagesChecked(cached) => if cached {
            plain(
                false,
                texts1(owned("All images already present, skipping pull.\n")),
                texts1(owned("pull cached")),
                None,
                ProgressChange::Replace(owned("cached")),
                false,
                NextAction::SkipPull,
            )
        } else {
            plain(false, texts0(), texts0(), None, ProgressChange::Keep, false, NextAction::RunPull)
        },
        FlowEvent::PullDone(o) => match o {
            CommandOutcome::Succeeded => plain(
                false,
                texts0(),
                texts2(owned("pull complete"), owned("up requested")),
                Some(Status::Starting),
                ProgressChange::Clear,
                false,
                NextAction::RunUp,
            ),
            _ => failure("Pull failed", "pull failed", &o, true, ProgressChange::Clear),
        },
        FlowEvent::UpDone(o) => match o {
            CommandOutcome::Succeeded => plain(
                false,
                texts0(),
                texts0(),
                None,
                ProgressChange::Keep,
                false,
                NextAction::ConfirmRunning,
            ),
            _ => failure("Up failed", "up failed", &o, false, ProgressChange::Keep),
        },
        FlowEvent::Confirmed(actual) => if actual == Status::Running {
            plain(
                false,
                texts0(),
                texts1(owned("running confirmed")),
                Some(Status::Running),
                ProgressChange::Keep,
                true,
                NextAction::Finish,
            )
        } else {
            plain(
                false,
                texts0(),
                texts1(owned("up completed but service not running")),
                Some(Status::Error),
                ProgressChange::Keep,
                false,
                NextAction::Finish,
            )
        },
        FlowEvent::StopRequested => plain(
            false,
            texts0(),
            texts1(owned("stop requested")),
            Some(Status::Stopping),
            ProgressChange::Clear,
            false,
            NextAction::RunDown,
        ),
        FlowEvent::DownDone(o) => match o {
            CommandOutcome::Succeeded => plain(
                false,
                texts0(),
                texts1(owned("stopped confirmed")),
                Some(Status::Stopped),
                ProgressChange::Keep,
                false,
                NextAction::Finish,
            ),
            _ => failure("Down failed", "down failed", &o, false, ProgressChange::Keep),
        },
    }
}

/// Law: every command failure ends the flow in the error status, and only a confirmed
/// running project ends a start in the running status.
pub proof fn law_failures_end_in_error(ev: FlowEventView)
    ensures
        (ev matches FlowEventView::PullDone(o) && !(o is Succeeded)) ==> flow_step_spec(ev).status
            == Some(Status::Error) && flow_step_spec(ev).next == NextAction::Finish,
        (ev matches FlowEventView::UpDone(o) && !(o is Succeeded)) ==> flow_step_spec(ev).status
            == Some(Status::Error) && flow_step_spec(ev).next == NextAction::Finish,
        (ev matches FlowEventView::DownDone(o) && !(o is Succeeded)) ==> flow_step_spec(
            ev,
        ).status == Some(Status::Error) && flow_step_spec(ev).next == NextAction::Finish,
        flow_step_spec(ev).status == Some(Status::Running) ==> ev == FlowEventView::Confirmed(
            Status::Running,
        ),
{
}

/// The toast refusing an operation while the runtime is unavailable, or the checks of
/// starting a project: refused while it already runs (as the runtime reports, `actual`,
/// read only where the runtime is available) or while it is busy; else the toast that
/// announces the start.
pub open spec fn start_check_spec(
    name: Seq<char>,
    available: bool,
    actual: Status,
    current: Status,
) -> Result<(ToastState, Seq<char>, u32), (ToastState, Seq<char>, u32)> {
    if !available {
        Err((ToastState::Error, "Cannot start service: Podman runtime unavailable"@, 5))
    } else if actual == Status::Running {
        Err((ToastState::Warning, name + " already running"@, 4))
    } else if is_transitioning_spec(current) {
        Err((ToastState::Warning, name + " is busy, wait for operation to finish"@, 3))
    } else {
        Ok((ToastState::Success, "Starting "@ + name, 3))
    }
}

/// The checks of stopping a project: refused unless the runtime reports it running, or
/// while it is busy; else the toast that announces the stop.
pub open spec fn stop_check_spec(
    name: Seq<char>,
    available: bool,
    actual: Status,
    current: Status,
) -> Result<(ToastState, Seq<char>, u32), (ToastState, Seq<char>, u32)> {
    if !available {
        Err((ToastState::Error, "Cannot stop service: Podman runtime unavailable"@, 5))
    } else if actual != Status::Running {
        Err((ToastState::Warning, name + " not running"@, 4))
    } else if is_transitioning_spec(current) {
        Err((ToastState::Warning, name + " is busy, wait for operation to finish"@, 3))
    } else {
        Ok((ToastState::Success, "Stopping "@ + name, 3))
    }
}

pub open spec fn toast_result_view(r: Result<Toast, Toast>) -> Result<
    (ToastState, Seq<char>, u32),
    (ToastState, Seq<char>, u32),
> {
    match r {
        Ok(t) => Ok(toast_view(t)),
        Err(t) => Err(toast_view(t)),
    }
}

/// Whether a project may be started; `Ok` holds the toast announcing it, `Err` the toast
/// that refuses it.
/// Law: a start goes ahead exactly when the runtime is available, the project is not
/// running and not in transition; a stop exactly when the runtime is available, the
/// project is running and not in transition. So never both, and with the runtime
/// available and the project settled, always one of them; an unavailable runtime refuses
/// both with an error notice.
pub proof fn law_start_stop_exclusive(name: Seq<char>, available: bool, actual: Status, current: Status)
    ensures
        start_check_spec(name, available, actual, current) is Ok <==> (available && actual
            != Status::Running && !is_transitioning_spec(current)),
        stop_check_spec(name, available, actual, current) is Ok <==> (available && actual
            == Status::Running && !is_transitioning_spec(current)),
        !(start_check_spec(name, available, actual, current) is Ok && stop_check_spec(
            name,
            available,
            actual,
            current,
        ) is Ok),
        available && !is_transitioning_spec(current) ==> (start_check_spec(
            name,
            available,
            actual,
            current,
        ) is Ok || stop_check_spec(name, available, actual, current) is Ok),
        !available ==> (start_check_spec(name, available, actual, current) matches Err(t)
            && t.0 == ToastState::Error),
        !available ==> (stop_check_spec(name, available, actual, current) matches Err(t)
            && t.0 == ToastState::Error),
{
}

pub fn start_check(name: &str, available: bool, actual: Status, current: Status) -> (r: Result<
    Toast,
    Toast,
>)
    ensures
        toast_result_view(r) == start_check_spec(name@, available, actual, current),
{
    if !available {
        Err(toast(ToastState::Error, "Cannot start service: Podman runtime unavailable", 5))
    } else if actual == Status::Running {
        Err(named_toast(ToastState::Warning, name, " already running", 4))
    } else if current.is_transitioning() {
        Err(named_toast(ToastState::Warning, name, " is busy, wait for operation to finish", 3))
    } else {
        Ok(prefixed_toast(ToastState::Success, "Starting ", name, 3))
    }
}

/// Whether a project may be stopped; `Ok` holds the toast announcing it, `Err` the toast
/// that refuses it.
pub fn stop_check(name: &str, available: bool, actual: Status, current: Status) -> (r: Result<
    Toast,
    Toast,
>)
    ensures
        toast_result_view(r) == stop_check_spec(name@, available, actual, current),
{
    if !available {
        Err(toast(ToastState::Error, "Cannot stop service: Podman runtime unavailable", 5))
    } else if actual != Status::Running {
        Err(named_toast(ToastState::Warning, name, " not running", 4))
    } else if current.is_transitioning() {
        Err(named_toast(ToastState::Warning, name, " is busy, wait for operation to finish", 3))
    } else {
        Ok(prefixed_toast(ToastState::Success, "Stopping ", name, 3))
    }
}

/// Whether toggling a project stops it (it runs) rather than starts it.
pub fn toggle_stops(current: Status) -> (b: bool)
    ensures
        b == (current == Status::Running),
{
    current == Status::Running
}

/// Whether `after` is `before` once a refresh that reported `batch` was applied (with
/// `cleared` telling whether its pull progress was cleared): a project the runtime
/// reported is reconciled with the report (see [`reconcile_spec`]); the others keep
/// their status.
pub open spec fn refreshed(
    before: (String, Status),
    after: (String, Status),
    cleared: bool,
    batch: Seq<(Seq<char>, Status)>,
) -> bool {
    &&& after.0 == before.0
    &&& match lookup_spec(batch, before.0@) {
        Some(actual) => (after.1, cleared) == reconcile_spec(before.1, actual),
        None => after.1 == before.1 && !cleared,
    }
}

/// Applies a refresh in which the runtime reported `batch` to every project; the result
/// tells, per project, whether its pull progress is cleared.
pub fn apply_refresh(services: &mut Vec<(String, Status)>, batch: &StatusTable) -> (clear: Vec<bool>)
    ensures
        final(services)@.len() == old(services)@.len(),
        clear@.len() == old(services)@.len(),
        forall|i: int|
            0 <= i < old(services)@.len() ==> #[trigger] refreshed(
                old(services)@[i],
                final(services)@[i],
                clear@[i],
                batch@,
            ),
{
    let mut clear: Vec<bool> = Vec::new();
    let mut i: usize = 0;
    while i < services.len()
        invariant
            i <= services@.len(),
            services@.len() == old(services)@.len(),
            clear@.len() == i,
            forall|k: int| i <= k < services@.len() ==> #[trigger] services@[k] == old(services)@[k],
            forall|k: int|
                0 <= k < i ==> #[trigger] refreshed(old(services)@[k], services@[k], clear@[k], batch@),
        decreases services.len() - i,
    {
        let current = services[i].1;
        let ghost prev = services@;
        let ghost prev_clear = clear@;
        assert(prev[i as int] == old(services)@[i as int]);
        match batch.get(services[i].0.as_str()) {
            Some(actual) => {
                let (next, cleared) = reconcile_status(current, actual);
                let name = services[i].0.clone();
                services.set(i, (name, next));
                clear.push(cleared);
            },
            None => {
                clear.push(false);
            },
        }
        assert(refreshed(old(services)@[i as int], services@[i as int], clear@[i as int], batch@));
        assert forall|k: int| 0 <= k < i implies #[trigger] refreshed(
            old(services)@[k],
            services@[k],
            clear@[k],
            batch@,
        ) by {
            assert(services@[k] == prev[k] && clear@[k] == prev_clear[k]);
            assert(refreshed(old(services)@[k], prev[k], prev_clear[k], batch@));
        }
        i = i + 1;
    }
    clear
}

/// The notice when the selected project is busy and a toggle was asked for.
pub fn busy_toast() -> (t: Toast)
    ensures
        toast_view(t) == (ToastState::Info, "Service is busy, wait for transition"@, 2u32),
{
    toast(ToastState::Info, "Service is busy, wait for transition", 2)
}

/// Applies a refresh in which the runtime is unavailable: every project is marked
/// `RuntimeUnavailable` and keeps its name, and every pull progress is cleared.
pub fn mark_unavailable(services: &mut Vec<(String, Status)>) -> (clear: Vec<bool>)
    ensures
        final(services)@.len() == old(services)@.len(),
        clear@.len() == old(services)@.len(),
        forall|i: int|
            0 <= i < old(services)@.len() ==> #[trigger] final(services)@[i] == (
                old(services)@[i].0,
                Status::RuntimeUnavailable,
            ) && clear@[i],
{
    let mut clear: Vec<bool> = Vec::new();
    let mut i: usize = 0;
    while i < services.len()
        invariant
            i <= services@.len(),
            services@.len() == old(services)@.len(),
            clear@.len() == i,
            forall|k: int| i <= k < services@.len() ==> #[trigger] services@[k] == old(services)@[k],
            forall|k: int|
                0 <= k < i ==> #[trigger] services@[k] == (
                    old(services)@[k].0,
                    Status::RuntimeUnavailable,
                ) && clear@[k],
        decreases services.len() - i,
    {
        let name = services[i].0.clone();
        services.set(i, (name, Status::RuntimeUnavailable));
        clear.push(true);
        i = i + 1;
    }
    clear
}

/// The notice after statuses were refreshed on request.
pub fn refreshed_toast() -> (t: Toast)
    ensures
        toast_view(t) == (ToastState::Info, "Refreshed statuses"@, 3u32),
{
    toast(ToastState::Info, "Refreshed statuses", 3)
}

} // verus!
