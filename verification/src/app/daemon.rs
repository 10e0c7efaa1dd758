//! The API socket menu: which projects come down before the socket stops or restarts,
//! and the notices each action ends with.
use vstd::prelude::*;

use crate::app::state::DaemonAction;
use crate::status::{Status, ToastState};
use crate::text::{
    lemma_text_lt_irreflexive, lemma_text_lt_total, lemma_text_lt_transitive, owned,
    push_decimal, decimal_spec, text_less, text_lt,
};
use crate::toast::{toast, toast_view, Toast};

verus! {

/// Whether a project in this status has to be brought down first.
pub open spec fn needs_stop_spec(s: Status) -> bool {
    s == Status::Running || s == Status::Starting || s == Status::Stopping || s
        == Status::Pulling
}

/// The names of the projects that have to be brought down, in the order given.
pub open spec fn stop_names(services: Seq<(Seq<char>, Status)>) -> Seq<Seq<char>>
    decreases services.len(),
{
    if services.len() == 0 {
        seq![]
    } else {
        let rest = stop_names(services.drop_last());
        if needs_stop_spec(services.last().1) {
            rest.push(services.last().0)
        } else {
            rest
        }
    }
}

/// Texts in ascending order (equal texts side by side).
pub open spec fn ascending(s: Seq<Seq<char>>) -> bool {
    forall|i: int, j: int| 0 <= i < j < s.len() ==> !text_lt(#[trigger] s[j], #[trigger] s[i])
}

pub open spec fn services_view(v: Seq<(String, Status)>) -> Seq<(Seq<char>, Status)> {
    v.map_values(|p: (String, Status)| (p.0@, p.1))
}

pub open spec fn names_of(v: Seq<String>) -> Seq<Seq<char>> {
    v.map_values(|s: String| s@)
}

/// The first index from which `sorted` holds only texts above `x`.
fn insertion_point(sorted: &Vec<String>, x: &str) -> (p: usize)
    requires
        ascending(names_of(sorted@)),
    ensures
        p <= sorted.len(),
        forall|k: int| 0 <= k < p ==> !text_lt(x@, #[trigger] names_of(sorted@)[k]),
        forall|k: int| p <= k < sorted.len() ==> text_lt(x@, #[trigger] names_of(sorted@)[k]),
{
    let ghost ns = names_of(sorted@);
    let mut p: usize = 0;
    while p < sorted.len() && !text_less(x, sorted[p].as_str())
        invariant
            p <= sorted.len(),
            ns == names_of(sorted@),
            ascending(ns),
            forall|k: int| 0 <= k < p ==> !text_lt(x@, #[trigger] ns[k]),
        decreases sorted.len() - p,
    {
        assert(ns[p as int] == sorted@[p as int]@);
        p = p + 1;
    }
    if p < sorted.len() {
        assert(ns[p as int] == sorted@[p as int]@);
        assert forall|k: int| p <= k < sorted.len() implies text_lt(x@, #[trigger] ns[k]) by {
            if k > p {
                assert(!text_lt(ns[k], ns[p as int]));
                lemma_text_lt_total(ns[k], ns[p as int]);
                if ns[k] != ns[p as int] {
                    lemma_text_lt_transitive(x@, ns[p as int], ns[k]);
                }
            }
        }
    }
    p
}

/// The names of the projects that have to be brought down, in ascending order.
pub fn services_to_stop(services: &Vec<(String, Status)>) -> (r: Vec<String>)
    ensures
        ascending(names_of(r@)),
        names_of(r@).to_multiset() == stop_names(services_view(services@)).to_multiset(),
{
    let ghost sv = services_view(services@);
    let mut r: Vec<String> = Vec::new();
    let mut i: usize = 0;
    assert(names_of(r@) =~= Seq::<Seq<char>>::empty());
    assert(sv.take(0) =~= Seq::<(Seq<char>, Status)>::empty());
    while i < services.len()
        invariant
            i <= services.len(),
            sv == services_view(services@),
            ascending(names_of(r@)),
            names_of(r@).to_multiset() == stop_names(sv.take(i as int)).to_multiset(),
        decreases services.len() - i,
    {
        assert(sv.take(i + 1).drop_last() =~= sv.take(i as int));
        let status = services[i].1;
        if status.needs_stop() {
            let name = services[i].0.as_str();
            let ghost before = names_of(r@);
            let p = insertion_point(&r, name);
            r.insert(p, owned(name));
            proof {
                assert(names_of(r@) =~= before.insert(p as int, name@));
                assert(ascending(names_of(r@))) by {
                    let ns = names_of(r@);
                    assert forall|a: int, b: int| 0 <= a < b < ns.len() implies !text_lt(
                        #[trigger] ns[b],
                        #[trigger] ns[a],
                    ) by {
                        if a < p && b == p {
                            assert(!text_lt(name@, before[a]));
                        } else if a == p && b > p {
                            assert(text_lt(name@, before[b - 1]));
                            lemma_text_lt_total(name@, before[b - 1]);
                        } else if a < p && b > p {
                            assert(!text_lt(before[b - 1], before[a]));
                        } else if b < p {
                            assert(!text_lt(before[b], before[a]));
                        } else {
                            assert(!text_lt(before[b - 1], before[a - 1]));
                        }
                    }
                }
                assert(services@[i as int].0@ == sv[i as int].0);
                assert(sv.take(i + 1).last() == sv[i as int]);
                assert(stop_names(sv.take(i + 1)) == stop_names(sv.take(i as int)).push(name@));
                vstd::seq_lib::to_multiset_insert(before, p as int, name@);
                vstd::seq_lib::to_multiset_build(stop_names(sv.take(i as int)), name@);
            }
        } else {
            assert(sv.take(i + 1).last() == sv[i as int]);
            assert(stop_names(sv.take(i + 1)) == stop_names(sv.take(i as int)));
        }
        i = i + 1;
    }
    assert(sv.take(services.len() as int) =~= sv);
    r
}

/// The failure of bringing a project down: its command failed, or could not be run.
pub fn stop_failure_message(name: &str, error: Option<&str>) -> (m: String)
    ensures
        error is None ==> m@ == "Failed to stop service "@ + name@,
        error matches Some(e) ==> m@ == "Error stopping service "@ + name@ + ": "@ + e@,
{
    match error {
        None => {
            let mut m = owned("Failed to stop service ");
            m.append(name);
            m
        },
        Some(e) => {
            let mut m = owned("Error stopping service ");
            m.append(name);
            m.append(": ");
            m.append(e);
            m
        },
    }
}

/// The notice after projects were brought down before stopping or restarting the socket;
/// none where there were none.
pub fn stopped_first_toast(count: usize, action: DaemonAction) -> (t: Option<Toast>)
    ensures
        count == 0 ==> t is None,
        count > 0 ==> (t matches Some(x) && toast_view(x) == (
            ToastState::Info,
            "Stopped "@ + decimal_spec(count as nat) + (if action == DaemonAction::Restart {
                " service(s) before restart"@
            } else {
                " service(s) before stopping daemon"@
            }),
            2u32,
        )),
{
    if count == 0 {
        return None;
    }
    let mut m = owned("Stopped ");
    push_decimal(&mut m, count as u64);
    if action == DaemonAction::Restart {
        m.append(" service(s) before restart");
    } else {
        m.append(" service(s) before stopping daemon");
    }
    Some(Toast { state: ToastState::Info, message: m, seconds: 2 })
}

/// The notice when projects could not be brought down.
pub fn stop_services_failed_toast(error: &str) -> (t: Toast)
    ensures
        toast_view(t) == (ToastState::Error, "Failed to stop services: "@ + error@, 5u32),
{
    let mut m = owned("Failed to stop services: ");
    m.append(error);
    Toast { state: ToastState::Error, message: m, seconds: 5 }
}

/// The notice a socket action ends with: its success, or its failure as reported.
pub fn daemon_result_toast(action: DaemonAction, result: &Result<(), String>) -> (t: Toast)
    ensures
        result matches Err(e) ==> toast_view(t) == (ToastState::Error, e@, 5u32),
        result is Ok ==> toast_view(t) == (match action {
            DaemonAction::Start => (ToastState::Success, "Podman API socket started"@, 3u32),
            DaemonAction::Restart => (
                ToastState::Success,
                "Podman API socket restarted (services stopped first)"@,
                4u32,
            ),
            DaemonAction::Stop => (
                ToastState::Success,
                "Podman API socket stopped (services stopped first)"@,
                4u32,
            ),
        }),
{
    match result {
        Err(e) => Toast { state: ToastState::Error, message: e.clone(), seconds: 5 },
        Ok(()) => match action {
            DaemonAction::Start => toast(ToastState::Success, "Podman API socket started", 3),
            DaemonAction::Restart => toast(
                ToastState::Success,
                "Podman API socket restarted (services stopped first)",
                4,
            ),
            DaemonAction::Stop => toast(
                ToastState::Success,
                "Podman API socket stopped (services stopped first)",
                4,
            ),
        },
    }
}

/// The action after moving down the socket menu, wrapping around.
pub fn daemon_next(action: DaemonAction) -> (r: DaemonAction)
    ensures
        r == (match action {
            DaemonAction::Start => DaemonAction::Stop,
            DaemonAction::Stop => DaemonAction::Restart,
            DaemonAction::Restart => DaemonAction::Start,
        }),
{
    match action {
        DaemonAction::Start => DaemonAction::Stop,
        DaemonAction::Stop => DaemonAction::Restart,
        DaemonAction::Restart => DaemonAction::Start,
    }
}

/// The action after moving up the socket menu, wrapping around.
pub fn daemon_previous(action: DaemonAction) -> (r: DaemonAction)
    ensures
        r == (match action {
            DaemonAction::Start => DaemonAction::Restart,
            DaemonAction::Stop => DaemonAction::Start,
            DaemonAction::Restart => DaemonAction::Stop,
        }),
{
    match action {
        DaemonAction::Start => DaemonAction::Restart,
        DaemonAction::Stop => DaemonAction::Start,
        DaemonAction::Restart => DaemonAction::Stop,
    }
}

/// How bringing one project down ended.
pub enum DownOutcome {
    /// The compose command succeeded.
    Stopped,
    /// The compose command failed.
    Failed,
    /// The compose command could not be run, with this error.
    Error(String),
}

/// What bringing the projects down asks for next.
#[derive(Debug)]
pub enum StopAction {
    /// Bring this project down.
    Down(String),
    /// Every project came down: refresh the statuses, then report this many.
    Finished(usize),
    /// Nothing had to come down, or a project failed to: report this.
    Done(Result<usize, String>),
}

/// The plain values of a [`DownOutcome`].
pub enum DownOutcomeView {
    Stopped,
    Failed,
    Error(Seq<char>),
}

/// The plain values of a [`StopAction`].
pub enum StopActionView {
    Down(Seq<char>),
    Finished(nat),
    Done(Result<nat, Seq<char>>),
}

pub open spec fn down_outcome_view(o: DownOutcome) -> DownOutcomeView {
    match o {
        DownOutcome::Stopped => DownOutcomeView::Stopped,
        DownOutcome::Failed => DownOutcomeView::Failed,
        DownOutcome::Error(e) => DownOutcomeView::Error(e@),
    }
}

pub open spec fn stop_action_view(a: StopAction) -> StopActionView {
    match a {
        StopAction::Down(n) => StopActionView::Down(n@),
        StopAction::Finished(n) => StopActionView::Finished(n as nat),
        StopAction::Done(Ok(n)) => StopActionView::Done(Ok(n as nat)),
        StopAction::Done(Err(m)) => StopActionView::Done(Err(m@)),
    }
}

/// The state of bringing projects down: the projects, in order, and how many are down.
pub struct StopView {
    pub names: Seq<Seq<char>>,
    pub next: nat,
}

/// The first state and action: with nothing to bring down the run ends at once with
/// none; else the first project is brought down.
pub open spec fn stop_begin_spec(names: Seq<Seq<char>>) -> (StopView, StopActionView) {
    let v = StopView { names, next: 0 };
    if names.len() == 0 {
        (v, StopActionView::Done(Ok(0)))
    } else {
        (v, StopActionView::Down(names[0]))
    }
}

/// The next state and action after a project's down command ended: on success the next
/// project comes down, and after the last the run is finished; the first failure ends the
/// run with its message, and no further project is brought down.
pub open spec fn stop_step_spec(v: StopView, o: DownOutcomeView) -> (StopView, StopActionView) {
    if v.next >= v.names.len() {
        (v, StopActionView::Finished(v.names.len()))
    } else {
        match o {
            DownOutcomeView::Stopped => {
                let w = StopView { next: v.next + 1, ..v };
                if w.next < v.names.len() {
                    (w, StopActionView::Down(v.names[w.next as int]))
                } else {
                    (w, StopActionView::Finished(v.names.len()))
                }
            },
            DownOutcomeView::Failed => (
                v,
                StopActionView::Done(Err("Failed to stop service "@ + v.names[v.next as int])),
            ),
            DownOutcomeView::Error(e) => (
                v,
                StopActionView::Done(
                    Err("Error stopping service "@ + v.names[v.next as int] + ": "@ + e),
                ),
            ),
        }
    }
}

/// Bringing the running projects down before the socket stops or restarts.
pub struct StopAll {
    names: Vec<String>,
    next: usize,
}

impl View for StopAll {
    type V = StopView;

    closed spec fn view(&self) -> StopView {
        StopView { names: names_of(self.names@), next: self.next as nat }
    }
}

impl StopAll {
    /// The run over the projects that have to come down (see [`services_to_stop`]), with
    /// its first action.
    pub fn begin(services: &Vec<(String, Status)>) -> (r: (StopAll, StopAction))
        ensures
            ascending(r.0@.names),
            r.0@.names.to_multiset() == stop_names(services_view(services@)).to_multiset(),
            (r.0@, stop_action_view(r.1)) == stop_begin_spec(r.0@.names),
    {
        let names = services_to_stop(services);
        let run = StopAll { names, next: 0 };
        if run.names.len() == 0 {
            (run, StopAction::Done(Ok(0)))
        } else {
            let first = run.names[0].clone();
            (run, StopAction::Down(first))
        }
    }

    /// Takes in how the last down command ended and tells the next action (see
    /// [`stop_step_spec`]).
    pub fn down_finished(&mut self, outcome: DownOutcome) -> (a: StopAction)
        ensures
            (final(self)@, stop_action_view(a)) == stop_step_spec(
                old(self)@,
                down_outcome_view(outcome),
            ),
    {
        if self.next >= self.names.len() {
            return StopAction::Finished(self.names.len());
        }
        match outcome {
            DownOutcome::Stopped => {
                self.next = self.next + 1;
                if self.next < self.names.len() {
                    StopAction::Down(self.names[self.next].clone())
                } else {
                    StopAction::Finished(self.names.len())
                }
            },
            DownOutcome::Failed => StopAction::Done(
                Err(stop_failure_message(self.names[self.next].as_str(), None)),
            ),
            DownOutcome::Error(e) => StopAction::Done(
                Err(stop_failure_message(self.names[self.next].as_str(), Some(e.as_str()))),
            ),
        }
    }
}

/// The actions of a run from state `v`, which has just asked for `a`, when each down
/// command ends as the next of `outcomes` says; the list stops at the end of the run or
/// where the outcomes give out.
pub open spec fn stop_run(v: StopView, a: StopActionView, outcomes: Seq<DownOutcomeView>) -> Seq<
    StopActionView,
>
    decreases outcomes.len(),
{
    seq![a] + match a {
        StopActionView::Down(_) => if outcomes.len() == 0 {
            seq![]
        } else {
            let (w, b) = stop_step_spec(v, outcomes[0]);
            stop_run(w, b, outcomes.drop_first())
        },
        _ => seq![],
    }
}

/// The projects a list of actions brings down, in order.
pub open spec fn downed(actions: Seq<StopActionView>) -> Seq<Seq<char>>
    decreases actions.len(),
{
    if actions.len() == 0 {
        seq![]
    } else {
        (match actions[0] {
            StopActionView::Down(n) => seq![n],
            _ => seq![],
        }) + downed(actions.drop_first())
    }
}

/// How many outcomes come before the first that is not a success (all of them where none
/// is).
pub open spec fn first_failure(outcomes: Seq<DownOutcomeView>) -> nat
    decreases outcomes.len(),
{
    if outcomes.len() == 0 || !(outcomes[0] is Stopped) {
        0
    } else {
        1 + first_failure(outcomes.drop_first())
    }
}

proof fn lemma_downed_cons(a: StopActionView, rest: Seq<StopActionView>)
    ensures
        downed(seq![a] + rest) == (match a {
            StopActionView::Down(n) => seq![n],
            _ => seq![],
        }) + downed(rest),
{
    assert((seq![a] + rest).drop_first() =~= rest);
}

proof fn lemma_stop_run(v: StopView, outcomes: Seq<DownOutcomeView>)
    requires
        v.next < v.names.len(),
        outcomes.len() >= v.names.len() - v.next,
    ensures
        ({
            let run = stop_run(v, StopActionView::Down(v.names[v.next as int]), outcomes);
            let k = first_failure(outcomes);
            &&& k >= v.names.len() - v.next ==> downed(run) == v.names.subrange(
                v.next as int,
                v.names.len() as int,
            ) && run.last() == StopActionView::Finished(v.names.len())
            &&& k < v.names.len() - v.next ==> downed(run) == v.names.subrange(
                v.next as int,
                (v.next + k + 1) as int,
            ) && run.last() == stop_step_spec(
                StopView { next: v.next + k, ..v },
                outcomes[k as int],
            ).1
        }),
    decreases v.names.len() - v.next,
{
    let len = v.names.len();
    let a = StopActionView::Down(v.names[v.next as int]);
    let (w, b) = stop_step_spec(v, outcomes[0]);
    let rest = stop_run(w, b, outcomes.drop_first());
    let run = stop_run(v, a, outcomes);
    assert(run == seq![a] + rest);
    lemma_downed_cons(a, rest);
    assert(rest.len() > 0);
    assert(run.last() == rest.last());
    if outcomes[0] is Stopped {
        assert(first_failure(outcomes) == 1 + first_failure(outcomes.drop_first()));
        if v.next + 1 < len {
            lemma_stop_run(w, outcomes.drop_first());
            assert(v.names.subrange(v.next as int, len as int) =~= seq![v.names[v.next as int]]
                + v.names.subrange(v.next + 1 as int, len as int));
            let k = first_failure(outcomes);
            if k < len - v.next {
                assert(v.names.subrange(v.next as int, (v.next + k + 1) as int) =~= seq![
                    v.names[v.next as int],
                ] + v.names.subrange(v.next + 1 as int, (v.next + 1 + (k - 1) + 1) as int));
                assert(outcomes.drop_first()[k - 1] == outcomes[k as int]);
                assert(StopView { next: w.next + (k - 1) as nat, ..w } == StopView {
                    next: v.next + k,
                    ..v
                });
            }
        } else {
            assert(rest =~= seq![b]);
            lemma_downed_cons(b, seq![]);
            assert(v.names.subrange(v.next as int, len as int) =~= seq![v.names[v.next as int]]);
        }
    } else {
        assert(first_failure(outcomes) == 0);
        assert(rest =~= seq![b]);
        lemma_downed_cons(b, seq![]);
        assert(v.names.subrange(v.next as int, v.next + 1 as int) =~= seq![v.names[v.next as int]]);
        assert(StopView { next: v.next + 0, ..v } == v);
    }
}

/// Law: the projects are brought down one by one, in order: where every down command
/// succeeds, each project comes down once and the run finishes with their count; at the
/// first failure the run ends with that project's message, and none after it is brought
/// down. With nothing to bring down, the run ends at once with none.
pub proof fn law_stop_in_order(names: Seq<Seq<char>>, outcomes: Seq<DownOutcomeView>)
    requires
        outcomes.len() >= names.len(),
    ensures
        ({
            let run = stop_run(stop_begin_spec(names).0, stop_begin_spec(names).1, outcomes);
            let k = first_failure(outcomes);
            &&& names.len() == 0 ==> run == seq![StopActionView::Done(Ok(0))]
            &&& names.len() > 0 && k >= names.len() ==> downed(run) == names && run.last()
                == StopActionView::Finished(names.len())
            &&& names.len() > 0 && k < names.len() ==> downed(run) == names.take(k + 1 as int)
                && run.last() == stop_step_spec(
                StopView { names, next: k },
                outcomes[k as int],
            ).1
        }),
{
    if names.len() == 0 {
        let run = stop_run(stop_begin_spec(names).0, stop_begin_spec(names).1, outcomes);
        assert(run =~= seq![StopActionView::Done(Ok(0))]);
    } else {
        lemma_stop_run(StopView { names, next: 0 }, outcomes);
        assert(names.subrange(0, names.len() as int) =~= names);
        assert(names.subrange(0, first_failure(outcomes) + 1 as int) =~= names.take(
            first_failure(outcomes) + 1 as int,
        ));
    }
}

} // verus!
