//! The boot run of the auto-restart selection: wait until the container runtime answers,
//! then start each selected project once, in order, and report the failures together.
use vstd::prelude::*;

use crate::auto_restart::{start_outcome, strictly_sorted, AutoRestartConfig};
use crate::text::{join, owned, strings_view};

verus! {

/// How many times the runtime is probed before the run gives up.
pub const MAX_PROBES: u32 = 30;

/// How long the run waits between two probes, in milliseconds.
pub const PROBE_DELAY_MS: u64 = 2000;

/// What the boot run asks to be done next.
#[derive(Debug)]
pub enum BootAction {
    /// Ask the runtime whether it is up.
    Probe,
    /// Wait this many milliseconds.
    Sleep(u64),
    /// Start this project.
    Start(String),
    /// The run is over, with this outcome.
    Done(Result<(), String>),
}

/// What came of the last action.
pub enum BootEvent {
    /// The probe found the runtime up, or not.
    Ready(bool),
    /// The wait is over.
    Slept,
    /// The project started, or failed to with this error.
    Started(Result<(), String>),
}

/// The plain values of a [`BootAction`].
pub enum BootActionView {
    Probe,
    Sleep(u64),
    Start(Seq<char>),
    Done(Result<(), Seq<char>>),
}

/// The plain values of a [`BootEvent`] (a failed start by its error).
pub enum BootEventView {
    Ready(bool),
    Slept,
    Started(Option<Seq<char>>),
}

pub open spec fn action_view(a: BootAction) -> BootActionView {
    match a {
        BootAction::Probe => BootActionView::Probe,
        BootAction::Sleep(ms) => BootActionView::Sleep(ms),
        BootAction::Start(name) => BootActionView::Start(name@),
        BootAction::Done(Ok(())) => BootActionView::Done(Ok(())),
        BootAction::Done(Err(m)) => BootActionView::Done(Err(m@)),
    }
}

pub open spec fn event_view(e: BootEvent) -> BootEventView {
    match e {
        BootEvent::Ready(up) => BootEventView::Ready(up),
        BootEvent::Slept => BootEventView::Slept,
        BootEvent::Started(Ok(())) => BootEventView::Started(None),
        BootEvent::Started(Err(m)) => BootEventView::Started(Some(m@)),
    }
}

/// The state of a boot run: the selected projects, how many probes were made, how many
/// projects were started, and the errors of those that failed to start.
pub struct BootView {
    pub selection: Seq<Seq<char>>,
    pub probes: nat,
    pub next: nat,
    pub failures: Seq<Seq<char>>,
}

/// The error of a run whose runtime never answered.
pub open spec fn not_ready_message() -> Seq<char> {
    "Docker daemon did not become ready after 30 attempts"@
}

/// How a run that started every selected project ends: success where none failed, else
/// one error holding all the errors, separated by "; ".
pub open spec fn outcome_spec(failures: Seq<Seq<char>>) -> Result<(), Seq<char>> {
    if failures.len() == 0 {
        Ok(())
    } else {
        Err(join(failures, "; "@))
    }
}

/// Start the next project not started yet, else end the run.
pub open spec fn start_next(v: BootView) -> (BootView, BootActionView) {
    if v.next < v.selection.len() {
        (v, BootActionView::Start(v.selection[v.next as int]))
    } else {
        (v, BootActionView::Done(outcome_spec(v.failures)))
    }
}

/// A run's first state and action: an empty selection ends at once; else the runtime is
/// probed a first time.
pub open spec fn begin_spec(selection: Seq<Seq<char>>) -> (BootView, BootActionView) {
    let v = BootView { selection, probes: 1, next: 0, failures: seq![] };
    if selection.len() == 0 {
        (v, BootActionView::Done(Ok(())))
    } else {
        (v, BootActionView::Probe)
    }
}

/// The next state and action after an event.
///
/// A runtime that is up lets the starts begin; one that is not is probed again after a
/// wait, up to [`MAX_PROBES`] probes in all, after which the run fails. After each start,
/// failed or not, the next project is started; after the last, the run ends.
pub open spec fn boot_step_spec(v: BootView, ev: BootEventView) -> (BootView, BootActionView) {
    match ev {
        BootEventView::Ready(true) => start_next(v),
        BootEventView::Ready(false) => if v.probes < 30 {
            (v, BootActionView::Sleep(2000))
        } else {
            (v, BootActionView::Done(Err(not_ready_message())))
        },
        BootEventView::Slept => if v.probes < 30 {
            (BootView { probes: v.probes + 1, ..v }, BootActionView::Probe)
        } else {
            (v, BootActionView::Done(Err(not_ready_message())))
        },
        BootEventView::Started(r) => if v.next < v.selection.len() {
            start_next(
                BootView {
                    next: v.next + 1,
                    failures: match r {
                        Some(e) => v.failures.push(e),
                        None => v.failures,
                    },
                    ..v
                },
            )
        } else {
            start_next(v)
        },
    }
}

/// A boot run in progress.
pub struct BootRun {
    selection: Vec<String>,
    probes: u32,
    next: usize,
    failures: Vec<String>,
}

impl View for BootRun {
    type V = BootView;

    closed spec fn view(&self) -> BootView {
        BootView {
            selection: strings_view(self.selection@),
            probes: self.probes as nat,
            next: self.next as nat,
            failures: strings_view(self.failures@),
        }
    }
}

impl BootRun {
    /// The run of a selection, with its first action. The selection names each project
    /// once, in ascending order.
    pub fn begin(config: &AutoRestartConfig) -> (r: (BootRun, BootAction))
        ensures
            (r.0@, action_view(r.1)) == begin_spec(config@),
            strictly_sorted(r.0@.selection),
    {
        let selection = config.services();
        let run = BootRun { selection, probes: 1, next: 0, failures: Vec::new() };
        assert(strings_view(run.failures@) =~= Seq::<Seq<char>>::empty());
        if run.selection.len() == 0 {
            (run, BootAction::Done(Ok(())))
        } else {
            (run, BootAction::Probe)
        }
    }

    /// How many probes the run has made.
    pub fn probes(&self) -> (n: u32)
        ensures
            n == self@.probes,
    {
        self.probes
    }

    fn next_start(&self) -> (a: BootAction)
        ensures
            action_view(a) == start_next(self@).1,
    {
        if self.next < self.selection.len() {
            BootAction::Start(self.selection[self.next].clone())
        } else {
            match start_outcome(&self.failures) {
                Ok(()) => BootAction::Done(Ok(())),
                Err(m) => BootAction::Done(Err(m)),
            }
        }
    }

    /// Takes in what came of the last action and tells the next (see [`boot_step_spec`]).
    pub fn step(&mut self, ev: BootEvent) -> (a: BootAction)
        ensures
            (final(self)@, action_view(a)) == boot_step_spec(old(self)@, event_view(ev)),
    {
        let not_ready = "Docker daemon did not become ready after 30 attempts";
        match ev {
            BootEvent::Ready(true) => self.next_start(),
            BootEvent::Ready(false) => if self.probes < MAX_PROBES {
                BootAction::Sleep(PROBE_DELAY_MS)
            } else {
                BootAction::Done(Err(owned(not_ready)))
            },
            BootEvent::Slept => if self.probes < MAX_PROBES {
                self.probes = self.probes + 1;
                BootAction::Probe
            } else {
                BootAction::Done(Err(owned(not_ready)))
            },
            BootEvent::Started(r) => {
                if self.next < self.selection.len() {
                    self.next = self.next + 1;
                    match r {
                        Ok(()) => {},
                        Err(e) => {
                            let ghost before = self.failures@;
                            let ghost ev = e@;
                            self.failures.push(e);
                            assert(strings_view(self.failures@) =~= strings_view(before).push(ev));
                        },
                    }
                }
                self.next_start()
            },
        }
    }
}

/// The errors of the starts that failed, in order.
pub open spec fn start_errors(results: Seq<Option<Seq<char>>>) -> Seq<Seq<char>>
    decreases results.len(),
{
    if results.len() == 0 {
        seq![]
    } else {
        (match results[0] {
            Some(e) => seq![e],
            None => seq![],
        }) + start_errors(results.drop_first())
    }
}

/// The weight of an action in the measure of [`run_actions`].
pub open spec fn action_weight(a: BootActionView) -> nat {
    match a {
        BootActionView::Probe => 1,
        BootActionView::Sleep(_) => 2,
        _ => 0,
    }
}

/// The actions of a run from state `v`, which has just asked for `a`, when each probe is
/// answered by the next of `answers`, each wait ends, and each start ends as the next of
/// `results` says; the list stops at the end of the run, or where the answers or results
/// give out.
pub open spec fn run_actions(
    v: BootView,
    a: BootActionView,
    answers: Seq<bool>,
    results: Seq<Option<Seq<char>>>,
) -> Seq<BootActionView>
    decreases 2 * answers.len() + results.len() + action_weight(a),
{
    seq![a] + match a {
        BootActionView::Probe => if answers.len() == 0 {
            seq![]
        } else {
            let (v2, a2) = boot_step_spec(v, BootEventView::Ready(answers[0]));
            run_actions(v2, a2, answers.drop_first(), results)
        },
        BootActionView::Sleep(_) => {
            let (v2, a2) = boot_step_spec(v, BootEventView::Slept);
            run_actions(v2, a2, answers, results)
        },
        BootActionView::Start(_) => if results.len() == 0 {
            seq![]
        } else {
            let (v2, a2) = boot_step_spec(v, BootEventView::Started(results[0]));
            run_actions(v2, a2, answers, results.drop_first())
        },
        BootActionView::Done(_) => seq![],
    }
}

/// The projects a list of actions starts, in order.
pub open spec fn started_names(actions: Seq<BootActionView>) -> Seq<Seq<char>>
    decreases actions.len(),
{
    if actions.len() == 0 {
        seq![]
    } else {
        (match actions[0] {
            BootActionView::Start(n) => seq![n],
            _ => seq![],
        }) + started_names(actions.drop_first())
    }
}

/// How many answers come before the first that finds the runtime up (all of them where
/// none does).
pub open spec fn first_ready(answers: Seq<bool>) -> nat
    decreases answers.len(),
{
    if answers.len() == 0 || answers[0] {
        0
    } else {
        1 + first_ready(answers.drop_first())
    }
}

/// The actions of a whole run of a selection (see [`run_actions`]).
pub open spec fn boot_run(
    selection: Seq<Seq<char>>,
    answers: Seq<bool>,
    results: Seq<Option<Seq<char>>>,
) -> Seq<BootActionView> {
    run_actions(begin_spec(selection).0, begin_spec(selection).1, answers, results)
}

proof fn lemma_started_names_cons(a: BootActionView, rest: Seq<BootActionView>)
    ensures
        started_names(seq![a] + rest) == (match a {
            BootActionView::Start(n) => seq![n],
            _ => seq![],
        }) + started_names(rest),
{
    assert((seq![a] + rest).drop_first() =~= rest);
}

/// Once the runtime is up, the run starts the projects not started yet, each once and in
/// order, and ends with all their errors.
proof fn lemma_start_phase(v: BootView, answers: Seq<bool>, results: Seq<Option<Seq<char>>>)
    requires
        v.next <= v.selection.len(),
        results.len() >= v.selection.len() - v.next,
    ensures
        started_names(run_actions(v, start_next(v).1, answers, results)) == v.selection.subrange(
            v.next as int,
            v.selection.len() as int,
        ),
        run_actions(v, start_next(v).1, answers, results).last() == BootActionView::Done(
            outcome_spec(
                v.failures + start_errors(results.take(v.selection.len() - v.next)),
            ),
        ),
    decreases v.selection.len() - v.next,
{
    let len = v.selection.len();
    let a = start_next(v).1;
    let run = run_actions(v, a, answers, results);
    if v.next == len {
        assert(run =~= seq![a]);
        assert(results.take(0) =~= Seq::<Option<Seq<char>>>::empty());
        assert(v.failures + start_errors(results.take(0)) =~= v.failures);
        lemma_started_names_cons(a, seq![]);
        assert(v.selection.subrange(len as int, len as int) =~= Seq::<Seq<char>>::empty());
    } else {
        let k = (len - v.next) as int;
        let v2 = BootView {
            next: v.next + 1,
            failures: match results[0] {
                Some(e) => v.failures.push(e),
                None => v.failures,
            },
            ..v
        };
        let a2 = start_next(v2).1;
        let rest = run_actions(v2, a2, answers, results.drop_first());
        assert(run == seq![a] + rest);
        lemma_start_phase(v2, answers, results.drop_first());
        lemma_started_names_cons(a, rest);
        assert(v.selection.subrange(v.next as int, len as int) =~= seq![v.selection[v.next as int]]
            + v.selection.subrange(v.next + 1 as int, len as int));
        assert(rest.len() > 0);
        assert(run.last() == rest.last());
        assert(results.take(k).drop_first() =~= results.drop_first().take(k - 1));
        assert(results.take(k)[0] == results[0]);
        assert(v2.failures + start_errors(results.drop_first().take(k - 1)) =~= v.failures
            + start_errors(results.take(k)));
    }
}

/// While the runtime is down the run starts nothing: it probes until an answer finds the
/// runtime up, at most [`MAX_PROBES`] times in all, then goes on as from a first start; or
/// it ends with the not-ready error.
proof fn lemma_wait_phase(v: BootView, answers: Seq<bool>, results: Seq<Option<Seq<char>>>)
    requires
        1 <= v.probes <= 30,
    ensures
        first_ready(answers) < answers.len() && first_ready(answers) <= 30 - v.probes ==> {
            let w = BootView { probes: v.probes + first_ready(answers), ..v };
            let after = run_actions(
                w,
                start_next(w).1,
                answers.skip(first_ready(answers) + 1 as int),
                results,
            );
            &&& started_names(run_actions(v, BootActionView::Probe, answers, results))
                == started_names(after)
            &&& run_actions(v, BootActionView::Probe, answers, results).last() == after.last()
        },
        answers.len() >= 31 - v.probes && first_ready(answers) >= 31 - v.probes ==> {
            &&& started_names(run_actions(v, BootActionView::Probe, answers, results)) == Seq::<Seq<char>>::empty()
            &&& run_actions(v, BootActionView::Probe, answers, results).last()
                == BootActionView::Done(Err(not_ready_message()))
        },
    decreases answers.len(),
{
    let run = run_actions(v, BootActionView::Probe, answers, results);
    if answers.len() == 0 {
    } else if answers[0] {
        let rest = run_actions(v, start_next(v).1, answers.drop_first(), results);
        assert(run == seq![BootActionView::Probe] + rest);
        lemma_started_names_cons(BootActionView::Probe, rest);
        assert(BootView { probes: v.probes + 0, ..v } == v);
        assert(answers.skip(1) =~= answers.drop_first());
        assert(rest.len() > 0);
    } else if v.probes == 30 {
        let done = BootActionView::Done(Err(not_ready_message()));
        assert(run == seq![BootActionView::Probe] + run_actions(v, done, answers.drop_first(), results));
        assert(run_actions(v, done, answers.drop_first(), results) =~= seq![done]);
        lemma_started_names_cons(BootActionView::Probe, seq![done]);
        lemma_started_names_cons(done, seq![]);
    } else {
        let up = BootView { probes: v.probes + 1, ..v };
        let rest = run_actions(up, BootActionView::Probe, answers.drop_first(), results);
        let slept = run_actions(v, BootActionView::Sleep(2000), answers.drop_first(), results);
        assert(slept == seq![BootActionView::Sleep(2000)] + rest);
        assert(run == seq![BootActionView::Probe] + slept);
        lemma_started_names_cons(BootActionView::Probe, slept);
        lemma_started_names_cons(BootActionView::Sleep(2000), rest);
        lemma_wait_phase(up, answers.drop_first(), results);
        assert(rest.len() > 0);
        assert(slept.last() == rest.last());
        assert(run.last() == slept.last());
        if first_ready(answers) < answers.len() && first_ready(answers) <= 30 - v.probes {
            assert(answers.drop_first().skip(first_ready(answers.drop_first()) + 1 as int)
                =~= answers.skip(first_ready(answers) + 1 as int));
            assert(BootView { probes: up.probes + first_ready(answers.drop_first()), ..up }
                == BootView { probes: v.probes + first_ready(answers), ..v });
        }
    }
}

/// Law: a boot run with an empty selection ends at once, successfully, probing nothing.
/// Otherwise, where the runtime comes up within [`MAX_PROBES`] probes, the run starts
/// exactly the selected projects, each once and in their order, whichever of them fail,
/// and ends with success where none failed, else with all their errors; where it does not
/// come up, the run starts no project and ends with the not-ready error.
pub proof fn law_boot_run(
    selection: Seq<Seq<char>>,
    answers: Seq<bool>,
    results: Seq<Option<Seq<char>>>,
)
    ensures
        selection.len() == 0 ==> boot_run(selection, answers, results) == seq![
            BootActionView::Done(Ok(())),
        ],
        selection.len() > 0 && first_ready(answers) < answers.len() && first_ready(answers) < 30
            && results.len() >= selection.len() ==> started_names(
            boot_run(selection, answers, results),
        ) == selection && boot_run(selection, answers, results).last() == BootActionView::Done(
            outcome_spec(start_errors(results.take(selection.len() as int))),
        ),
        selection.len() > 0 && answers.len() >= 30 && first_ready(answers) >= 30 ==> started_names(
            boot_run(selection, answers, results),
        ) == Seq::<Seq<char>>::empty() && boot_run(selection, answers, results).last()
            == BootActionView::Done(Err(not_ready_message())),
{
    let (v, a) = begin_spec(selection);
    if selection.len() == 0 {
        assert(boot_run(selection, answers, results) =~= seq![BootActionView::Done(Ok(()))]);
    } else {
        lemma_wait_phase(v, answers, results);
        if first_ready(answers) < answers.len() && first_ready(answers) < 30 && results.len()
            >= selection.len() {
            let w = BootView { probes: v.probes + first_ready(answers), ..v };
            lemma_start_phase(w, answers.skip(first_ready(answers) + 1 as int), results);
            assert(selection.subrange(0, selection.len() as int) =~= selection);
            assert(Seq::<Seq<char>>::empty() + start_errors(results.take(selection.len() as int))
                =~= start_errors(results.take(selection.len() as int)));
        }
    }
}

} // verus!
