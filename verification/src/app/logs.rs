//! Live-log followers: when each project's follower is stopped or started, and the text
//! shown for a project that is already up when the manager starts.
use vstd::prelude::*;

use crate::text::owned;

verus! {

/// What to do with one project's live-log follower.
#[derive(Debug)]
pub struct LiveLogAction {
    pub stop_follower: bool,
    pub start_follower: bool,
}

/// The follower of a project that does not run is stopped; a running project gets a
/// follower while the live view is shown and retrying is allowed, unless its follower
/// process is still alive (a dead follower is cleared first).
pub fn live_log_action(
    running: bool,
    has_follower: bool,
    process_active: bool,
    live_view_shown: bool,
    can_retry: bool,
) -> (a: LiveLogAction)
    ensures
        !running ==> a.stop_follower == has_follower && !a.start_follower,
        running && (!live_view_shown || !can_retry || process_active) ==> !a.stop_follower
            && !a.start_follower,
        running && live_view_shown && can_retry && !process_active ==> a.stop_follower
            == has_follower && a.start_follower,
{
    if !running {
        return LiveLogAction { stop_follower: has_follower, start_follower: false };
    }
    if !live_view_shown || !can_retry || process_active {
        return LiveLogAction { stop_follower: false, start_follower: false };
    }
    LiveLogAction { stop_follower: has_follower, start_follower: true }
}

/// Whether followers may be started this frame, and the cooldown left: a running
/// cooldown counts down and forbids it.
pub fn live_log_retry(cooldown: u8) -> (r: (bool, u8))
    ensures
        r.0 == (cooldown == 0),
        r.1 == (if cooldown == 0 {
            0
        } else {
            cooldown - 1
        }),
{
    if cooldown == 0 {
        (true, 0)
    } else {
        (false, cooldown - 1)
    }
}

/// The cooldown after this frame: restarted where a follower failed to start.
pub fn live_log_cooldown_after(cooldown: u8, retry_needed: bool) -> (r: u8)
    ensures
        r == (if retry_needed {
            crate::app::state::LIVE_LOG_RETRY_COOLDOWN_TICKS
        } else {
            cooldown
        }),
{
    if retry_needed {
        crate::app::state::LIVE_LOG_RETRY_COOLDOWN_TICKS
    } else {
        cooldown
    }
}

/// The lines shown for a project that is already up: its network and each of its
/// containers reported running, under the `Up output:` header.
pub open spec fn initial_up_text_spec(project: Seq<char>, services: Seq<Seq<char>>) -> Seq<char>
    decreases services.len(),
{
    if services.len() == 0 {
        "Up output:\nNetwork "@ + project + "_default Running\n"@
    } else {
        initial_up_text_spec(project, services.drop_last()) + "Container "@ + services.last()
            + " Running\n"@
    }
}

pub fn initial_up_text(project: &str, services: &Vec<String>) -> (r: String)
    ensures
        r@ == initial_up_text_spec(project@, services@.map_values(|s: String| s@)),
{
    let ghost sv = services@.map_values(|s: String| s@);
    let mut text = owned("Up output:\nNetwork ");
    text.append(project);
    text.append("_default Running\n");
    let mut i: usize = 0;
    assert(sv.take(0) =~= Seq::<Seq<char>>::empty());
    while i < services.len()
        invariant
            i <= services@.len(),
            sv == services@.map_values(|s: String| s@),
            text@ == initial_up_text_spec(project@, sv.take(i as int)),
        decreases services.len() - i,
    {
        assert(sv.take(i + 1).drop_last() =~= sv.take(i as int));
        assert(sv.take(i + 1).last() == services@[i as int]@);
        text.append("Container ");
        text.append(services[i].as_str());
        text.append(" Running\n");
        i = i + 1;
    }
    assert(sv.take(services.len() as int) =~= sv);
    text
}

} // verus!
