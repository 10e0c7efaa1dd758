//! Messages of the Podman API socket control.
use vstd::prelude::*;
use vstd::string::*;

use crate::text::{owned, trim, trim_spec};

verus! {

/// The result of a `systemctl <action>` that ran: success, or the failure with what it
/// printed on standard error (trimmed) where that is not empty.
pub fn systemctl_result(action: &str, success: bool, stderr: &str) -> (r: Result<(), String>)
    ensures
        success ==> r is Ok,
        !success && trim_spec(stderr@).len() == 0 ==> (r matches Err(m) && m@ == "Failed to "@
            + action@ + " Podman service"@),
        !success && trim_spec(stderr@).len() > 0 ==> (r matches Err(m) && m@ == "Failed to "@
            + action@ + " Podman service: "@ + trim_spec(stderr@)),
{
    if success {
        return Ok(());
    }
    let trimmed = trim(stderr);
    let mut m = owned("Failed to ");
    m.append(action);
    if trimmed.is_empty() {
        m.append(" Podman service");
    } else {
        m.append(" Podman service: ");
        m.append(trimmed);
    }
    Err(m)
}

/// The failure of a `systemctl <action>` that could not be run.
pub fn systemctl_spawn_error(action: &str, error: &str) -> (m: String)
    ensures
        m@ == "Failed to "@ + action@ + " Podman service: "@ + error@,
{
    let mut m = owned("Failed to ");
    m.append(action);
    m.append(" Podman service: ");
    m.append(error);
    m
}

/// The failure reported when the socket did not reach the expected state after `action`.
pub open spec fn daemon_state_error_spec(expected_active: bool, action: Seq<char>) -> Seq<char> {
    "Podman service did not become "@ + (if expected_active {
        "running"@
    } else {
        "stopped"@
    }) + " after "@ + action
}

pub fn daemon_state_error(expected_active: bool, action: &str) -> (m: String)
    ensures
        m@ == daemon_state_error_spec(expected_active, action@),
{
    let mut m = owned("Podman service did not become ");
    if expected_active {
        m.append("running");
    } else {
        m.append("stopped");
    }
    m.append(" after ");
    m.append(action);
    m
}

/// How many times, 100 ms apart, the socket state is polled after an action.
pub const DAEMON_STATE_RETRIES: usize = 20;

/// What the socket control asks the application to do next.
#[derive(Debug)]
pub enum DaemonCommand {
    /// Run `systemctl <action> podman.socket`.
    RunSystemctl(String),
    /// Ask whether `podman.socket` is active.
    CheckActive,
    /// Wait this many milliseconds.
    Sleep(u64),
    /// The control is over, with its result.
    Done(Result<(), String>),
}

/// Starting, stopping or restarting the Podman API socket: the action is run, then the
/// socket's state is polled until it is the expected one, at most
/// [`DAEMON_STATE_RETRIES`] times, 100 ms apart.
#[derive(Debug)]
pub struct DaemonControl {
    action: String,
    expected_active: bool,
    polls: usize,
}

impl View for DaemonControl {
    type V = (Seq<char>, bool, nat);

    closed spec fn view(&self) -> (Seq<char>, bool, nat) {
        (self.action@, self.expected_active, self.polls as nat)
    }
}

impl DaemonControl {
    #[verifier::type_invariant]
    spec fn bounded(&self) -> bool {
        self.polls <= DAEMON_STATE_RETRIES
    }

    /// The command that begins the control: running the action.
    pub fn first_command(&self) -> (c: DaemonCommand)
        ensures
            c matches DaemonCommand::RunSystemctl(a) && a@ == self@.0,
    {
        DaemonCommand::RunSystemctl(self.action.clone())
    }

    /// After the action ran: a failure ends the control with it; success starts polling.
    pub fn systemctl_finished(&self, result: Result<(), String>) -> (c: DaemonCommand)
        ensures
            result is Ok ==> c is CheckActive,
            result matches Err(m) ==> (c matches DaemonCommand::Done(Err(n)) && n@ == m@),
    {
        match result {
            Ok(()) => DaemonCommand::CheckActive,
            Err(m) => DaemonCommand::Done(Err(m)),
        }
    }

    /// After a poll: the expected state ends the control with success; otherwise the
    /// control waits 100 ms, and fails once the polls are used up.
    pub fn state_checked(&mut self, active: bool) -> (c: DaemonCommand)
        ensures
            active == old(self)@.1 ==> (c matches DaemonCommand::Done(Ok(()))) && final(self)@
                == old(self)@,
            active != old(self)@.1 && old(self)@.2 < DAEMON_STATE_RETRIES ==> c
                == DaemonCommand::Sleep(100) && final(self)@ == (
                old(self)@.0,
                old(self)@.1,
                old(self)@.2 + 1,
            ),
            active != old(self)@.1 && old(self)@.2 >= DAEMON_STATE_RETRIES ==> final(self)@
                == old(self)@ && (c matches DaemonCommand::Done(Err(m)) && m@
                == daemon_state_error_spec(old(self)@.1, old(self)@.0)),
    {
        proof {
            use_type_invariant(&*self);
        }
        if active == self.expected_active {
            return DaemonCommand::Done(Ok(()));
        }
        if self.polls < DAEMON_STATE_RETRIES {
            self.polls = self.polls + 1;
            DaemonCommand::Sleep(100)
        } else {
            DaemonCommand::Done(Err(daemon_state_error(self.expected_active, self.action.as_str())))
        }
    }

    /// After a wait: poll again while polls are left, else fail.
    pub fn slept(&self) -> (c: DaemonCommand)
        ensures
            self@.2 < DAEMON_STATE_RETRIES ==> c is CheckActive,
            self@.2 >= DAEMON_STATE_RETRIES ==> (c matches DaemonCommand::Done(Err(m)) && m@
                == daemon_state_error_spec(self@.1, self@.0)),
    {
        if self.polls < DAEMON_STATE_RETRIES {
            DaemonCommand::CheckActive
        } else {
            DaemonCommand::Done(Err(daemon_state_error(self.expected_active, self.action.as_str())))
        }
    }
}

/// The control of one socket action.
fn control(action: &str, expected_active: bool) -> (d: DaemonControl)
    ensures
        d@ == (action@, expected_active, 0nat),
{
    DaemonControl { action: owned(action), expected_active, polls: 0 }
}

/// Starting the socket; it is to become active.
pub fn start() -> (d: DaemonControl)
    ensures
        d@ == ("start"@, true, 0nat),
{
    control("start", true)
}

/// Stopping the socket; it is to become inactive.
pub fn stop() -> (d: DaemonControl)
    ensures
        d@ == ("stop"@, false, 0nat),
{
    control("stop", false)
}

/// Restarting the socket; it is to become active.
pub fn restart() -> (d: DaemonControl)
    ensures
        d@ == ("restart"@, true, 0nat),
{
    control("restart", true)
}

} // verus!
