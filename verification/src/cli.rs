//! The command line: the interface, or one of the auto-restart commands.
use vstd::prelude::*;

use crate::text::{owned, str_eq};

verus! {

/// What the program was asked to do.
#[derive(Clone, Copy, Debug, PartialEq, Eq, Structural)]
pub enum CommandKind {
    /// Run the terminal interface.
    Tui,
    /// Start the selected projects of the clone given as the second argument.
    AutoRestart,
    /// Install the boot unit for the clone given as the second argument, or the current
    /// directory where there is none.
    InstallAutoRestart,
    /// Remove the boot unit.
    RemoveAutoRestart,
}

/// The command a command line asks for, given its first argument (`None` where there is
/// none; `Some(None)` where it is not UTF-8) and the number of arguments after it; the
/// error for a line that is not accepted.
pub open spec fn command_mode_spec(first: Option<Option<Seq<char>>>, rest: nat) -> Result<
    CommandKind,
    Seq<char>,
> {
    match first {
        None => Ok(CommandKind::Tui),
        Some(None) => Err("command argument is not valid UTF-8"@),
        Some(Some(c)) => if c == "--auto-restart"@ {
            if rest == 0 {
                Err("--auto-restart requires a project root path"@)
            } else if rest > 1 {
                Err("--auto-restart accepts exactly one project root path"@)
            } else {
                Ok(CommandKind::AutoRestart)
            }
        } else if c == "--install-auto-restart"@ {
            if rest > 1 {
                Err("--install-auto-restart accepts at most one project root path"@)
            } else {
                Ok(CommandKind::InstallAutoRestart)
            }
        } else if c == "--remove-auto-restart"@ {
            if rest > 0 {
                Err("--remove-auto-restart takes no arguments"@)
            } else {
                Ok(CommandKind::RemoveAutoRestart)
            }
        } else {
            Err("unknown argument: "@ + c)
        },
    }
}

/// Law: with no argument the interface runs; the auto-restart run needs exactly one path,
/// the installer at most one, the removal none; any other first argument is refused with an
/// error naming it.
pub proof fn law_command_line(c: Seq<char>, rest: nat)
    ensures
        command_mode_spec(None, rest) == Ok::<CommandKind, Seq<char>>(CommandKind::Tui),
        (command_mode_spec(Some(Some("--auto-restart"@)), rest) is Ok) <==> rest == 1,
        (command_mode_spec(Some(Some("--install-auto-restart"@)), rest) is Ok) <==> rest <= 1,
        (command_mode_spec(Some(Some("--remove-auto-restart"@)), rest) is Ok) <==> rest == 0,
        c != "--auto-restart"@ && c != "--install-auto-restart"@ && c != "--remove-auto-restart"@
            ==> command_mode_spec(Some(Some(c)), rest) == Err::<CommandKind, Seq<char>>(
            "unknown argument: "@ + c,
        ),
{
    reveal_strlit("--auto-restart");
    reveal_strlit("--install-auto-restart");
    reveal_strlit("--remove-auto-restart");
    assert("--auto-restart"@.len() != "--install-auto-restart"@.len());
    assert("--auto-restart"@.len() != "--remove-auto-restart"@.len());
    assert("--install-auto-restart"@.len() != "--remove-auto-restart"@.len());
}

pub fn command_mode(first: Option<Option<&str>>, rest: usize) -> (r: Result<CommandKind, String>)
    ensures
        match r {
            Ok(k) => command_mode_spec(
                match first {
                    None => None,
                    Some(None) => Some(None),
                    Some(Some(c)) => Some(Some(c@)),
                },
                rest as nat,
            ) == Ok::<CommandKind, Seq<char>>(k),
            Err(m) => command_mode_spec(
                match first {
                    None => None,
                    Some(None) => Some(None),
                    Some(Some(c)) => Some(Some(c@)),
                },
                rest as nat,
            ) == Err::<CommandKind, Seq<char>>(m@),
        },
{
    let c = match first {
        None => return Ok(CommandKind::Tui),
        Some(None) => return Err(owned("command argument is not valid UTF-8")),
        Some(Some(c)) => c,
    };
    if str_eq(c, "--auto-restart") {
        if rest == 0 {
            Err(owned("--auto-restart requires a project root path"))
        } else if rest > 1 {
            Err(owned("--auto-restart accepts exactly one project root path"))
        } else {
            Ok(CommandKind::AutoRestart)
        }
    } else if str_eq(c, "--install-auto-restart") {
        if rest > 1 {
            Err(owned("--install-auto-restart accepts at most one project root path"))
        } else {
            Ok(CommandKind::InstallAutoRestart)
        }
    } else if str_eq(c, "--remove-auto-restart") {
        if rest > 0 {
            Err(owned("--remove-auto-restart takes no arguments"))
        } else {
            Ok(CommandKind::RemoveAutoRestart)
        }
    } else {
        let mut m = owned("unknown argument: ");
        m.append(c);
        Err(m)
    }
}

} // verus!
