//! The systemd unit that starts the selected projects at boot.
use vstd::prelude::*;
use vstd::string::*;

use crate::text::{chars_of, is_ascii_alnum_spec, is_ascii_alphanumeric, owned, push_char};

verus! {

/// Where the unit is installed.
pub const SYSTEMD_UNIT_DIR: &'static str = "/etc/systemd/system";

/// The unit's name.
pub const UNIT_NAME: &'static str = "argv-podman-manager-autorestart.service";

/// One character escaped for a quoted systemd value: backslash and quote are
/// backslash-escaped and `%` is doubled, so that no specifier is expanded.
pub open spec fn escape_char(c: char) -> Seq<char> {
    if c == '\\' {
        seq!['\\', '\\']
    } else if c == '"' {
        seq!['\\', '"']
    } else if c == '%' {
        seq!['%', '%']
    } else {
        seq![c]
    }
}

pub open spec fn escape_spec(s: Seq<char>) -> Seq<char>
    decreases s.len(),
{
    if s.len() == 0 {
        seq![]
    } else {
        escape_spec(s.drop_last()) + escape_char(s.last())
    }
}

/// Law: escaping works character by character: the escape of two texts laid end to end is
/// their escapes laid end to end; a text with no backslash, quote or `%` is its own escape;
/// and the escape is never shorter than the text.
pub proof fn law_escape_by_character(a: Seq<char>, b: Seq<char>)
    ensures
        escape_spec(a + b) == escape_spec(a) + escape_spec(b),
        (forall|i: int| 0 <= i < a.len() ==> #[trigger] a[i] != '\\' && a[i] != '"' && a[i] != '%')
            ==> escape_spec(a) == a,
        escape_spec(a).len() >= a.len(),
    decreases b.len(), a.len(),
{
    if b.len() > 0 {
        law_escape_by_character(a, b.drop_last());
        assert((a + b).drop_last() =~= a + b.drop_last());
        assert((a + b).last() == b.last());
        assert(escape_spec(a) + escape_spec(b.drop_last()) + escape_char(b.last()) =~= escape_spec(a)
            + (escape_spec(b.drop_last()) + escape_char(b.last())));
    } else {
        assert(a + b =~= a);
        assert(escape_spec(b) =~= Seq::<char>::empty());
        assert(escape_spec(a) + escape_spec(b) =~= escape_spec(a));
        if a.len() > 0 {
            law_escape_by_character(a.drop_last(), b);
            if forall|i: int| 0 <= i < a.len() ==> #[trigger] a[i] != '\\' && a[i] != '"' && a[i]
                != '%' {
                assert forall|i: int| 0 <= i < a.drop_last().len() implies #[trigger] a.drop_last()[i]
                    != '\\' && a.drop_last()[i] != '"' && a.drop_last()[i] != '%' by {
                    assert(a.drop_last()[i] == a[i]);
                }
                assert(a.last() == a[a.len() - 1]);
                assert(a.drop_last() + seq![a.last()] =~= a);
            }
        }
    }
}

/// Law: the unit runs as the user who called sudo, unless that is root, in which case (or
/// without sudo) as `USER`; the chosen name must be a plain user name, else the install is
/// refused naming it.
pub proof fn law_service_user(sudo_user: Option<Seq<char>>, user: Option<Seq<char>>)
    ensures
        (sudo_user matches Some(s) && s != "root"@) ==> (service_user_spec(sudo_user, user)
            is Ok <==> valid_user_spec(sudo_user->0)),
        (sudo_user matches Some(s) && s != "root"@ && valid_user_spec(s)) ==> service_user_spec(
            sudo_user,
            user,
        ) == Ok::<Seq<char>, Seq<char>>(sudo_user->0),
        (sudo_user is None || sudo_user == Some("root"@)) ==> service_user_spec(sudo_user, user)
            == service_user_spec(None, user),
        service_user_spec(None, user) is Ok ==> service_user_spec(None, user) == Ok::<
            Seq<char>,
            Seq<char>,
        >(user->0) && valid_user_spec(user->0),
{
}

/// A path systemd cannot hold in a unit: it contains a line break or a NUL.
pub open spec fn unsupported_path(s: Seq<char>) -> bool {
    exists|i: int| 0 <= i < s.len() && (s[i] == '\n' || s[i] == '\r' || s[i] == '\0')
}

/// The path escaped for a quoted unit value, or the reason it cannot be used.
pub fn escape_unit_value(path: &str) -> (r: Result<String, String>)
    ensures
        r is Ok <==> !unsupported_path(path@),
        r matches Ok(v) ==> v@ == escape_spec(path@),
        r matches Err(m) ==> m@ == "path contains characters unsupported by systemd: "@ + path@,
{
    let v = chars_of(path);
    let mut out = String::new();
    let mut i: usize = 0;
    assert(v@.take(0) =~= Seq::<char>::empty());
    while i < v.len()
        invariant
            i <= v.len(),
            v@ == path@,
            out@ == escape_spec(v@.take(i as int)),
            forall|k: int| 0 <= k < i ==> !(v@[k] == '\n' || v@[k] == '\r' || v@[k] == '\0'),
        decreases v.len() - i,
    {
        let c = v[i];
        if c == '\n' || c == '\r' || c == '\0' {
            let prefix = "path contains characters unsupported by systemd: ";
            proof {
                reveal_strlit("path contains characters unsupported by systemd: ");
            }
            let mut m = owned(prefix);
            m.append(path);
            return Err(m);
        }
        if c == '\\' {
            push_char(&mut out, '\\');
            push_char(&mut out, '\\');
        } else if c == '"' {
            push_char(&mut out, '\\');
            push_char(&mut out, '"');
        } else if c == '%' {
            push_char(&mut out, '%');
            push_char(&mut out, '%');
        } else {
            push_char(&mut out, c);
        }
        proof {
            assert(v@.take(i + 1).drop_last() =~= v@.take(i as int));
            assert(v@.take(i + 1).last() == c);
            assert(out@ =~= escape_spec(v@.take(i + 1)));
        }
        i = i + 1;
    }
    assert(v@.take(v.len() as int) =~= v@);
    Ok(out)
}

/// A user name systemd accepts here: not empty, ASCII letters, digits, `-`, `_` and `.`.
pub open spec fn valid_user_spec(user: Seq<char>) -> bool {
    user.len() > 0 && forall|i: int|
        0 <= i < user.len() ==> is_ascii_alnum_spec(#[trigger] user[i]) || user[i] == '-'
            || user[i] == '_' || user[i] == '.'
}

pub fn validate_user(user: &str) -> (r: Result<(), String>)
    ensures
        r is Ok <==> valid_user_spec(user@),
        r matches Err(m) ==> m@ == "invalid systemd service user: "@ + user@,
{
    let v = chars_of(user);
    let mut ok = v.len() > 0;
    let mut i: usize = 0;
    while i < v.len()
        invariant
            i <= v.len(),
            v@ == user@,
            ok == (v.len() > 0 && forall|k: int|
                0 <= k < i ==> is_ascii_alnum_spec(#[trigger] v@[k]) || v@[k] == '-' || v@[k]
                    == '_' || v@[k] == '.'),
        decreases v.len() - i,
    {
        let c = v[i];
        if !(is_ascii_alphanumeric(c) || c == '-' || c == '_' || c == '.') {
            ok = false;
        }
        i = i + 1;
    }
    if ok {
        Ok(())
    } else {
        let prefix = "invalid systemd service user: ";
        proof {
            reveal_strlit("invalid systemd service user: ");
        }
        let mut m = owned(prefix);
        m.append(user);
        Err(m)
    }
}

/// The unit text for the given (escaped) executable, (escaped) clone and user.
pub open spec fn unit_text(executable: Seq<char>, project_root: Seq<char>, user: Seq<char>) -> Seq<
    char,
> {
    "[Unit]\nDescription=Start ARGV Docker Manager selected projects\nRequires=docker.service\nAfter=docker.service network-online.target\nWants=network-online.target\n\n[Service]\nType=oneshot\nUser="@
        + user + "\nWorkingDirectory="@ + project_root + "\nExecStart=\""@ + executable
        + "\" --auto-restart \""@ + project_root
        + "\"\nRemainAfterExit=yes\n\n[Install]\nWantedBy=multi-user.target\n"@
}

/// The unit that runs `executable --auto-restart <project_root>` as `user` at boot.
pub fn render_unit(executable: &str, project_root: &str, user: &str) -> (r: Result<String, String>)
    ensures
        r is Ok <==> (!unsupported_path(executable@) && !unsupported_path(project_root@)
            && valid_user_spec(user@)),
        r matches Ok(u) ==> u@ == unit_text(
            escape_spec(executable@),
            escape_spec(project_root@),
            user@,
        ),
        unsupported_path(executable@) ==> (r matches Err(m) && m@
            == "path contains characters unsupported by systemd: "@ + executable@),
        !unsupported_path(executable@) && unsupported_path(project_root@) ==> (r matches Err(m)
            && m@ == "path contains characters unsupported by systemd: "@ + project_root@),
        !unsupported_path(executable@) && !unsupported_path(project_root@) && !valid_user_spec(
            user@,
        ) ==> (r matches Err(m) && m@ == "invalid systemd service user: "@ + user@),
{
    let executable = match escape_unit_value(executable) {
        Ok(v) => v,
        Err(m) => return Err(m),
    };
    let project_root = match escape_unit_value(project_root) {
        Ok(v) => v,
        Err(m) => return Err(m),
    };
    match validate_user(user) {
        Ok(()) => {},
        Err(m) => return Err(m),
    }
    let p1 = "[Unit]\nDescription=Start ARGV Docker Manager selected projects\nRequires=docker.service\nAfter=docker.service network-online.target\nWants=network-online.target\n\n[Service]\nType=oneshot\nUser=";
    let p2 = "\nWorkingDirectory=";
    let p3 = "\nExecStart=\"";
    let p4 = "\" --auto-restart \"";
    let p5 = "\"\nRemainAfterExit=yes\n\n[Install]\nWantedBy=multi-user.target\n";
    let mut u = owned(p1);
    u.append(user);
    u.append(p2);
    u.append(project_root.as_str());
    u.append(p3);
    u.append(executable.as_str());
    u.append(p4);
    u.append(project_root.as_str());
    u.append(p5);
    Ok(u)
}

/// Whether `id -u` reported the root user.
pub fn is_root_id_output(success: bool, stdout: &[u8]) -> (b: bool)
    ensures
        b == (success && stdout@ == seq![48u8, 10u8]),
{
    if !success || stdout.len() != 2 {
        return false;
    }
    let r = stdout[0] == 48u8 && stdout[1] == 10u8;
    assert(r ==> stdout@ =~= seq![48u8, 10u8]);
    r
}

/// The user the boot unit runs as: the user who ran `sudo` (unless root), else `USER`;
/// it must be a valid user name.
pub open spec fn service_user_spec(sudo_user: Option<Seq<char>>, user: Option<Seq<char>>) -> Result<
    Seq<char>,
    Seq<char>,
> {
    let chosen = match sudo_user {
        Some(s) => if s != "root"@ {
            Some(s)
        } else {
            user
        },
        None => user,
    };
    match chosen {
        None => Err("USER is not set"@),
        Some(u) => if valid_user_spec(u) {
            Ok(u)
        } else {
            Err("invalid systemd service user: "@ + u)
        },
    }
}

pub open spec fn opt_seq(o: Option<&str>) -> Option<Seq<char>> {
    match o {
        Some(s) => Some(s@),
        None => None,
    }
}

/// The user the boot unit runs as, from the values of `SUDO_USER` and `USER`.
pub fn service_user(sudo_user: Option<&str>, user: Option<&str>) -> (r: Result<String, String>)
    ensures
        match r {
            Ok(u) => service_user_spec(opt_seq(sudo_user), opt_seq(user)) == Ok::<Seq<char>, Seq<char>>(u@),
            Err(m) => service_user_spec(opt_seq(sudo_user), opt_seq(user)) == Err::<Seq<char>, Seq<char>>(m@),
        },
{
    let chosen = match sudo_user {
        Some(s) => if !crate::text::str_eq(s, "root") {
            Some(s)
        } else {
            user
        },
        None => user,
    };
    match chosen {
        None => Err(owned("USER is not set")),
        Some(u) => match validate_user(u) {
            Ok(()) => Ok(owned(u)),
            Err(m) => Err(m),
        },
    }
}

/// A privileged command: the program and its arguments.
pub struct PrivilegedCommand {
    pub program: String,
    pub args: Vec<String>,
}

/// The plain values of a [`PrivilegedCommand`].
pub open spec fn command_view(c: PrivilegedCommand) -> (Seq<char>, Seq<Seq<char>>) {
    (c.program@, c.args@.map_values(|a: String| a@))
}

/// What the installer runs, in order: it copies the unit into place, reloads systemd and
/// enables the unit for the next boot.
pub open spec fn install_commands_spec(temporary_path: Seq<char>, destination: Seq<char>) -> Seq<
    (Seq<char>, Seq<Seq<char>>),
> {
    seq![
        ("install"@, seq!["-m"@, "0644"@, temporary_path, destination]),
        ("systemctl"@, seq!["daemon-reload"@]),
        ("systemctl"@, seq!["enable"@, UNIT_NAME@]),
    ]
}

fn command_of(program: &str, args: Vec<String>) -> (c: PrivilegedCommand)
    ensures
        command_view(c) == (program@, args@.map_values(|a: String| a@)),
{
    PrivilegedCommand { program: owned(program), args }
}

/// The privileged commands that install the unit from `temporary_path` at `destination`.
pub fn install_commands(temporary_path: &str, destination: &str) -> (r: Vec<PrivilegedCommand>)
    ensures
        r@.map_values(|c: PrivilegedCommand| command_view(c)) == install_commands_spec(
            temporary_path@,
            destination@,
        ),
{
    let mut copy_args: Vec<String> = Vec::new();
    copy_args.push(owned("-m"));
    copy_args.push(owned("0644"));
    copy_args.push(owned(temporary_path));
    copy_args.push(owned(destination));
    assert(copy_args@.map_values(|a: String| a@) =~= seq!["-m"@, "0644"@, temporary_path@, destination@]);
    let mut reload_args: Vec<String> = Vec::new();
    reload_args.push(owned("daemon-reload"));
    assert(reload_args@.map_values(|a: String| a@) =~= seq!["daemon-reload"@]);
    let mut enable_args: Vec<String> = Vec::new();
    enable_args.push(owned("enable"));
    enable_args.push(owned(UNIT_NAME));
    assert(enable_args@.map_values(|a: String| a@) =~= seq!["enable"@, UNIT_NAME@]);
    let mut r: Vec<PrivilegedCommand> = Vec::new();
    r.push(command_of("install", copy_args));
    r.push(command_of("systemctl", reload_args));
    r.push(command_of("systemctl", enable_args));
    assert(r@.map_values(|c: PrivilegedCommand| command_view(c)) =~= install_commands_spec(
        temporary_path@,
        destination@,
    ));
    r
}

/// Law: installing starts nothing: no command the installer runs is a start (nor an
/// enable with `--now`), so no project, selected or not, is started by it; the unit only
/// runs at the next boot.
pub proof fn law_install_starts_nothing(temporary_path: Seq<char>, destination: Seq<char>)
    ensures
        forall|i: int|
            0 <= i < install_commands_spec(temporary_path, destination).len() ==> {
                let (program, args) = #[trigger] install_commands_spec(temporary_path, destination)[i];
                program == "systemctl"@ ==> !args.contains("start"@) && !args.contains("--now"@)
                    && !args.contains("restart"@)
            },
{
    reveal_strlit("systemctl");
    reveal_strlit("install");
    reveal_strlit("daemon-reload");
    reveal_strlit("enable");
    reveal_strlit("start");
    reveal_strlit("--now");
    reveal_strlit("restart");
    reveal_strlit("argv-podman-manager-autorestart.service");
    let cmds = install_commands_spec(temporary_path, destination);
    assert forall|i: int| 0 <= i < cmds.len() implies {
        let (program, args) = #[trigger] cmds[i];
        program == "systemctl"@ ==> !args.contains("start"@) && !args.contains("--now"@)
            && !args.contains("restart"@)
    } by {
        if i == 0 {
            assert("install"@ != "systemctl"@) by {
                assert("install"@[0] != "systemctl"@[0]);
            }
        } else if i == 1 {
            let args = cmds[1].1;
            assert(args =~= seq!["daemon-reload"@]);
            assert("daemon-reload"@ != "start"@ && "daemon-reload"@ != "--now"@
                && "daemon-reload"@ != "restart"@) by {
                assert("daemon-reload"@[0] != "start"@[0]);
                assert("daemon-reload"@[0] != "--now"@[0]);
                assert("daemon-reload"@.len() != "restart"@.len());
            }
            if args.contains("start"@) || args.contains("--now"@) || args.contains("restart"@) {
                assert(args[0] == "daemon-reload"@);
            }
        } else {
            let args = cmds[2].1;
            assert(args =~= seq!["enable"@, UNIT_NAME@]);
            assert("enable"@ != "start"@ && "enable"@ != "--now"@ && "enable"@ != "restart"@) by {
                assert("enable"@[0] != "start"@[0]);
                assert("enable"@[0] != "--now"@[0]);
                assert("enable"@[0] != "restart"@[0]);
            }
            assert(UNIT_NAME@ != "start"@ && UNIT_NAME@ != "--now"@ && UNIT_NAME@ != "restart"@) by {
                assert(UNIT_NAME@[0] != "start"@[0]);
                assert(UNIT_NAME@[0] != "--now"@[0]);
                assert(UNIT_NAME@[0] != "restart"@[0]);
            }
            if args.contains("start"@) || args.contains("--now"@) || args.contains("restart"@) {
                assert(args[0] == "enable"@ && args[1] == UNIT_NAME@);
            }
        }
    }
}

} // verus!
