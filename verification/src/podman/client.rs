//! Reading project statuses from `podman ps` output.
use vstd::prelude::*;
use vstd::string::*;

use crate::status::{lookup_spec, Status, StatusTable};
use crate::text::{
    char_is_alphanumeric, chars_of, lines, lines_spec, owned, piece, piece_at, splitn,
    splitn_spec, starts_with_str, str_eq, unicode_alphanumeric, is_ascii_alnum_spec,
};
use crate::auto_restart::has_path_char;

verus! {

/// The Podman client; the commands it runs are issued by the application.
pub struct PodmanClient;

/// A project name may hold letters, digits, `-` and `_` only.
pub open spec fn valid_service_name_spec(name: Seq<char>) -> bool {
    forall|i: int|
        0 <= i < name.len() ==> unicode_alphanumeric(#[trigger] name[i]) || name[i] == '-'
            || name[i] == '_'
}

/// Whether a name may be used as a project name. Names of ASCII letters, digits, `-` and
/// `_` pass; a name holding `/` or `.` does not.
pub fn validate_service_name(name: &str) -> (b: bool)
    ensures
        b == valid_service_name_spec(name@),
        (forall|i: int|
            0 <= i < name@.len() ==> is_ascii_alnum_spec(#[trigger] name@[i]) || name@[i] == '-'
                || name@[i] == '_') ==> b,
        has_path_char(name@) ==> !b,
{
    let v = chars_of(name);
    let mut i: usize = 0;
    while i < v.len()
        invariant
            i <= v.len(),
            v@ == name@,
            forall|k: int|
                0 <= k < i ==> unicode_alphanumeric(#[trigger] v@[k]) || v@[k] == '-' || v@[k]
                    == '_',
            forall|k: int|
                0 <= k < i ==> ((#[trigger] v@[k]) as u32) < 128 ==> unicode_alphanumeric(v@[k])
                    == is_ascii_alnum_spec(v@[k]),
        decreases v.len() - i,
    {
        let c = v[i];
        let alnum = char_is_alphanumeric(c);
        if !(alnum || c == '-' || c == '_') {
            proof {
                if is_ascii_alnum_spec(c) {
                    assert((c as u32) < 128);
                }
            }
            return false;
        }
        i = i + 1;
    }
    proof {
        if has_path_char(name@) {
            let k = choose|k: int|
                0 <= k < name@.len() && (#[trigger] name@[k] == '/' || name@[k] == '.');
            assert(v@[k] == '/' || v@[k] == '.');
            assert((v@[k] as u32) < 128);
        }
    }
    true
}

/// The podman `--format` template of `ps` lines: status and both project labels.
pub fn format_status_template() -> (r: String)
    ensures
        r@ == "{{.Status}}\t{{.Label \"io.podman.compose.project\"}}\t{{.Label \"com.docker.compose.project\"}}"@,
{
    owned(
        "{{.Status}}\t{{.Label \"io.podman.compose.project\"}}\t{{.Label \"com.docker.compose.project\"}}",
    )
}

/// The status, Podman project label and legacy project label of a `ps` line.
pub open spec fn status_line_spec(line: Seq<char>) -> (Seq<char>, Seq<char>, Seq<char>) {
    let parts = splitn_spec(line, 3, '\t');
    (piece(parts, 0), piece(parts, 1), piece(parts, 2))
}

pub fn parse_status_line<'a>(line: &'a str) -> (r: (&'a str, &'a str, &'a str))
    ensures
        (r.0@, r.1@, r.2@) == status_line_spec(line@),
{
    let parts = splitn(line, 3, '\t');
    (piece_at(&parts, 0), piece_at(&parts, 1), piece_at(&parts, 2))
}

/// The project a `ps` line belongs to: the Podman label, else the legacy one.
pub open spec fn line_project_spec(line: Seq<char>) -> Seq<char> {
    let (_, p, l) = status_line_spec(line);
    if p.len() > 0 {
        p
    } else {
        l
    }
}

/// Whether a `ps` line reports a container that is up.
pub open spec fn line_is_up(line: Seq<char>) -> bool {
    "Up"@.is_prefix_of(status_line_spec(line).0)
}

/// The statuses after one line of `podman ps -a` output: a container that is up marks
/// its project running, unless the project is unknown or in error.
pub open spec fn apply_line_spec(t: Seq<(Seq<char>, Status)>, line: Seq<char>) -> Seq<
    (Seq<char>, Status),
> {
    t.map_values(
        |e: (Seq<char>, Status)|
            (e.0, if line_is_up(line) && e.0 == line_project_spec(line) && e.1 != Status::Error {
                Status::Running
            } else {
                e.1
            }),
    )
}

/// The statuses after each of `ls` in turn.
pub open spec fn apply_lines_spec(t: Seq<(Seq<char>, Status)>, ls: Seq<Seq<char>>) -> Seq<
    (Seq<char>, Status),
>
    decreases ls.len(),
{
    if ls.len() == 0 {
        t
    } else {
        apply_line_spec(apply_lines_spec(t, ls.drop_last()), ls.last())
    }
}

pub fn apply_batch_status_line(statuses: &mut StatusTable, line: &str)
    ensures
        final(statuses)@ == apply_line_spec(old(statuses)@, line@),
{
    let (status_str, podman_project, legacy_project) = parse_status_line(line);
    let project_name = if !podman_project.is_empty() {
        podman_project
    } else {
        legacy_project
    };
    let up = "Up";
    proof {
        reveal_strlit("Up");
    }
    let ghost before = statuses@;
    if starts_with_str(status_str, up) {
        statuses.mark_running(project_name);
    }
    assert(statuses@ =~= apply_line_spec(before, line@));
}

/// Law: one `ps` line changes at most the project it names: that project becomes running
/// when the line's status begins with "Up" and it is not in error; every other project,
/// and every project when the container is not up, keeps its status; names never change,
/// and a project in error stays in error.
pub proof fn law_ps_line(t: Seq<(Seq<char>, Status)>, line: Seq<char>, i: int)
    requires
        0 <= i < t.len(),
    ensures
        apply_line_spec(t, line).len() == t.len(),
        apply_line_spec(t, line)[i].0 == t[i].0,
        t[i].1 == Status::Error ==> apply_line_spec(t, line)[i].1 == Status::Error,
        !"Up"@.is_prefix_of(status_line_spec(line).0) ==> apply_line_spec(t, line)[i] == t[i],
        t[i].0 != status_line_spec(line).1 && t[i].0 != status_line_spec(line).2 ==> apply_line_spec(
            t,
            line,
        )[i] == t[i],
        "Up"@.is_prefix_of(status_line_spec(line).0) && status_line_spec(line).1.len() > 0
            && t[i].0 == status_line_spec(line).1 && t[i].1 != Status::Error ==> apply_line_spec(
            t,
            line,
        )[i].1 == Status::Running,
        "Up"@.is_prefix_of(status_line_spec(line).0) && status_line_spec(line).1.len() == 0
            && t[i].0 == status_line_spec(line).2 && t[i].1 != Status::Error ==> apply_line_spec(
            t,
            line,
        )[i].1 == Status::Running,
        apply_line_spec(t, line)[i].1 == t[i].1 || apply_line_spec(t, line)[i].1
            == Status::Running,
{
}

/// Law: a project whose name is valid starts stopped, one whose name is not starts in
/// error.
pub proof fn law_initial_status(name: Seq<char>)
    ensures
        valid_service_name_spec(name) ==> initial_status_spec(name) == Status::Stopped,
        !valid_service_name_spec(name) ==> initial_status_spec(name) == Status::Error,
{
}

/// The status a project starts from: stopped, or in error where its name is not valid.
pub open spec fn initial_status_spec(name: Seq<char>) -> Status {
    if valid_service_name_spec(name) {
        Status::Stopped
    } else {
        Status::Error
    }
}

/// The starting statuses of `names`, each name once, in order of first occurrence.
pub open spec fn initial_table(names: Seq<Seq<char>>) -> Seq<(Seq<char>, Status)>
    decreases names.len(),
{
    if names.len() == 0 {
        seq![]
    } else {
        let t = initial_table(names.drop_last());
        if lookup_spec(t, names.last()) is Some {
            t
        } else {
            t.push((names.last(), initial_status_spec(names.last())))
        }
    }
}

/// The plain values of a list of names.
pub open spec fn names_view(names: Seq<&str>) -> Seq<Seq<char>> {
    names.map_values(|n: &str| n@)
}

pub fn initial_statuses(service_names: &Vec<&str>) -> (r: StatusTable)
    ensures
        r@ == initial_table(names_view(service_names@)),
{
    let mut table = StatusTable::new();
    let ghost all = names_view(service_names@);
    let mut k: usize = 0;
    assert(all.take(0) =~= Seq::<Seq<char>>::empty());
    while k < service_names.len()
        invariant
            k <= service_names@.len(),
            all == names_view(service_names@),
            table@ == initial_table(all.take(k as int)),
        decreases service_names.len() - k,
    {
        let name = service_names[k];
        let status = if validate_service_name(name) {
            Status::Stopped
        } else {
            Status::Error
        };
        proof {
            assert(all.take(k + 1).drop_last() =~= all.take(k as int));
            assert(all.take(k + 1).last() == name@);
        }
        table.insert_if_absent(name, status);
        k = k + 1;
    }
    assert(all.take(service_names.len() as int) =~= all);
    table
}

/// The statuses of `names` given the output of `podman ps -a`, `None` where the command
/// failed: then every project is in error.
pub open spec fn batch_spec(names: Seq<Seq<char>>, output: Option<Seq<char>>) -> Seq<
    (Seq<char>, Status),
> {
    let t = initial_table(names);
    if t.len() == 0 {
        t
    } else {
        match output {
            Some(o) => apply_lines_spec(t, lines_spec(o)),
            None => t.map_values(|e: (Seq<char>, Status)| (e.0, Status::Error)),
        }
    }
}

pub fn batch_statuses_from_output(service_names: &Vec<&str>, output: Option<&str>) -> (r: StatusTable)
    ensures
        r@ == batch_spec(
            names_view(service_names@),
            match output {
                Some(o) => Some(o@),
                None => None,
            },
        ),
{
    let mut statuses = initial_statuses(service_names);
    if statuses.is_empty() {
        return statuses;
    }
    let ghost init = statuses@;
    match output {
        Some(stdout) => {
            let ls = lines(stdout);
            let ghost all = lines_spec(stdout@);
            let mut i: usize = 0;
            assert(all.take(0) =~= Seq::<Seq<char>>::empty());
            while i < ls.len()
                invariant
                    i <= ls@.len(),
                    ls@.len() == all.len(),
                    forall|k: int| 0 <= k < ls@.len() ==> #[trigger] ls@[k]@ == all[k],
                    statuses@ == apply_lines_spec(init, all.take(i as int)),
                decreases ls.len() - i,
            {
                proof {
                    assert(all.take(i + 1).drop_last() =~= all.take(i as int));
                    assert(all.take(i + 1).last() == ls@[i as int]@);
                }
                apply_batch_status_line(&mut statuses, ls[i]);
                i = i + 1;
            }
            assert(all.take(ls.len() as int) =~= all);
        },
        None => {
            statuses.mark_all_error();
            assert(statuses@ =~= init.map_values(|e: (Seq<char>, Status)| (e.0, Status::Error)));
        },
    }
    statuses
}

/// Whether some `ps` line shows a container of `project` that is up.
pub open spec fn project_up_in(ls: Seq<Seq<char>>, project: Seq<char>) -> bool {
    exists|i: int|
        0 <= i < ls.len() && line_is_up(#[trigger] ls[i]) && ({
            let (_, p, l) = status_line_spec(ls[i]);
            p == project || l == project
        })
}

/// The status of `project` read from successful `podman ps` output.
pub fn status_from_ps(stdout: &str, project: &str) -> (r: Status)
    ensures
        r == (if project_up_in(lines_spec(stdout@), project@) {
            Status::Running
        } else {
            Status::Stopped
        }),
{
    let ls = lines(stdout);
    let up = "Up";
    proof {
        reveal_strlit("Up");
    }
    let mut i: usize = 0;
    while i < ls.len()
        invariant
            i <= ls@.len(),
            up@ == "Up"@,
            ls@.len() == lines_spec(stdout@).len(),
            forall|k: int| 0 <= k < ls@.len() ==> #[trigger] ls@[k]@ == lines_spec(stdout@)[k],
            forall|k: int|
                0 <= k < i ==> !(line_is_up(lines_spec(stdout@)[k]) && ({
                    let (_, p, l) = status_line_spec(lines_spec(stdout@)[k]);
                    p == project@ || l == project@
                })),
        decreases ls.len() - i,
    {
        let (status, podman_project, legacy_project) = parse_status_line(ls[i]);
        if starts_with_str(status, up) && (str_eq(podman_project, project) || str_eq(
            legacy_project,
            project,
        )) {
            assert(line_is_up(lines_spec(stdout@)[i as int]));
            return Status::Running;
        }
        i = i + 1;
    }
    Status::Stopped
}

} // verus!
