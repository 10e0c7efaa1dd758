//! Reading project statuses from `docker ps` output.
use vstd::prelude::*;
use vstd::string::*;

use crate::podman::client::{initial_statuses, initial_table, names_view};
use crate::status::{Status, StatusTable};
use crate::text::{
    lines, lines_spec, piece, piece_at, split_char, split_spec, splitn, splitn_spec,
    starts_with_str, trim, trim_spec,
};

pub use crate::podman::client::{valid_service_name_spec, validate_service_name};

verus! {

/// The Docker client; the commands it runs are issued by the application.
pub struct DockerClient;

/// The status and project of a `docker ps -a` line (`<status>\t<project>`).
pub open spec fn status_line_spec(line: Seq<char>) -> (Seq<char>, Seq<char>) {
    let parts = splitn_spec(line, 2, '\t');
    (piece(parts, 0), piece(parts, 1))
}

/// The statuses after one line of `docker ps -a` output: a container that is up marks
/// its project running, unless the project is unknown or in error.
pub open spec fn apply_line_spec(t: Seq<(Seq<char>, Status)>, line: Seq<char>) -> Seq<
    (Seq<char>, Status),
> {
    let (st, project) = status_line_spec(line);
    t.map_values(
        |e: (Seq<char>, Status)|
            (e.0, if "Up"@.is_prefix_of(st) && e.0 == project && e.1 != Status::Error {
                Status::Running
            } else {
                e.1
            }),
    )
}

/// The statuses after each of `ls` in turn.
pub open spec fn apply_lines_spec(t: Seq<(Seq<char>, Status)>, ls: Seq<Seq<char>>) -> Seq<
    (Seq<char>, Status),
>
    decreases ls.len(),
{
    if ls.len() == 0 {
        t
    } else {
        apply_line_spec(apply_lines_spec(t, ls.drop_last()), ls.last())
    }
}

pub fn apply_batch_status_line(statuses: &mut StatusTable, line: &str)
    ensures
        final(statuses)@ == apply_line_spec(old(statuses)@, line@),
{
    let parts = splitn(line, 2, '\t');
    let status_str = piece_at(&parts, 0);
    let project_name = piece_at(&parts, 1);
    let up = "Up";
    proof {
        reveal_strlit("Up");
    }
    let ghost before = statuses@;
    if starts_with_str(status_str, up) {
        statuses.mark_running(project_name);
    }
    assert(statuses@ =~= apply_line_spec(before, line@));
}

/// The statuses of `names` given the output of `docker ps -a`, `None` where the command
/// could not be run: then every project is in error.
pub open spec fn batch_spec(names: Seq<Seq<char>>, output: Option<Seq<char>>) -> Seq<
    (Seq<char>, Status),
> {
    let t = initial_table(names);
    if t.len() == 0 {
        t
    } else {
        match output {
            Some(o) => apply_lines_spec(t, lines_spec(o)),
            None => t.map_values(|e: (Seq<char>, Status)| (e.0, Status::Error)),
        }
    }
}

pub fn batch_statuses_from_output(service_names: &Vec<&str>, output: Option<&str>) -> (r: StatusTable)
    ensures
        r@ == batch_spec(
            names_view(service_names@),
            match output {
                Some(o) => Some(o@),
                None => None,
            },
        ),
{
    let mut statuses = initial_statuses(service_names);
    if statuses.is_empty() {
        return statuses;
    }
    let ghost init = statuses@;
    match output {
        Some(stdout) => {
            let ls = lines(stdout);
            let ghost all = lines_spec(stdout@);
            let mut i: usize = 0;
            assert(all.take(0) =~= Seq::<Seq<char>>::empty());
            while i < ls.len()
                invariant
                    i <= ls@.len(),
                    ls@.len() == all.len(),
                    forall|k: int| 0 <= k < ls@.len() ==> #[trigger] ls@[k]@ == all[k],
                    statuses@ == apply_lines_spec(init, all.take(i as int)),
                decreases ls.len() - i,
            {
                proof {
                    assert(all.take(i + 1).drop_last() =~= all.take(i as int));
                    assert(all.take(i + 1).last() == ls@[i as int]@);
                }
                apply_batch_status_line(&mut statuses, ls[i]);
                i = i + 1;
            }
            assert(all.take(ls.len() as int) =~= all);
        },
        None => {
            statuses.mark_all_error();
            assert(statuses@ =~= init.map_values(|e: (Seq<char>, Status)| (e.0, Status::Error)));
        },
    }
    statuses
}

/// Whether a `docker ps` line (`<name>\t<status>`) shows a container that is up.
pub open spec fn ps_line_up(line: Seq<char>) -> bool {
    let parts = split_spec(line, '\t');
    parts.len() > 1 && "Up"@.is_prefix_of(parts[1])
}

/// The status of a project read from the `docker ps` output listing its containers:
/// stopped where nothing is listed or nothing is up.
pub fn status_from_ps(stdout: &str) -> (r: Status)
    ensures
        r == (if trim_spec(stdout@).len() > 0 && exists|i: int|
            0 <= i < lines_spec(stdout@).len() && ps_line_up(#[trigger] lines_spec(stdout@)[i]) {
            Status::Running
        } else {
            Status::Stopped
        }),
{
    if trim(stdout).is_empty() {
        return Status::Stopped;
    }
    let ls = lines(stdout);
    let up = "Up";
    proof {
        reveal_strlit("Up");
    }
    let mut i: usize = 0;
    while i < ls.len()
        invariant
            i <= ls@.len(),
            up@ == "Up"@,
            trim_spec(stdout@).len() > 0,
            ls@.len() == lines_spec(stdout@).len(),
            forall|k: int| 0 <= k < ls@.len() ==> #[trigger] ls@[k]@ == lines_spec(stdout@)[k],
            forall|k: int| 0 <= k < i ==> !ps_line_up(#[trigger] lines_spec(stdout@)[k]),
        decreases ls.len() - i,
    {
        let parts = split_char(ls[i], '\t');
        if parts.len() > 1 && starts_with_str(parts[1], up) {
            assert(ps_line_up(lines_spec(stdout@)[i as int]));
            return Status::Running;
        }
        i = i + 1;
    }
    Status::Stopped
}

} // verus!
