//! Where a Compose project lives and which file describes it.
use vstd::prelude::*;
use vstd::string::*;

use crate::podman::PODMAN_COMPOSE_COMMAND;
use crate::text::{owned, path_join, path_join_spec};

verus! {

/// The file name used where a project has none of the known compose files.
pub const COMPOSE_FILE_NAME: &'static str = "compose.yml";

/// The compose file names looked for, in order.
pub open spec fn compose_file_names() -> Seq<Seq<char>> {
    seq!["compose.yml"@, "compose.yaml"@, "docker-compose.yml"@, "docker-compose.yaml"@]
}

/// A Compose project: the directory its compose file is in.
#[derive(Clone, Debug)]
pub struct ComposeProject {
    pub dir: String,
}

impl ComposeProject {
    /// The project `name` under `containers/` of the working directory.
    pub fn new(name: &str) -> (r: Self)
        ensures
            r.dir@ == path_join_spec("containers"@, name@),
    {
        let containers = "containers";
        ComposeProject { dir: path_join(containers, name) }
    }

    /// The project `name` under `containers/` of the clone at `project_root`.
    pub fn at(project_root: &str, name: &str) -> (r: Self)
        ensures
            r.dir@ == path_join_spec(path_join_spec(project_root@, "containers"@), name@),
    {
        let containers = "containers";
        let base = path_join(project_root, containers);
        ComposeProject { dir: path_join(base.as_str(), name) }
    }

    /// The paths where the compose file may be, in the order they are looked at.
    pub fn compose_file_candidates(&self) -> (r: Vec<String>)
        ensures
            r@.len() == 4,
            forall|i: int|
                0 <= i < 4 ==> #[trigger] r@[i]@ == path_join_spec(
                    self.dir@,
                    compose_file_names()[i],
                ),
    {
        let mut r: Vec<String> = Vec::new();
        r.push(path_join(self.dir.as_str(), "compose.yml"));
        r.push(path_join(self.dir.as_str(), "compose.yaml"));
        r.push(path_join(self.dir.as_str(), "docker-compose.yml"));
        r.push(path_join(self.dir.as_str(), "docker-compose.yaml"));
        r
    }

    /// The compose file of the project, given which of the candidates are files: the first
    /// that is, else `compose.yml` in the project directory.
    pub fn compose_file(&self, is_file: &Vec<bool>) -> (r: String)
        requires
            is_file@.len() == 4,
        ensures
            r@ == (if first_true_from(is_file@, 0) < 4 {
                path_join_spec(self.dir@, compose_file_names()[first_true_from(is_file@, 0)])
            } else {
                path_join_spec(self.dir@, "compose.yml"@)
            }),
    {
        let candidates = self.compose_file_candidates();
        let mut i: usize = 0;
        while i < 4
            invariant
                i <= 4,
                is_file@.len() == 4,
                candidates@.len() == 4,
                forall|m: int|
                    0 <= m < 4 ==> #[trigger] candidates@[m]@ == path_join_spec(
                        self.dir@,
                        compose_file_names()[m],
                    ),
                first_true_from(is_file@, 0) == first_true_from(is_file@, i as int),
            decreases 4 - i,
        {
            if is_file[i] {
                return candidates[i].clone();
            }
            i = i + 1;
        }
        path_join(self.dir.as_str(), COMPOSE_FILE_NAME)
    }
}

/// Whether any of the candidate compose files is a file.
pub fn has_compose_file(is_file: &Vec<bool>) -> (b: bool)
    requires
        is_file@.len() == 4,
    ensures
        b == (first_true_from(is_file@, 0) < 4),
{
    let mut i: usize = 0;
    while i < 4
        invariant
            i <= 4,
            is_file@.len() == 4,
            first_true_from(is_file@, 0) == first_true_from(is_file@, i as int),
        decreases 4 - i,
    {
        if is_file[i] {
            return true;
        }
        i = i + 1;
    }
    false
}

/// The first index at or after `i` that holds `true`, or `v.len()`.
pub open spec fn first_true_from(v: Seq<bool>, i: int) -> int
    decreases v.len() - i,
{
    if i < 0 || i >= v.len() {
        v.len() as int
    } else if v[i] {
        i
    } else {
        first_true_from(v, i + 1)
    }
}

/// A `podman-compose` subcommand the manager runs.
#[derive(Clone, Copy, Debug, PartialEq, Eq, Structural)]
pub enum ComposeOp {
    Pull,
    UpDetached,
    Down,
    Ps,
    LogsFollow,
}

/// How to run a compose subcommand: the program, its working directory, its arguments and
/// the environment it gets.
#[derive(Debug)]
pub struct ComposeCommand {
    pub program: &'static str,
    pub dir: String,
    pub args: Vec<&'static str>,
    pub env: Vec<(&'static str, &'static str)>,
}

/// The arguments of each subcommand.
pub open spec fn compose_args_spec(op: ComposeOp) -> Seq<Seq<char>> {
    match op {
        ComposeOp::Pull => seq!["pull"@],
        ComposeOp::UpDetached => seq!["up"@, "-d"@],
        ComposeOp::Down => seq!["down"@],
        ComposeOp::Ps => seq!["ps"@],
        ComposeOp::LogsFollow => seq!["logs"@, "-f"@, "--tail=100"@],
    }
}

impl ComposeProject {
    /// The command for a subcommand: `podman-compose` run in the project directory; the
    /// live-log follower gets `PYTHONUNBUFFERED=1`, as `podman-compose` prints through
    /// Python, whose piped output is otherwise buffered.
    pub fn compose_command(&self, op: ComposeOp) -> (c: ComposeCommand)
        ensures
            c.program@ == PODMAN_COMPOSE_COMMAND@,
            c.dir@ == self.dir@,
            c.args@.map_values(|a: &str| a@) == compose_args_spec(op),
            op == ComposeOp::LogsFollow ==> c.env@.len() == 1 && c.env@[0].0@
                == "PYTHONUNBUFFERED"@ && c.env@[0].1@ == "1"@,
            op != ComposeOp::LogsFollow ==> c.env@.len() == 0,
    {
        let mut args: Vec<&'static str> = Vec::new();
        let mut env: Vec<(&'static str, &'static str)> = Vec::new();
        match op {
            ComposeOp::Pull => {
                args.push("pull");
            },
            ComposeOp::UpDetached => {
                args.push("up");
                args.push("-d");
            },
            ComposeOp::Down => {
                args.push("down");
            },
            ComposeOp::Ps => {
                args.push("ps");
            },
            ComposeOp::LogsFollow => {
                args.push("logs");
                args.push("-f");
                args.push("--tail=100");
                env.push(("PYTHONUNBUFFERED", "1"));
            },
        }
        assert(args@.map_values(|a: &str| a@) =~= compose_args_spec(op));
        ComposeCommand { program: PODMAN_COMPOSE_COMMAND, dir: self.dir.clone(), args, env }
    }
}

} // verus!
