//! Reading what `podman inspect` reports of a container.
use vstd::prelude::*;
use vstd::string::*;

use crate::text::{
    lines, lines_spec,
    eq_ignore_ascii_case, eq_ignore_ascii_case_spec, join, join_words, owned, split_char,
    split_once, split_once_spec, split_spec, str_eq, trim, trim_spec, words,
};

verus! {

/// The inspect template that prints a container's two project labels, tab-separated.
pub const PROJECT_TEMPLATE: &'static str = "{{index .Config.Labels \"io.podman.compose.project\"}}\t{{index .Config.Labels \"com.docker.compose.project\"}}";

/// The inspect template that prints a container's networks (`name=ip `) and its ports
/// (`port=host:port ` or `port=internal `), tab-separated.
pub const RUNTIME_TEMPLATE: &'static str = "{{range $k, $v := .NetworkSettings.Networks}}{{$k}}={{$v.IPAddress}} {{end}}\t{{range $p, $v := .NetworkSettings.Ports}}{{$p}}={{if $v}}{{(index $v 0).HostIp}}:{{(index $v 0).HostPort}}{{else}}internal{{end}} {{end}}";


/// Placeholder texts that mean a runtime value is not known.
pub open spec fn is_placeholder(n: Seq<char>) -> bool {
    ||| n.len() == 0
    ||| eq_ignore_ascii_case_spec(n, "unknown"@)
    ||| eq_ignore_ascii_case_spec(n, "none"@)
    ||| eq_ignore_ascii_case_spec(n, "invalid, IP"@)
    ||| eq_ignore_ascii_case_spec(n, "invalid IP"@)
    ||| eq_ignore_ascii_case_spec(n, "<no, value>"@)
    ||| eq_ignore_ascii_case_spec(n, "<no value>"@)
}

/// The words of `value` joined by ", ", or `fallback` where that is empty or a placeholder.
pub open spec fn normalize_runtime_spec(value: Seq<char>, fallback: Seq<char>) -> Seq<char> {
    let n = join(words(value), ", "@);
    if is_placeholder(n) {
        fallback
    } else {
        n
    }
}

pub fn normalize_runtime_value(value: &str, fallback: &str) -> (r: String)
    ensures
        r@ == normalize_runtime_spec(value@, fallback@),
{
    let sep = ", ";
    proof {
        reveal_strlit(", ");
    }
    let normalized = join_words(value, sep);
    let n = normalized.as_str();
    let l1 = "unknown";
    let l2 = "none";
    let l3 = "invalid, IP";
    let l4 = "invalid IP";
    let l5 = "<no, value>";
    let l6 = "<no value>";
    proof {
        reveal_strlit("unknown");
        reveal_strlit("none");
        reveal_strlit("invalid, IP");
        reveal_strlit("invalid IP");
        reveal_strlit("<no, value>");
        reveal_strlit("<no value>");
    }
    if n.is_empty() || eq_ignore_ascii_case(n, l1) || eq_ignore_ascii_case(n, l2)
        || eq_ignore_ascii_case(n, l3) || eq_ignore_ascii_case(n, l4) || eq_ignore_ascii_case(
        n,
        l5,
    ) || eq_ignore_ascii_case(n, l6) {
        owned(fallback)
    } else {
        normalized
    }
}

/// The networks and published ports of a running container.
#[derive(Debug)]
pub struct ContainerRuntimeDetails {
    pub ips: String,
    pub ports: String,
}

impl Default for ContainerRuntimeDetails {
    fn default() -> (r: Self)
        ensures
            r.ips@ == "pending"@,
            r.ports@ == "none"@,
    {
        let ips = "pending";
        let ports = "none";
        proof {
            reveal_strlit("pending");
            reveal_strlit("none");
        }
        ContainerRuntimeDetails { ips: owned(ips), ports: owned(ports) }
    }
}

/// The details read from one inspect result of the form `<ips>\t<ports>`.
pub open spec fn runtime_details_spec(value: Seq<char>) -> (Seq<char>, Seq<char>) {
    let (ips, ports) = match split_once_spec(value, seq!['\t']) {
        Some(pair) => pair,
        None => (value, Seq::empty()),
    };
    (normalize_runtime_spec(ips, "pending"@), normalize_runtime_spec(ports, "none"@))
}

pub fn parse_runtime_details(value: &str) -> (r: ContainerRuntimeDetails)
    ensures
        (r.ips@, r.ports@) == runtime_details_spec(value@),
{
    let tab = "\t";
    let empty = "";
    let pending = "pending";
    let none = "none";
    proof {
        reveal_strlit("\t");
        reveal_strlit("");
        reveal_strlit("pending");
        reveal_strlit("none");
        assert(tab@ =~= seq!['\t']);
    }
    let (ips, ports) = match split_once(value, tab) {
        Some(pair) => pair,
        None => (value, empty),
    };
    ContainerRuntimeDetails {
        ips: normalize_runtime_value(ips, pending),
        ports: normalize_runtime_value(ports, none),
    }
}

/// The runtime details of a container, given what inspecting it printed (`None` where
/// the inspection failed or printed nothing).
pub fn runtime_details(inspected: Option<&str>) -> (r: ContainerRuntimeDetails)
    ensures
        inspected matches Some(v) ==> (r.ips@, r.ports@) == runtime_details_spec(v@),
        inspected is None ==> r.ips@ == "pending"@ && r.ports@ == "none"@,
{
    match inspected {
        Some(v) => parse_runtime_details(v),
        None => ContainerRuntimeDetails::default(),
    }
}

/// The first label value, trimmed, that is neither empty nor `<no value>`.
pub open spec fn first_label_from(parts: Seq<Seq<char>>, i: int) -> Option<Seq<char>>
    decreases parts.len() - i,
{
    if i < 0 || i >= parts.len() {
        None
    } else {
        let t = trim_spec(parts[i]);
        if t.len() > 0 && t != "<no value>"@ {
            Some(t)
        } else {
            first_label_from(parts, i + 1)
        }
    }
}

/// The project a container belongs to, given what inspecting its project labels printed
/// (tab-separated values; `None` where the inspection failed or printed nothing).
pub fn project_name(inspected: Option<&str>) -> (r: Option<String>)
    ensures
        inspected is None ==> r is None,
        inspected matches Some(v) ==> (match first_label_from(split_spec(v@, '\t'), 0) {
            Some(t) => r matches Some(name) && name@ == t,
            None => r is None,
        }),
{
    let value = match inspected {
        Some(v) => v,
        None => return None,
    };
    let parts = split_char(value, '\t');
    let no_value = "<no value>";
    proof {
        reveal_strlit("<no value>");
    }
    let mut i: usize = 0;
    while i < parts.len()
        invariant
            inspected == Some(value),
            no_value@ == "<no value>"@,
            i <= parts@.len(),
            parts@.len() == split_spec(value@, '\t').len(),
            forall|k: int| 0 <= k < parts@.len() ==> #[trigger] parts@[k]@ == split_spec(
                value@,
                '\t',
            )[k],
            first_label_from(split_spec(value@, '\t'), 0) == first_label_from(
                split_spec(value@, '\t'),
                i as int,
            ),
        decreases parts.len() - i,
    {
        let t = trim(parts[i]);
        assert(t@ == trim_spec(split_spec(value@, '\t')[i as int]));
        if !t.is_empty() && !str_eq(t, no_value) {
            return Some(owned(t));
        }
        assert(first_label_from(split_spec(value@, '\t'), i as int) == first_label_from(
            split_spec(value@, '\t'),
            i + 1,
        ));
        i = i + 1;
    }
    None
}


/// What a successful inspection printed, trimmed, where that is not empty.
pub fn inspect_output_value(success: bool, stdout: &str) -> (r: Option<String>)
    ensures
        !success ==> r is None,
        success && trim_spec(stdout@).len() == 0 ==> r is None,
        success && trim_spec(stdout@).len() > 0 ==> (r matches Some(v) && v@ == trim_spec(
            stdout@,
        )),
{
    if !success {
        return None;
    }
    let v = trim(stdout);
    if v.is_empty() {
        None
    } else {
        Some(owned(v))
    }
}

/// The non-empty trimmed lines of `s`.
pub open spec fn nonempty_trimmed_lines(ls: Seq<Seq<char>>) -> Seq<Seq<char>>
    decreases ls.len(),
{
    if ls.len() == 0 {
        seq![]
    } else {
        let rest = nonempty_trimmed_lines(ls.drop_last());
        let t = trim_spec(ls.last());
        if t.len() > 0 {
            rest.push(t)
        } else {
            rest
        }
    }
}

/// The container names listed one per line in `ps` output.
pub fn container_names(stdout: &str) -> (r: Vec<String>)
    ensures
        r@.map_values(|s: String| s@) == nonempty_trimmed_lines(lines_spec(stdout@)),
{
    let ls = lines(stdout);
    let ghost all = lines_spec(stdout@);
    let mut out: Vec<String> = Vec::new();
    let mut i: usize = 0;
    assert(all.take(0) =~= Seq::<Seq<char>>::empty());
    assert(out@.map_values(|s: String| s@) =~= Seq::<Seq<char>>::empty());
    while i < ls.len()
        invariant
            i <= ls@.len(),
            ls@.len() == all.len(),
            all == lines_spec(stdout@),
            forall|k: int| 0 <= k < ls@.len() ==> #[trigger] ls@[k]@ == all[k],
            out@.map_values(|s: String| s@) == nonempty_trimmed_lines(all.take(i as int)),
        decreases ls.len() - i,
    {
        let t = trim(ls[i]);
        let ghost before = out@.map_values(|s: String| s@);
        proof {
            assert(all.take(i + 1).drop_last() =~= all.take(i as int));
            assert(all.take(i + 1).last() == ls@[i as int]@);
        }
        if !t.is_empty() {
            out.push(owned(t));
            assert(out@.map_values(|s: String| s@) =~= before.push(t@));
        }
        i = i + 1;
    }
    assert(all.take(ls.len() as int) =~= all);
    out
}

} // verus!
