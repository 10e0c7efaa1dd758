//! What the application shows when it comes up: the projects found, in order, and the
//! first notice.
use vstd::prelude::*;

use crate::app::daemon::ascending;
use crate::app::overlays::{to_lowercase, unicode_lowercase};
use crate::status::ToastState;
use crate::text::{lemma_text_lt_irreflexive, lemma_text_lt_total, lemma_text_lt_transitive, owned, text_less, text_lt};
use crate::toast::{toast, toast_view, Toast};

verus! {

/// The first notice: a broken auto-restart file, then missing tools, then a stopped
/// daemon, else the welcome.
pub open spec fn initial_toast_spec(
    config_error: Option<Seq<char>>,
    compose_available: bool,
    command_available: bool,
    daemon_running: bool,
) -> (ToastState, Seq<char>, u32) {
    match config_error {
        Some(e) => (ToastState::Error, "Auto-restart config error: "@ + e, 5),
        None => if !compose_available {
            (ToastState::Error, "Docker Compose not found. Services may not work."@, 5)
        } else if !command_available {
            (ToastState::Error, "Docker CLI not found."@, 5)
        } else if !daemon_running {
            (ToastState::Warning, "Docker daemon not running."@, 4)
        } else {
            (ToastState::Info, "Welcome to Docker Manager"@, 3)
        },
    }
}

pub fn initial_toast(
    config_error: Option<&str>,
    compose_available: bool,
    command_available: bool,
    daemon_running: bool,
) -> (t: Toast)
    ensures
        toast_view(t) == initial_toast_spec(
            match config_error {
                Some(e) => Some(e@),
                None => None,
            },
            compose_available,
            command_available,
            daemon_running,
        ),
{
    match config_error {
        Some(e) => {
            let mut m = owned("Auto-restart config error: ");
            m.append(e);
            Toast { state: ToastState::Error, message: m, seconds: 5 }
        },
        None => if !compose_available {
            toast(ToastState::Error, "Docker Compose not found. Services may not work.", 5)
        } else if !command_available {
            toast(ToastState::Error, "Docker CLI not found.", 5)
        } else if !daemon_running {
            toast(ToastState::Warning, "Docker daemon not running.", 4)
        } else {
            toast(ToastState::Info, "Welcome to Docker Manager", 3)
        },
    }
}

pub open spec fn lowered(v: Seq<String>) -> Seq<Seq<char>> {
    v.map_values(|s: String| unicode_lowercase(s@))
}

/// `src` says where each entry of `r` stood in `names`, and entries whose lower-cased
/// forms are equal keep the order they had there.
pub open spec fn stable_origin(names: Seq<String>, r: Seq<String>, src: Seq<int>) -> bool {
    &&& src.len() == r.len()
    &&& forall|k: int| 0 <= k < r.len() ==> 0 <= #[trigger] src[k] < names.len() && r[k]
        == names[src[k]]
    &&& forall|a: int, b: int|
        0 <= a < b < r.len() && unicode_lowercase(#[trigger] r[a]@) == unicode_lowercase(
            #[trigger] r[b]@,
        ) ==> src[a] < src[b]
}

/// The project names in ascending order of their lower-cased forms; names whose
/// lower-cased forms are equal keep their order (a stable sort by that key).
pub fn sort_service_names(names: Vec<String>) -> (r: Vec<String>)
    ensures
        ascending(lowered(r@)),
        r@.to_multiset() == names@.to_multiset(),
        exists|src: Seq<int>| stable_origin(names@, r@, src),
{
    let mut r: Vec<String> = Vec::new();
    let mut keys: Vec<String> = Vec::new();
    let mut i: usize = 0;
    let ghost mut src: Seq<int> = Seq::empty();
    assert(names@.take(0) =~= Seq::<String>::empty());
    while i < names.len()
        invariant
            i <= names@.len(),
            stable_origin(names@, r@, src),
            forall|k: int| 0 <= k < src.len() ==> #[trigger] src[k] < i,
            keys@.len() == r@.len(),
            forall|k: int| 0 <= k < r@.len() ==> #[trigger] keys@[k]@ == unicode_lowercase(r@[k]@),
            ascending(lowered(r@)),
            r@.to_multiset() == names@.take(i as int).to_multiset(),
        decreases names.len() - i,
    {
        let name = names[i].clone();
        let key = to_lowercase(name.as_str());
        let ghost lr = lowered(r@);
        assert forall|k: int| 0 <= k < r@.len() implies #[trigger] lr[k] == keys@[k]@ by {}
        let mut p: usize = 0;
        while p < keys.len() && !text_less(key.as_str(), keys[p].as_str())
            invariant
                p <= keys@.len(),
                keys@.len() == r@.len(),
                forall|k: int| 0 <= k < r@.len() ==> #[trigger] keys@[k]@ == lr[k],
                lr == lowered(r@),
                forall|k: int| 0 <= k < p ==> !text_lt(key@, #[trigger] lr[k]),
            decreases keys.len() - p,
        {
            p = p + 1;
        }
        proof {
            if p < keys.len() {
                assert forall|k: int| p <= k < lr.len() implies text_lt(key@, #[trigger] lr[k]) by {
                    assert(text_lt(key@, lr[p as int]));
                    if k > p {
                        assert(!text_lt(lr[k], lr[p as int]));
                        lemma_text_lt_total(lr[k], lr[p as int]);
                        if lr[k] != lr[p as int] {
                            lemma_text_lt_transitive(key@, lr[p as int], lr[k]);
                        }
                    }
                }
            }
        }
        let ghost before = r@;
        let ghost keys_before = keys@;
        let ghost src_before = src;
        r.insert(p, name);
        keys.insert(p, key);
        proof {
            src = src_before.insert(p as int, i as int);
            let nl = lowered(r@);
            assert forall|k: int| 0 <= k < r@.len() implies 0 <= #[trigger] src[k] < names@.len()
                && r@[k] == names@[src[k]] by {
                if k < p {
                    assert(r@[k] == before[k]);
                } else if k > p {
                    assert(r@[k] == before[k - 1]);
                }
            }
            assert forall|a: int, b: int|
                0 <= a < b < r@.len() && unicode_lowercase(#[trigger] r@[a]@) == unicode_lowercase(
                    #[trigger] r@[b]@,
                ) implies src[a] < src[b] by {
                assert(nl[a] == unicode_lowercase(r@[a]@));
                assert(nl[b] == unicode_lowercase(r@[b]@));
                if a < p && b > p {
                    assert(before[a] == r@[a] && before[b - 1] == r@[b]);
                } else if b < p {
                    assert(before[a] == r@[a] && before[b] == r@[b]);
                } else if a > p {
                    assert(before[a - 1] == r@[a] && before[b - 1] == r@[b]);
                } else if a == p {
                    assert(text_lt(key@, lr[b - 1]));
                    lemma_text_lt_irreflexive(key@);
                } else {
                    assert(src_before[a] < i);
                }
            }
            assert forall|k: int| 0 <= k < src.len() implies #[trigger] src[k] < i + 1 by {
                if k < p {
                    assert(src[k] == src_before[k]);
                } else if k > p {
                    assert(src[k] == src_before[k - 1]);
                }
            }
            assert(nl =~= lr.insert(p as int, key@));
            assert forall|a: int, b: int| 0 <= a < b < nl.len() implies !text_lt(
                #[trigger] nl[b],
                #[trigger] nl[a],
            ) by {
                if a < p && b == p {
                    assert(!text_lt(key@, lr[a]));
                } else if a == p && b > p {
                    assert(text_lt(key@, lr[b - 1]));
                    lemma_text_lt_total(key@, lr[b - 1]);
                } else if a < p && b > p {
                    assert(!text_lt(lr[b - 1], lr[a]));
                } else if b < p {
                    assert(!text_lt(lr[b], lr[a]));
                } else {
                    assert(!text_lt(lr[b - 1], lr[a - 1]));
                }
            }
            assert forall|k: int| 0 <= k < r@.len() implies #[trigger] keys@[k]@
                == unicode_lowercase(r@[k]@) by {
                if k < p {
                    assert(keys@[k] == keys_before[k]);
                } else if k > p {
                    assert(keys@[k] == keys_before[k - 1]);
                }
            }
            vstd::seq_lib::to_multiset_insert(before, p as int, names@[i as int]);
            assert(names@.take(i + 1) =~= names@.take(i as int).push(names@[i as int]));
            vstd::seq_lib::to_multiset_build(names@.take(i as int), names@[i as int]);
        }
        i = i + 1;
    }
    assert(names@.take(names@.len() as int) =~= names@);
    r
}

} // verus!
