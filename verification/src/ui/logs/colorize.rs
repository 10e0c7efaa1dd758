//! How lines of live logs and events are split up and coloured.
use vstd::prelude::*;
use vstd::string::*;

use crate::ui::style::{
    bold, bold_str, line_view, lines_view, log_tone, log_tone_spec, plain_str, push_span, sp,
    bsp, SpanView, Styled, Tone,
};
use crate::text::{
    char_count, lines, lines_spec, split_char, split_spec, starts_with_str, ascii_lower_seq, ascii_upper_seq, contains_spec, contains_str, find_chars, find_from,
    find_spec, find_str, lemma_find_from, occurs_at, owned, rsplit_once_char,
    rsplit_once_char_spec, split_once, split_once_spec, str_eq, to_ascii_lowercase,
    to_ascii_uppercase, trim, trim_end, trim_end_spec, trim_matches, trim_matches_spec,
    trim_spec, trim_start, trim_start_spec, chars_of, ascii_upper, is_ws, trim_start_char_spec,
    trim_end_char_spec,
};

verus! {

/// A colour of log text; the application maps each to a terminal colour.
#[derive(Clone, Copy, Debug, PartialEq, Eq, Structural)]
pub enum LogColor {
    Red,
    LightRed,
    Yellow,
    LightBlue,
    Green,
    Gray,
}

/// A log line of the form `service | body`: the trimmed service and the body without
/// leading whitespace, where neither is blank.
pub open spec fn service_prefix_spec(line: Seq<char>) -> Option<(Seq<char>, Seq<char>)> {
    match split_once_spec(line, seq!['|']) {
        None => None,
        Some(pair) => if trim_spec(pair.0).len() == 0 || trim_spec(pair.1).len() == 0 {
            None
        } else {
            Some((trim_spec(pair.0), trim_start_spec(pair.1)))
        },
    }
}

pub fn split_service_prefix<'a>(line: &'a str) -> (r: Option<(&'a str, &'a str)>)
    ensures
        r matches Some(p) ==> service_prefix_spec(line@) == Some((p.0@, p.1@)),
        r is None ==> service_prefix_spec(line@) is None,
{
    let bar = "|";
    proof {
        reveal_strlit("|");
        assert(bar@ =~= seq!['|']);
    }
    let (service, body) = match split_once(line, bar) {
        Some(pair) => pair,
        None => return None,
    };
    if trim(service).is_empty() || trim(body).is_empty() {
        return None;
    }
    Some((trim(service), trim_start(body)))
}

/// The level markers looked for in a log body, in order.
pub open spec fn log_markers() -> Seq<Seq<char>> {
    seq![
        " TRACE "@,
        " DEBUG "@,
        " INFO "@,
        " NOTICE "@,
        " WARN "@,
        " WARNING "@,
        " ERROR "@,
        " ERR "@,
        " CRITICAL "@,
        " FATAL "@,
        " LOG:"@,
        " WARNING:"@,
        " ERROR:"@,
        " FATAL:"@,
        " * "@,
        " # "@,
        " - "@,
    ]
}

/// The body split at the first occurrence of a marker, as (head, marker, tail), where
/// head and tail are not empty once trimmed toward the marker.
pub open spec fn split_at_marker(body: Seq<char>, marker: Seq<char>) -> Option<
    (Seq<char>, Seq<char>, Seq<char>),
> {
    match find_spec(body, marker) {
        None => None,
        Some(k) => {
            let head = trim_end_spec(body.subrange(0, k));
            let tail = trim_start_spec(body.subrange(k + marker.len(), body.len() as int));
            if head.len() > 0 && tail.len() > 0 {
                Some((head, trim_spec(marker), tail))
            } else {
                None
            }
        },
    }
}

/// The split by the first marker, in the order of [`log_markers`], that gives one.
pub open spec fn log_marker_from(body: Seq<char>, i: int) -> Option<(Seq<char>, Seq<char>, Seq<char>)>
    decreases log_markers().len() - i,
{
    if i < 0 || i >= log_markers().len() {
        None
    } else {
        match split_at_marker(body, log_markers()[i]) {
            Some(t) => Some(t),
            None => log_marker_from(body, i + 1),
        }
    }
}

fn marker_at(i: usize) -> (m: &'static str)
    requires
        i < 17,
    ensures
        m@ == log_markers()[i as int],
{
    let markers: [&'static str; 17] = [
        " TRACE ",
        " DEBUG ",
        " INFO ",
        " NOTICE ",
        " WARN ",
        " WARNING ",
        " ERROR ",
        " ERR ",
        " CRITICAL ",
        " FATAL ",
        " LOG:",
        " WARNING:",
        " ERROR:",
        " FATAL:",
        " * ",
        " # ",
        " - ",
    ];
    let m = markers[i];
    assert(markers@.map_values(|s: &str| s@) =~= log_markers());
    assert(m@ == markers@.map_values(|s: &str| s@)[i as int]);
    m
}

pub fn split_log_marker<'a>(body: &'a str) -> (r: Option<(&'a str, &'static str, &'a str)>)
    ensures
        r matches Some(t) ==> log_marker_from(body@, 0) == Some((t.0@, t.1@, t.2@)),
        r is None ==> log_marker_from(body@, 0) is None,
{
    let v = chars_of(body);
    let vlen = v.len();
    let mut i: usize = 0;
    while i < 17
        invariant
            i <= 17,
            vlen == v.len(),
            v@ == body@,
            log_marker_from(body@, 0) == log_marker_from(body@, i as int),
        decreases 17 - i,
    {
        let marker = marker_at(i);
        let mv = chars_of(marker);
        match find_chars(&v, &mv, 0) {
            Some(k) => {
                proof {
                    lemma_find_from(v@, mv@, 0);
                    assert(occurs_at(v@, mv@, k as int));
                    assert(k + mv@.len() <= v@.len());
                }
                let end = k + mv.len();
                let head = trim_end(body.substring_char(0, k));
                let tail = trim_start(body.substring_char(end, v.len()));
                if !head.is_empty() && !tail.is_empty() {
                    let symbol = trim(marker);
                    return Some((head, symbol, tail));
                }
            },
            None => {},
        }
        i = i + 1;
    }
    None
}

/// Whether `s` contains any of `pats`.
pub open spec fn contains_any(s: Seq<char>, pats: Seq<Seq<char>>) -> bool {
    exists|i: int| 0 <= i < pats.len() && contains_spec(s, #[trigger] pats[i])
}

/// The colour of a log body, by the words it contains, ignoring ASCII case: failures
/// red, warnings yellow, debug output light blue, good news green, else gray.
pub open spec fn body_color_spec(body: Seq<char>) -> LogColor {
    let lower = ascii_lower_seq(body);
    if contains_any(
        lower,
        seq![" panic"@, " panicked"@, " fatal"@, "error"@, "exception"@, "crit"@],
    ) {
        LogColor::Red
    } else if contains_any(lower, seq!["warn"@, "timeout"@, "retry"@, "deprecated"@]) {
        LogColor::Yellow
    } else if contains_any(lower, seq!["debug"@, "trace"@]) {
        LogColor::LightBlue
    } else if contains_any(
        lower,
        seq![
            "started"@,
            "ready"@,
            "listening"@,
            "connected"@,
            "accept connections"@,
            "created"@,
            "loaded"@,
            "ok"@,
            "success"@,
        ],
    ) {
        LogColor::Green
    } else {
        LogColor::Gray
    }
}

/// Whether `s` contains one of the given texts.
fn contains_one_of(s: &str, pats: &Vec<&str>) -> (b: bool)
    ensures
        b == contains_any(s@, pats@.map_values(|p: &str| p@)),
{
    let ghost ps = pats@.map_values(|p: &str| p@);
    let mut i: usize = 0;
    while i < pats.len()
        invariant
            i <= pats@.len(),
            ps == pats@.map_values(|p: &str| p@),
            forall|k: int| 0 <= k < i ==> !contains_spec(s@, #[trigger] ps[k]),
        decreases pats.len() - i,
    {
        if contains_str(s, pats[i]) {
            assert(contains_spec(s@, ps[i as int]));
            return true;
        }
        i = i + 1;
    }
    false
}

pub fn classify_log_body_color(body: &str) -> (c: LogColor)
    ensures
        c == body_color_spec(body@),
{
    let lower = to_ascii_lowercase(body);
    let l = lower.as_str();
    let red = vec![" panic", " panicked", " fatal", "error", "exception", "crit"];
    let yellow = vec!["warn", "timeout", "retry", "deprecated"];
    let blue = vec!["debug", "trace"];
    let green = vec![
        "started",
        "ready",
        "listening",
        "connected",
        "accept connections",
        "created",
        "loaded",
        "ok",
        "success",
    ];
    assert(red@.map_values(|p: &str| p@) =~= seq![
        " panic"@,
        " panicked"@,
        " fatal"@,
        "error"@,
        "exception"@,
        "crit"@,
    ]);
    assert(yellow@.map_values(|p: &str| p@) =~= seq![
        "warn"@,
        "timeout"@,
        "retry"@,
        "deprecated"@,
    ]);
    assert(blue@.map_values(|p: &str| p@) =~= seq!["debug"@, "trace"@]);
    assert(green@.map_values(|p: &str| p@) =~= seq![
        "started"@,
        "ready"@,
        "listening"@,
        "connected"@,
        "accept connections"@,
        "created"@,
        "loaded"@,
        "ok"@,
        "success"@,
    ]);
    if contains_one_of(l, &red) {
        LogColor::Red
    } else if contains_one_of(l, &yellow) {
        LogColor::Yellow
    } else if contains_one_of(l, &blue) {
        LogColor::LightBlue
    } else if contains_one_of(l, &green) {
        LogColor::Green
    } else {
        LogColor::Gray
    }
}

/// The colour of a level marker, by its name without colons, ignoring ASCII case.
pub open spec fn marker_color_spec(marker: Seq<char>) -> LogColor {
    let m = ascii_upper_seq(trim_spec(trim_matches_spec(marker, ':')));
    if m == "ERROR"@ || m == "ERR"@ || m == "FATAL"@ || m == "CRITICAL"@ || m == "PANIC"@ {
        LogColor::Red
    } else if m == "WARN"@ || m == "WARNING"@ || m == "#"@ {
        LogColor::Yellow
    } else if m == "DEBUG"@ || m == "TRACE"@ || m == "-"@ {
        LogColor::LightBlue
    } else if m == "INFO"@ || m == "NOTICE"@ || m == "LOG"@ || m == "*"@ {
        LogColor::Green
    } else {
        LogColor::Gray
    }
}

/// The error-level marker names.
pub open spec fn is_error_level(name: Seq<char>) -> bool {
    name == "ERROR"@ || name == "ERR"@ || name == "FATAL"@ || name == "CRITICAL"@ || name
        == "PANIC"@
}

/// A marker that is a word of ASCII letters, in any case, is its own name: trimming
/// colons and whitespace leaves it as it is.
proof fn lemma_word_marker(marker: Seq<char>)
    requires
        marker.len() > 0,
        'A' <= ascii_upper_seq(marker)[0] <= 'Z',
        'A' <= ascii_upper_seq(marker)[marker.len() - 1] <= 'Z',
    ensures
        trim_spec(trim_matches_spec(marker, ':')) == marker,
{
    let n = marker.len();
    let u = ascii_upper_seq(marker);
    assert(u[0] == ascii_upper(marker[0]));
    assert(u[n - 1] == ascii_upper(marker[n - 1]));
    assert(('A' <= marker[0] <= 'Z' || 'a' <= marker[0] <= 'z') && ('A' <= marker[n - 1] <= 'Z'
        || 'a' <= marker[n - 1] <= 'z'));
    assert(trim_start_char_spec(marker, ':') == marker);
    assert(trim_end_char_spec(marker, ':') == marker);
    assert(!is_ws(marker[0]) && !is_ws(marker.last()));
    assert(trim_start_spec(marker) == marker);
    assert(trim_end_spec(marker) == marker);
}

/// The warning-level marker names.
pub open spec fn is_warning_level(name: Seq<char>) -> bool {
    name == "WARN"@ || name == "WARNING"@ || name == "#"@
}

/// The debug-level marker names.
pub open spec fn is_debug_level(name: Seq<char>) -> bool {
    name == "DEBUG"@ || name == "TRACE"@ || name == "-"@
}

/// The info-level marker names.
pub open spec fn is_info_level(name: Seq<char>) -> bool {
    name == "INFO"@ || name == "NOTICE"@ || name == "LOG"@ || name == "*"@
}

/// Law: error-level markers are red: a marker whose name, without surrounding colons and
/// whitespace and upper-cased, is `ERROR`, `ERR`, `FATAL`, `CRITICAL` or `PANIC`; in
/// particular any marker that is one of these words in any ASCII case. Likewise warnings
/// are yellow, debug and trace light blue, info and notices green, and any other marker
/// gray.
pub proof fn law_error_markers_are_red(marker: Seq<char>)
    ensures
        is_error_level(ascii_upper_seq(trim_spec(trim_matches_spec(marker, ':'))))
            ==> marker_color_spec(marker) == LogColor::Red,
        is_error_level(ascii_upper_seq(marker)) ==> marker_color_spec(marker) == LogColor::Red,
        is_warning_level(ascii_upper_seq(trim_spec(trim_matches_spec(marker, ':'))))
            ==> marker_color_spec(marker) == LogColor::Yellow,
        is_debug_level(ascii_upper_seq(trim_spec(trim_matches_spec(marker, ':'))))
            ==> marker_color_spec(marker) == LogColor::LightBlue,
        is_info_level(ascii_upper_seq(trim_spec(trim_matches_spec(marker, ':'))))
            ==> marker_color_spec(marker) == LogColor::Green,
        ({
            let name = ascii_upper_seq(trim_spec(trim_matches_spec(marker, ':')));
            !is_error_level(name) && !is_warning_level(name) && !is_debug_level(name)
                && !is_info_level(name) ==> marker_color_spec(marker) == LogColor::Gray
        }),
{
    reveal_strlit("ERROR");
    reveal_strlit("ERR");
    reveal_strlit("FATAL");
    reveal_strlit("CRITICAL");
    reveal_strlit("PANIC");
    reveal_strlit("WARN");
    reveal_strlit("WARNING");
    reveal_strlit("#");
    reveal_strlit("DEBUG");
    reveal_strlit("TRACE");
    reveal_strlit("-");
    reveal_strlit("INFO");
    reveal_strlit("NOTICE");
    reveal_strlit("LOG");
    reveal_strlit("*");
    let u = ascii_upper_seq(marker);
    if is_error_level(u) {
        assert(u.len() >= 3) by {
            if u == "ERROR"@ {
                assert(u.len() == 5);
            } else if u == "ERR"@ {
                assert(u.len() == 3);
            } else if u == "FATAL"@ {
                assert(u.len() == 5);
            } else if u == "CRITICAL"@ {
                assert(u.len() == 8);
            } else {
                assert(u.len() == 5);
            }
        }
        lemma_word_marker(marker);
    }
    let name = ascii_upper_seq(trim_spec(trim_matches_spec(marker, ':')));
    if is_warning_level(name) || is_debug_level(name) || is_info_level(name) {
        if is_error_level(name) {
            assert(name[0] == 'E' || name[0] == 'F' || name[0] == 'C' || name[0] == 'P');
            assert(name[0] == 'W' || name[0] == '#' || name[0] == 'D' || name[0] == 'T' || name[0]
                == '-' || name[0] == 'I' || name[0] == 'N' || name[0] == 'L' || name[0] == '*');
        }
    }
    if is_debug_level(name) || is_info_level(name) {
        if is_warning_level(name) {
            assert(name[0] == 'W' || name[0] == '#');
        }
    }
    if is_info_level(name) {
        if is_debug_level(name) {
            assert(name[0] == 'D' || name[0] == 'T' || name[0] == '-');
        }
    }
}

/// Law: a log body that mentions an error, an exception, a critical condition, a fatal
/// error or a panic, in any ASCII case, is red whatever else it mentions; one that
/// mentions none of these but a warning, timeout, retry or deprecation is yellow.
pub proof fn law_failures_are_red(body: Seq<char>)
    ensures
        ({
            let lower = ascii_lower_seq(body);
            (contains_spec(lower, "error"@) || contains_spec(lower, "exception"@) || contains_spec(
                lower,
                "crit"@,
            ) || contains_spec(lower, " fatal"@) || contains_spec(lower, " panic"@))
                ==> body_color_spec(body) == LogColor::Red
        }),
        ({
            let lower = ascii_lower_seq(body);
            body_color_spec(body) != LogColor::Red && (contains_spec(lower, "warn"@)
                || contains_spec(lower, "timeout"@) || contains_spec(lower, "retry"@)
                || contains_spec(lower, "deprecated"@)) ==> body_color_spec(body)
                == LogColor::Yellow
        }),
{
    let lower = ascii_lower_seq(body);
    let reds = seq![" panic"@, " panicked"@, " fatal"@, "error"@, "exception"@, "crit"@];
    let yellows = seq!["warn"@, "timeout"@, "retry"@, "deprecated"@];
    if contains_spec(lower, "error"@) {
        assert(contains_spec(lower, reds[3]));
    }
    if contains_spec(lower, "exception"@) {
        assert(contains_spec(lower, reds[4]));
    }
    if contains_spec(lower, "crit"@) {
        assert(contains_spec(lower, reds[5]));
    }
    if contains_spec(lower, " fatal"@) {
        assert(contains_spec(lower, reds[2]));
    }
    if contains_spec(lower, " panic"@) {
        assert(contains_spec(lower, reds[0]));
    }
    if contains_spec(lower, "warn"@) {
        assert(contains_spec(lower, yellows[0]));
    }
    if contains_spec(lower, "timeout"@) {
        assert(contains_spec(lower, yellows[1]));
    }
    if contains_spec(lower, "retry"@) {
        assert(contains_spec(lower, yellows[2]));
    }
    if contains_spec(lower, "deprecated"@) {
        assert(contains_spec(lower, yellows[3]));
    }
}

/// Law: in the event log, a container that starts or is confirmed running is green, one
/// that stops, is destroyed, paused or dies is red, a kill or an unhealthy report light
/// red.
pub proof fn law_event_action_colors(action: Seq<char>)
    ensures
        action_color_spec("start"@) == LogColor::Green,
        action_color_spec("running confirmed"@) == LogColor::Green,
        action_color_spec("health_status: healthy"@) == LogColor::Green,
        (action == "stop"@ || action == "destroy"@ || action == "pause"@ || action == "die"@)
            ==> action_color_spec(action) == LogColor::Red,
        action_color_spec("kill"@) == LogColor::LightRed,
        action_color_spec("health_status: unhealthy"@) == LogColor::LightRed,
{
    reveal_strlit("start");
    reveal_strlit("running (snapshot)");
    reveal_strlit("health_status: healthy");
    reveal_strlit("health_status: unhealthy");
    reveal_strlit("pull cached");
    reveal_strlit("pull complete");
    reveal_strlit("running confirmed");
    reveal_strlit("stopped confirmed");
    reveal_strlit("create");
    reveal_strlit("restart");
    reveal_strlit("unpause");
    reveal_strlit("start requested");
    reveal_strlit("stop requested");
    reveal_strlit("pulling images");
    reveal_strlit("up requested");
    reveal_strlit("stop");
    reveal_strlit("destroy");
    reveal_strlit("pause");
    reveal_strlit("die");
    reveal_strlit("kill");
    reveal_strlit("error");
    if action == "stop"@ {
        assert("stop"@.len() != "start"@.len());
        assert("stop"@.len() != "running (snapshot)"@.len());
        assert("stop"@.len() != "health_status: healthy"@.len());
        assert("stop"@.len() != "pull cached"@.len());
        assert("stop"@.len() != "pull complete"@.len());
        assert("stop"@.len() != "running confirmed"@.len());
        assert("stop"@.len() != "stopped confirmed"@.len());
        assert("stop"@.len() != "create"@.len());
        assert("stop"@.len() != "restart"@.len());
        assert("stop"@.len() != "unpause"@.len());
        assert("stop"@.len() != "start requested"@.len());
        assert("stop"@.len() != "stop requested"@.len());
        assert("stop"@.len() != "pulling images"@.len());
        assert("stop"@.len() != "up requested"@.len());
    }
    if action == "destroy"@ {
        assert("destroy"@.len() != "start"@.len());
        assert("destroy"@.len() != "running (snapshot)"@.len());
        assert("destroy"@.len() != "health_status: healthy"@.len());
        assert("destroy"@.len() != "pull cached"@.len());
        assert("destroy"@.len() != "pull complete"@.len());
        assert("destroy"@.len() != "running confirmed"@.len());
        assert("destroy"@.len() != "stopped confirmed"@.len());
        assert("destroy"@.len() != "create"@.len());
        assert("destroy"@[0] != "restart"@[0]);
        assert("destroy"@[0] != "unpause"@[0]);
        assert("destroy"@.len() != "start requested"@.len());
        assert("destroy"@.len() != "stop requested"@.len());
        assert("destroy"@.len() != "pulling images"@.len());
        assert("destroy"@.len() != "up requested"@.len());
    }
    if action == "pause"@ {
        assert("pause"@[0] != "start"@[0]);
        assert("pause"@.len() != "running (snapshot)"@.len());
        assert("pause"@.len() != "health_status: healthy"@.len());
        assert("pause"@.len() != "pull cached"@.len());
        assert("pause"@.len() != "pull complete"@.len());
        assert("pause"@.len() != "running confirmed"@.len());
        assert("pause"@.len() != "stopped confirmed"@.len());
        assert("pause"@.len() != "create"@.len());
        assert("pause"@.len() != "restart"@.len());
        assert("pause"@.len() != "unpause"@.len());
        assert("pause"@.len() != "start requested"@.len());
        assert("pause"@.len() != "stop requested"@.len());
        assert("pause"@.len() != "pulling images"@.len());
        assert("pause"@.len() != "up requested"@.len());
    }
    if action == "die"@ {
        assert("die"@.len() != "start"@.len());
        assert("die"@.len() != "running (snapshot)"@.len());
        assert("die"@.len() != "health_status: healthy"@.len());
        assert("die"@.len() != "pull cached"@.len());
        assert("die"@.len() != "pull complete"@.len());
        assert("die"@.len() != "running confirmed"@.len());
        assert("die"@.len() != "stopped confirmed"@.len());
        assert("die"@.len() != "create"@.len());
        assert("die"@.len() != "restart"@.len());
        assert("die"@.len() != "unpause"@.len());
        assert("die"@.len() != "start requested"@.len());
        assert("die"@.len() != "stop requested"@.len());
        assert("die"@.len() != "pulling images"@.len());
        assert("die"@.len() != "up requested"@.len());
    }
    {
        assert("kill"@.len() != "start"@.len());
        assert("kill"@.len() != "running (snapshot)"@.len());
        assert("kill"@.len() != "health_status: healthy"@.len());
        assert("kill"@.len() != "pull cached"@.len());
        assert("kill"@.len() != "pull complete"@.len());
        assert("kill"@.len() != "running confirmed"@.len());
        assert("kill"@.len() != "stopped confirmed"@.len());
        assert("kill"@.len() != "create"@.len());
        assert("kill"@.len() != "restart"@.len());
        assert("kill"@.len() != "unpause"@.len());
        assert("kill"@.len() != "start requested"@.len());
        assert("kill"@.len() != "stop requested"@.len());
        assert("kill"@.len() != "pulling images"@.len());
        assert("kill"@.len() != "up requested"@.len());
        assert("kill"@[0] != "stop"@[0]);
        assert("kill"@.len() != "destroy"@.len());
        assert("kill"@.len() != "pause"@.len());
        assert("kill"@.len() != "die"@.len());
    }
    {
        assert("health_status: unhealthy"@.len() != "start"@.len());
        assert("health_status: unhealthy"@.len() != "running (snapshot)"@.len());
        assert("health_status: unhealthy"@.len() != "health_status: healthy"@.len());
        assert("health_status: unhealthy"@.len() != "pull cached"@.len());
        assert("health_status: unhealthy"@.len() != "pull complete"@.len());
        assert("health_status: unhealthy"@.len() != "running confirmed"@.len());
        assert("health_status: unhealthy"@.len() != "stopped confirmed"@.len());
        assert("health_status: unhealthy"@.len() != "create"@.len());
        assert("health_status: unhealthy"@.len() != "restart"@.len());
        assert("health_status: unhealthy"@.len() != "unpause"@.len());
        assert("health_status: unhealthy"@.len() != "start requested"@.len());
        assert("health_status: unhealthy"@.len() != "stop requested"@.len());
        assert("health_status: unhealthy"@.len() != "pulling images"@.len());
        assert("health_status: unhealthy"@.len() != "up requested"@.len());
        assert("health_status: unhealthy"@.len() != "stop"@.len());
        assert("health_status: unhealthy"@.len() != "destroy"@.len());
        assert("health_status: unhealthy"@.len() != "pause"@.len());
        assert("health_status: unhealthy"@.len() != "die"@.len());
    }
}

/// Whether `s` equals one of the given texts.
fn equals_one_of(s: &str, pats: &Vec<&str>) -> (b: bool)
    ensures
        b == pats@.map_values(|p: &str| p@).contains(s@),
{
    let ghost ps = pats@.map_values(|p: &str| p@);
    let mut i: usize = 0;
    while i < pats.len()
        invariant
            i <= pats@.len(),
            ps == pats@.map_values(|p: &str| p@),
            forall|k: int| 0 <= k < i ==> ps[k] != s@,
        decreases pats.len() - i,
    {
        if str_eq(s, pats[i]) {
            assert(ps[i as int] == s@);
            return true;
        }
        i = i + 1;
    }
    false
}

pub fn log_marker_color(marker: &str) -> (c: LogColor)
    ensures
        c == marker_color_spec(marker@),
{
    let upper = to_ascii_uppercase(trim(trim_matches(marker, ':')));
    let m = upper.as_str();
    let red = vec!["ERROR", "ERR", "FATAL", "CRITICAL", "PANIC"];
    let yellow = vec!["WARN", "WARNING", "#"];
    let blue = vec!["DEBUG", "TRACE", "-"];
    let green = vec!["INFO", "NOTICE", "LOG", "*"];
    let ghost gm = m@;
    assert(red@.map_values(|p: &str| p@) =~= seq!["ERROR"@, "ERR"@, "FATAL"@, "CRITICAL"@, "PANIC"@]);
    assert(yellow@.map_values(|p: &str| p@) =~= seq!["WARN"@, "WARNING"@, "#"@]);
    assert(blue@.map_values(|p: &str| p@) =~= seq!["DEBUG"@, "TRACE"@, "-"@]);
    assert(green@.map_values(|p: &str| p@) =~= seq!["INFO"@, "NOTICE"@, "LOG"@, "*"@]);
    let r = if equals_one_of(m, &red) {
        LogColor::Red
    } else if equals_one_of(m, &yellow) {
        LogColor::Yellow
    } else if equals_one_of(m, &blue) {
        LogColor::LightBlue
    } else if equals_one_of(m, &green) {
        LogColor::Green
    } else {
        LogColor::Gray
    };
    proof {
        let rs = seq!["ERROR"@, "ERR"@, "FATAL"@, "CRITICAL"@, "PANIC"@];
        let ys = seq!["WARN"@, "WARNING"@, "#"@];
        let bs = seq!["DEBUG"@, "TRACE"@, "-"@];
        let gs = seq!["INFO"@, "NOTICE"@, "LOG"@, "*"@];
        assert(rs.contains(gm) == (gm == "ERROR"@ || gm == "ERR"@ || gm == "FATAL"@ || gm
            == "CRITICAL"@ || gm == "PANIC"@)) by {
            if gm == "ERROR"@ { assert(rs[0] == gm); }
            if gm == "ERR"@ { assert(rs[1] == gm); }
            if gm == "FATAL"@ { assert(rs[2] == gm); }
            if gm == "CRITICAL"@ { assert(rs[3] == gm); }
            if gm == "PANIC"@ { assert(rs[4] == gm); }
        }
        assert(ys.contains(gm) == (gm == "WARN"@ || gm == "WARNING"@ || gm == "#"@)) by {
            if gm == "WARN"@ { assert(ys[0] == gm); }
            if gm == "WARNING"@ { assert(ys[1] == gm); }
            if gm == "#"@ { assert(ys[2] == gm); }
        }
        assert(bs.contains(gm) == (gm == "DEBUG"@ || gm == "TRACE"@ || gm == "-"@)) by {
            if gm == "DEBUG"@ { assert(bs[0] == gm); }
            if gm == "TRACE"@ { assert(bs[1] == gm); }
            if gm == "-"@ { assert(bs[2] == gm); }
        }
        assert(gs.contains(gm) == (gm == "INFO"@ || gm == "NOTICE"@ || gm == "LOG"@ || gm
            == "*"@)) by {
            if gm == "INFO"@ { assert(gs[0] == gm); }
            if gm == "NOTICE"@ { assert(gs[1] == gm); }
            if gm == "LOG"@ { assert(gs[2] == gm); }
            if gm == "*"@ { assert(gs[3] == gm); }
        }
    }
    r
}

/// The colour of an event action.
pub open spec fn action_color_spec(action: Seq<char>) -> LogColor {
    if action == "start"@ || action == "running (snapshot)"@ || action
        == "health_status: healthy"@ || action == "pull cached"@ || action == "pull complete"@
        || action == "running confirmed"@ || action == "stopped confirmed"@ {
        LogColor::Green
    } else if action == "create"@ || action == "restart"@ || action == "unpause"@ || action
        == "start requested"@ || action == "stop requested"@ || action == "pulling images"@
        || action == "up requested"@ {
        LogColor::Yellow
    } else if action == "stop"@ || action == "destroy"@ || action == "pause"@ || action
        == "die"@ {
        LogColor::Red
    } else if action == "kill"@ || action == "health_status: unhealthy"@ || action
        == "error"@ {
        LogColor::LightRed
    } else if contains_spec(action, "failed"@) || contains_spec(action, "not running"@) {
        LogColor::LightRed
    } else {
        LogColor::Gray
    }
}

pub fn event_action_color(action: &str) -> (c: LogColor)
    ensures
        c == action_color_spec(action@),
{
    let green = vec![
        "start",
        "running (snapshot)",
        "health_status: healthy",
        "pull cached",
        "pull complete",
        "running confirmed",
        "stopped confirmed",
    ];
    let yellow = vec![
        "create",
        "restart",
        "unpause",
        "start requested",
        "stop requested",
        "pulling images",
        "up requested",
    ];
    let red = vec!["stop", "destroy", "pause", "die"];
    let light_red = vec!["kill", "health_status: unhealthy", "error"];
    let ghost a = action@;
    let ghost gs = seq![
        "start"@,
        "running (snapshot)"@,
        "health_status: healthy"@,
        "pull cached"@,
        "pull complete"@,
        "running confirmed"@,
        "stopped confirmed"@,
    ];
    assert(green@.map_values(|p: &str| p@) =~= gs);
    let ghost ys = seq![
        "create"@,
        "restart"@,
        "unpause"@,
        "start requested"@,
        "stop requested"@,
        "pulling images"@,
        "up requested"@,
    ];
    assert(yellow@.map_values(|p: &str| p@) =~= ys);
    let ghost rs = seq!["stop"@, "destroy"@, "pause"@, "die"@];
    assert(red@.map_values(|p: &str| p@) =~= rs);
    let ghost ls = seq!["kill"@, "health_status: unhealthy"@, "error"@];
    assert(light_red@.map_values(|p: &str| p@) =~= ls);
    proof {
        assert(gs.contains(a) == (a == gs[0] || a == gs[1] || a == gs[2] || a == gs[3] || a
            == gs[4] || a == gs[5] || a == gs[6]));
        assert(ys.contains(a) == (a == ys[0] || a == ys[1] || a == ys[2] || a == ys[3] || a
            == ys[4] || a == ys[5] || a == ys[6]));
        assert(rs.contains(a) == (a == rs[0] || a == rs[1] || a == rs[2] || a == rs[3]));
        assert(ls.contains(a) == (a == ls[0] || a == ls[1] || a == ls[2]));
    }
    if equals_one_of(action, &green) {
        LogColor::Green
    } else if equals_one_of(action, &yellow) {
        LogColor::Yellow
    } else if equals_one_of(action, &red) {
        LogColor::Red
    } else if equals_one_of(action, &light_red) {
        LogColor::LightRed
    } else if contains_str(action, "failed") || contains_str(action, "not running") {
        LogColor::LightRed
    } else {
        LogColor::Gray
    }
}

/// The colour of the text after a level marker: the body's colour, but gray rather than
/// green after an informational marker.
pub open spec fn tail_color_spec(marker: Seq<char>, tail: Seq<char>) -> LogColor {
    let m = ascii_upper_seq(trim_spec(trim_matches_spec(marker, ':')));
    if body_color_spec(tail) == LogColor::Green && (m == "LOG"@ || m == "INFO"@ || m == "NOTICE"@
        || m == "*"@) {
        LogColor::Gray
    } else {
        body_color_spec(tail)
    }
}

pub fn tail_color(marker: &str, tail: &str) -> (c: LogColor)
    ensures
        c == tail_color_spec(marker@, tail@),
{
    let level = to_ascii_uppercase(trim(trim_matches(marker, ':')));
    let color = classify_log_body_color(tail);
    let l = level.as_str();
    if (str_eq(l, "LOG") || str_eq(l, "INFO") || str_eq(l, "NOTICE") || str_eq(l, "*"))
        && color == LogColor::Green {
        LogColor::Gray
    } else {
        color
    }
}

/// The text between the brackets that follow the first `key` in `details`.
pub open spec fn bracket_body_spec(details: Seq<char>, key: Seq<char>) -> Option<Seq<char>> {
    match find_spec(details, key) {
        None => None,
        Some(k) => {
            let rest = details.subrange(k + key.len(), details.len() as int);
            if rest.len() == 0 || rest[0] != '[' {
                None
            } else {
                match find_spec(rest, seq![']']) {
                    None => None,
                    Some(e) => Some(rest.subrange(1, e)),
                }
            }
        },
    }
}

pub fn extract_bracket_body(details: &str, key: &str) -> (r: Option<String>)
    ensures
        r matches Some(b) ==> bracket_body_spec(details@, key@) == Some(b@),
        r is None ==> bracket_body_spec(details@, key@) is None,
{
    let dv = chars_of(details);
    let kv = chars_of(key);
    let dlen = dv.len();
    let k = match find_chars(&dv, &kv, 0) {
        Some(k) => k,
        None => return None,
    };
    proof {
        lemma_find_from(dv@, kv@, 0);
        assert(occurs_at(dv@, kv@, k as int));
        assert(k + kv@.len() <= dv@.len());
    }
    let start = k + kv.len();
    let rest = details.substring_char(start, dlen);
    let rv = chars_of(rest);
    if rv.len() == 0 || rv[0] != '[' {
        return None;
    }
    let close = vec![']'];
    assert(close@ =~= seq![']']);
    let e = match find_chars(&rv, &close, 0) {
        Some(e) => e,
        None => return None,
    };
    proof {
        lemma_find_from(rv@, close@, 0);
        assert(occurs_at(rv@, close@, e as int));
        assert(rv@[e as int] == ']');
    }
    Some(owned(rest.substring_char(1, e)))
}

/// How a network mapping `network=ip` is shown: the address, or the network with a
/// placeholder address.
pub fn compact_ip_label(network: &str, ip: &str) -> (r: String)
    ensures
        r@ == (if ip@ == "pending"@ || ip@ == "unknown"@ {
            network@ + ":"@ + ip@
        } else {
            ip@
        }),
{
    if str_eq(ip, "pending") || str_eq(ip, "unknown") {
        let mut r = owned(network);
        r.append(":");
        r.append(ip);
        r
    } else {
        owned(ip)
    }
}

/// How a port mapping `port/proto=binding` is shown: the port alone where the host port
/// is the same, `port->host` where it differs, `port int` where it is not published.
pub open spec fn port_label_spec(container_port: Seq<char>, host_binding: Seq<char>) -> Seq<char> {
    let port = match split_once_spec(container_port, seq!['/']) {
        Some(pair) => pair.0,
        None => container_port,
    };
    if host_binding == "internal"@ {
        port + " int"@
    } else {
        match rsplit_once_char_spec(host_binding, ':') {
            Some(pair) => if pair.1 == port {
                pair.1
            } else {
                port + "->"@ + pair.1
            },
            None => port + "->"@ + host_binding,
        }
    }
}

pub fn compact_port_label(container_port: &str, host_binding: &str) -> (r: String)
    ensures
        r@ == port_label_spec(container_port@, host_binding@),
{
    let slash = "/";
    proof {
        reveal_strlit("/");
        assert(slash@ =~= seq!['/']);
    }
    let port = match split_once(container_port, slash) {
        Some((p, _)) => p,
        None => container_port,
    };
    if str_eq(host_binding, "internal") {
        let mut r = owned(port);
        r.append(" int");
        return r;
    }
    match rsplit_once_char(host_binding, ':') {
        Some((_, host_port)) => {
            if str_eq(host_port, port) {
                owned(host_port)
            } else {
                let mut r = owned(port);
                r.append("->");
                r.append(host_port);
                r
            }
        },
        None => {
            let mut r = owned(port);
            r.append("->");
            r.append(host_binding);
            r
        },
    }
}

/// The runs of a line of a container's output: the service prefix in bold cyan, then the
/// text before a level marker dimmed, the marker in its colour and the rest in the colour
/// of its words; without a marker the body in the colour of its words.
pub open spec fn runtime_line_spec(line: Seq<char>) -> Seq<SpanView> {
    match service_prefix_spec(line) {
        Some((svc, body)) => match log_marker_from(body, 0) {
            Some((head, marker, tail)) => seq![
                bsp(svc + " | "@, Tone::Cyan),
                sp(head, Tone::DarkGray),
                sp(" "@, Tone::DarkGray),
                sp(marker, log_tone_spec(marker_color_spec(marker))),
                sp(" "@, Tone::DarkGray),
                sp(tail, log_tone_spec(tail_color_spec(marker, tail))),
            ],
            None => seq![
                bsp(svc + " | "@, Tone::Cyan),
                sp(body, log_tone_spec(body_color_spec(body))),
            ],
        },
        None => seq![sp(line, log_tone_spec(body_color_spec(line)))],
    }
}

pub fn colorize_runtime_log_line(line: &str) -> (r: Vec<Styled>)
    ensures
        line_view(r@) == runtime_line_spec(line@),
{
    let mut out: Vec<Styled> = Vec::new();
    match split_service_prefix(line) {
        Some((service, body)) => {
            let mut prefix = owned(service);
            prefix.append(" | ");
            push_span(&mut out, bold(prefix, Tone::Cyan));
            match split_log_marker(body) {
                Some((head, marker, tail)) => {
                    push_span(&mut out, plain_str(head, Tone::DarkGray));
                    push_span(&mut out, plain_str(" ", Tone::DarkGray));
                    push_span(&mut out, plain_str(marker, log_tone(log_marker_color(marker))));
                    push_span(&mut out, plain_str(" ", Tone::DarkGray));
                    push_span(&mut out, plain_str(tail, log_tone(tail_color(marker, tail))));
                },
                None => {
                    push_span(&mut out, plain_str(body, log_tone(classify_log_body_color(body))));
                },
            }
        },
        None => {
            push_span(&mut out, plain_str(line, log_tone(classify_log_body_color(line))));
        },
    }
    assert(line_view(out@) =~= runtime_line_spec(line@));
    out
}

/// The runs of one line of the command log: section headers in bold, failures red,
/// successes green, blank lines empty, container output as [`runtime_line_spec`].
pub open spec fn log_line_spec(raw: Seq<char>) -> Seq<SpanView> {
    if "Pull output:"@.is_prefix_of(raw) {
        seq![bsp("Pull output:"@, Tone::Cyan)]
    } else if "Up output:"@.is_prefix_of(raw) {
        seq![bsp("Up output:"@, Tone::Green)]
    } else if "Down output:"@.is_prefix_of(raw) {
        seq![bsp("Down output:"@, Tone::Red)]
    } else if contains_spec(raw, "failed"@) || contains_spec(raw, "Failed"@) || contains_spec(
        raw,
        "error"@,
    ) || contains_spec(raw, "Error"@) {
        seq![sp(raw, Tone::Red)]
    } else if contains_spec(raw, "success"@) || contains_spec(raw, "Success"@) || contains_spec(
        raw,
        "done"@,
    ) || contains_spec(raw, "Done"@) {
        seq![sp(raw, Tone::Green)]
    } else if trim_spec(raw).len() == 0 {
        seq![]
    } else {
        runtime_line_spec(raw)
    }
}

fn colorize_log_line(raw: &str) -> (r: Vec<Styled>)
    ensures
        line_view(r@) == log_line_spec(raw@),
{
    let mut out: Vec<Styled> = Vec::new();
    if starts_with_str(raw, "Pull output:") {
        push_span(&mut out, bold_str("Pull output:", Tone::Cyan));
    } else if starts_with_str(raw, "Up output:") {
        push_span(&mut out, bold_str("Up output:", Tone::Green));
    } else if starts_with_str(raw, "Down output:") {
        push_span(&mut out, bold_str("Down output:", Tone::Red));
    } else if contains_str(raw, "failed") || contains_str(raw, "Failed") || contains_str(
        raw,
        "error",
    ) || contains_str(raw, "Error") {
        push_span(&mut out, plain_str(raw, Tone::Red));
    } else if contains_str(raw, "success") || contains_str(raw, "Success") || contains_str(
        raw,
        "done",
    ) || contains_str(raw, "Done") {
        push_span(&mut out, plain_str(raw, Tone::Green));
    } else if trim(raw).is_empty() {
    } else {
        return colorize_runtime_log_line(raw);
    }
    assert(line_view(out@) =~= log_line_spec(raw@));
    out
}

/// The lines of the command log, each coloured as [`log_line_spec`].
pub fn colorize_logs(logs: &str) -> (r: Vec<Vec<Styled>>)
    ensures
        lines_view(r@) == lines_spec(logs@).map_values(|l: Seq<char>| log_line_spec(l)),
{
    let ls = lines(logs);
    let ghost want = lines_spec(logs@).map_values(|l: Seq<char>| log_line_spec(l));
    let mut out: Vec<Vec<Styled>> = Vec::new();
    let mut i: usize = 0;
    while i < ls.len()
        invariant
            i <= ls@.len(),
            ls@.len() == lines_spec(logs@).len(),
            forall|k: int| 0 <= k < ls@.len() ==> #[trigger] ls@[k]@ == lines_spec(logs@)[k],
            want == lines_spec(logs@).map_values(|l: Seq<char>| log_line_spec(l)),
            lines_view(out@) == want.take(i as int),
        decreases ls.len() - i,
    {
        let line = colorize_log_line(ls[i]);
        let ghost lv = line_view(line@);
        let ghost before = out@;
        out.push(line);
        proof {
            assert(ls@[i as int]@ == lines_spec(logs@)[i as int]);
            assert(lines_view(out@) =~= lines_view(before).push(lv));
            assert(want[i as int] == lv);
            assert(want.take(i + 1) =~= want.take(i as int).push(want[i as int]));
        }
        i = i + 1;
    }
    assert(want.take(ls.len() as int) =~= want);
    out
}

/// The runs of a list of mappings (`a=b, c=d`): each shown through `label` in bold
/// `tone`, or as it is in gray where it has no `=`; empty ones skipped; a dimmed comma
/// before each but the first piece.
pub open spec fn mapping_spans(parts: Seq<Seq<char>>, ports: bool) -> Seq<SpanView>
    decreases parts.len(),
{
    if parts.len() == 0 {
        seq![]
    } else {
        let idx = parts.len() - 1;
        let m = trim_spec(parts.last());
        let before = mapping_spans(parts.drop_last(), ports);
        if m.len() == 0 {
            before
        } else {
            let sep = if idx > 0 {
                seq![sp(", "@, Tone::DarkGray)]
            } else {
                seq![]
            };
            let item = match split_once_spec(m, seq!['=']) {
                Some(pair) => if ports {
                    bsp(port_label_spec(pair.0, pair.1), Tone::LightMagenta)
                } else {
                    bsp(
                        if pair.1 == "pending"@ || pair.1 == "unknown"@ {
                            pair.0 + ":"@ + pair.1
                        } else {
                            pair.1
                        },
                        Tone::Green,
                    )
                },
                None => sp(m, Tone::Gray),
            };
            before + sep + seq![item]
        }
    }
}

fn colorize_mappings(mappings: &str, ports: bool) -> (r: Vec<Styled>)
    ensures
        line_view(r@) == mapping_spans(split_spec(mappings@, ','), ports),
{
    let parts = split_char(mappings, ',');
    let ghost ps = split_spec(mappings@, ',');
    let eq = "=";
    proof {
        reveal_strlit("=");
        assert(eq@ =~= seq!['=']);
    }
    let mut out: Vec<Styled> = Vec::new();
    let mut i: usize = 0;
    assert(ps.take(0) =~= Seq::<Seq<char>>::empty());
    while i < parts.len()
        invariant
            i <= parts@.len(),
            parts@.len() == ps.len(),
            ps == split_spec(mappings@, ','),
            eq@ == seq!['='],
            forall|k: int| 0 <= k < parts@.len() ==> #[trigger] parts@[k]@ == ps[k],
            line_view(out@) == mapping_spans(ps.take(i as int), ports),
        decreases parts.len() - i,
    {
        assert(ps.take(i + 1).drop_last() =~= ps.take(i as int));
        assert(parts@[i as int]@ == ps[i as int]);
        let mapping = trim(parts[i]);
        if !mapping.is_empty() {
            if i > 0 {
                push_span(&mut out, plain_str(", ", Tone::DarkGray));
            }
            match split_once(mapping, eq) {
                Some((a, b)) => {
                    if ports {
                        push_span(&mut out, bold(compact_port_label(a, b), Tone::LightMagenta));
                    } else {
                        push_span(&mut out, bold(compact_ip_label(a, b), Tone::Green));
                    }
                },
                None => {
                    push_span(&mut out, plain_str(mapping, Tone::Gray));
                },
            }
        }
        assert(line_view(out@) =~= mapping_spans(ps.take(i + 1), ports));
        i = i + 1;
    }
    assert(ps.take(parts.len() as int) =~= ps);
    out
}

pub fn colorize_compact_ip_mappings(mappings: &str) -> (r: Vec<Styled>)
    ensures
        line_view(r@) == mapping_spans(split_spec(mappings@, ','), false),
{
    colorize_mappings(mappings, false)
}

pub fn colorize_compact_port_mappings(mappings: &str) -> (r: Vec<Styled>)
    ensures
        line_view(r@) == mapping_spans(split_spec(mappings@, ','), true),
{
    colorize_mappings(mappings, true)
}

/// The runs of a runtime event line: the scope, `runtime`, then the addresses and ports
/// (compacted), or the raw details where they hold no ports.
pub open spec fn runtime_event_spec(scope: Seq<char>, details: Seq<char>) -> Seq<SpanView> {
    let head = seq![
        sp("[event] "@, Tone::DarkGray),
        bsp(scope + " "@, Tone::Cyan),
        sp("runtime "@, Tone::Yellow),
    ];
    let ips = match bracket_body_spec(details, "ips="@) {
        Some(b) => seq![sp("ip "@, Tone::Blue)] + mapping_spans(split_spec(b, ','), false),
        None => seq![],
    };
    let ports = match bracket_body_spec(details, "ports="@) {
        Some(b) => seq![sp(" "@, Tone::DarkGray), sp("ports "@, Tone::Magenta)] + mapping_spans(
            split_spec(b, ','),
            true,
        ),
        None => seq![sp(details, Tone::Gray)],
    };
    head + ips + ports
}

fn append_spans(out: &mut Vec<Styled>, more: Vec<Styled>)
    ensures
        line_view(final(out)@) == line_view(old(out)@) + line_view(more@),
{
    let ghost mv = line_view(more@);
    let mut more = more;
    out.append(&mut more);
    assert(line_view(out@) =~= line_view(old(out)@) + mv);
}

pub fn colorize_runtime_event(scope: &str, details: &str) -> (r: Vec<Styled>)
    ensures
        line_view(r@) == runtime_event_spec(scope@, details@),
{
    let mut out: Vec<Styled> = Vec::new();
    push_span(&mut out, plain_str("[event] ", Tone::DarkGray));
    let mut s = owned(scope);
    s.append(" ");
    push_span(&mut out, bold(s, Tone::Cyan));
    push_span(&mut out, plain_str("runtime ", Tone::Yellow));
    let ghost head = line_view(out@);
    match extract_bracket_body(details, "ips=") {
        Some(b) => {
            push_span(&mut out, plain_str("ip ", Tone::Blue));
            append_spans(&mut out, colorize_compact_ip_mappings(b.as_str()));
        },
        None => {},
    }
    let ghost with_ips = line_view(out@);
    match extract_bracket_body(details, "ports=") {
        Some(b) => {
            push_span(&mut out, plain_str(" ", Tone::DarkGray));
            push_span(&mut out, plain_str("ports ", Tone::Magenta));
            append_spans(&mut out, colorize_compact_port_mappings(b.as_str()));
        },
        None => {
            push_span(&mut out, plain_str(details, Tone::Gray));
        },
    }
    assert(line_view(out@) =~= runtime_event_spec(scope@, details@));
    out
}

/// The runs of one line of the event log: an action in its colour after a bold scope, a
/// runtime line as [`runtime_event_spec`], anything else gray; blank lines empty.
pub open spec fn event_line_spec(raw: Seq<char>) -> Seq<SpanView> {
    if trim_spec(raw).len() == 0 {
        seq![]
    } else if "[event] "@.is_prefix_of(raw) {
        let rest = raw.skip(8);
        if "runtime "@.is_prefix_of(rest) {
            runtime_event_spec("service"@, rest.skip(8))
        } else {
            match split_once_spec(rest, " runtime "@) {
                Some(pair) => runtime_event_spec(pair.0, pair.1),
                None => match split_once_spec(rest, " "@) {
                    Some(pair) => seq![
                        sp("[event] "@, Tone::DarkGray),
                        bsp(pair.0 + " "@, Tone::Cyan),
                        sp(pair.1, log_tone_spec(action_color_spec(pair.1))),
                    ],
                    None => seq![sp(raw, Tone::Gray)],
                },
            }
        }
    } else {
        seq![sp(raw, Tone::Gray)]
    }
}

fn colorize_event_line(raw: &str) -> (r: Vec<Styled>)
    ensures
        line_view(r@) == event_line_spec(raw@),
{
    let mut out: Vec<Styled> = Vec::new();
    if trim(raw).is_empty() {
        assert(line_view(out@) =~= event_line_spec(raw@));
        return out;
    }
    let prefix = "[event] ";
    proof {
        reveal_strlit("[event] ");
        reveal_strlit("runtime ");
    }
    if starts_with_str(raw, prefix) {
        let n = char_count(raw);
        let rest = raw.substring_char(8, n);
        assert(rest@ =~= raw@.skip(8));
        if starts_with_str(rest, "runtime ") {
            let m = char_count(rest);
            let payload = rest.substring_char(8, m);
            assert(payload@ =~= rest@.skip(8));
            return colorize_runtime_event("service", payload);
        }
        match split_once(rest, " runtime ") {
            Some((scope, details)) => {
                return colorize_runtime_event(scope, details);
            },
            None => {},
        }
        match split_once(rest, " ") {
            Some((scope, action)) => {
                push_span(&mut out, plain_str("[event] ", Tone::DarkGray));
                let mut s = owned(scope);
                s.append(" ");
                push_span(&mut out, bold(s, Tone::Cyan));
                push_span(&mut out, plain_str(action, log_tone(event_action_color(action))));
            },
            None => {
                push_span(&mut out, plain_str(raw, Tone::Gray));
            },
        }
    } else {
        push_span(&mut out, plain_str(raw, Tone::Gray));
    }
    assert(line_view(out@) =~= event_line_spec(raw@));
    out
}

/// The lines of the event log, each coloured as [`event_line_spec`].
pub fn colorize_events(logs: &str) -> (r: Vec<Vec<Styled>>)
    ensures
        lines_view(r@) == lines_spec(logs@).map_values(|l: Seq<char>| event_line_spec(l)),
{
    let ls = lines(logs);
    let ghost want = lines_spec(logs@).map_values(|l: Seq<char>| event_line_spec(l));
    let mut out: Vec<Vec<Styled>> = Vec::new();
    let mut i: usize = 0;
    while i < ls.len()
        invariant
            i <= ls@.len(),
            ls@.len() == lines_spec(logs@).len(),
            forall|k: int| 0 <= k < ls@.len() ==> #[trigger] ls@[k]@ == lines_spec(logs@)[k],
            want == lines_spec(logs@).map_values(|l: Seq<char>| event_line_spec(l)),
            lines_view(out@) == want.take(i as int),
        decreases ls.len() - i,
    {
        let line = colorize_event_line(ls[i]);
        let ghost lv = line_view(line@);
        let ghost before = out@;
        out.push(line);
        proof {
            assert(ls@[i as int]@ == lines_spec(logs@)[i as int]);
            assert(lines_view(out@) =~= lines_view(before).push(lv));
            assert(want[i as int] == lv);
            assert(want.take(i + 1) =~= want.take(i as int).push(want[i as int]));
        }
        i = i + 1;
    }
    assert(want.take(ls.len() as int) =~= want);
    out
}

} // verus!
