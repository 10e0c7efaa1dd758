//! How a project is shown in the services list.
use vstd::prelude::*;
use vstd::string::*;

use crate::status::Status;
use crate::text::{char_count, chars_of, decimal_spec, owned, push_char, push_decimal, string_from_chars};
use crate::ui::style::{bold, bsp, line_view, plain, plain_str, push_span, sp, theme_tone, theme_tone_spec, SpanView, Styled, Tone};
use crate::ui::theme::{status_color, status_color_spec, ThemeColor};

verus! {

/// The label of a status.
pub open spec fn status_label_spec(status: Status) -> Seq<char> {
    match status {
        Status::Running => "RUNNING"@,
        Status::Stopped => "STOPPED"@,
        Status::Starting => "STARTING"@,
        Status::Stopping => "STOPPING"@,
        Status::Pulling => "PULLING"@,
        Status::Error => "ERROR"@,
        Status::RuntimeUnavailable => "NO PODMAN"@,
    }
}

pub fn status_label(status: &Status) -> (r: &'static str)
    ensures
        r@ == status_label_spec(*status),
{
    match status {
        Status::Running => "RUNNING",
        Status::Stopped => "STOPPED",
        Status::Starting => "STARTING",
        Status::Stopping => "STOPPING",
        Status::Pulling => "PULLING",
        Status::Error => "ERROR",
        Status::RuntimeUnavailable => "NO PODMAN",
    }
}

/// The marker of a status; starting and stopping animate, changing every second frame.
pub open spec fn status_indicator_spec(status: Status, tick: u64) -> Seq<char> {
    let f = (tick / 2) % 4;
    match status {
        Status::Running => "●"@,
        Status::Pulling => "◌"@,
        Status::Starting => if f == 0 {
            "◜"@
        } else if f == 1 {
            "◠"@
        } else if f == 2 {
            "◝"@
        } else {
            "◞"@
        },
        Status::Stopping => if f == 0 {
            "◟"@
        } else if f == 1 {
            "◡"@
        } else if f == 2 {
            "◞"@
        } else {
            "◜"@
        },
        Status::Stopped | Status::RuntimeUnavailable => "○"@,
        Status::Error => "×"@,
    }
}

pub fn status_indicator(status: &Status, tick: u64) -> (r: &'static str)
    ensures
        r@ == status_indicator_spec(*status, tick),
{
    let f = (tick / 2) % 4;
    match status {
        Status::Running => "●",
        Status::Pulling => "◌",
        Status::Starting => if f == 0 {
            "◜"
        } else if f == 1 {
            "◠"
        } else if f == 2 {
            "◝"
        } else {
            "◞"
        },
        Status::Stopping => if f == 0 {
            "◟"
        } else if f == 1 {
            "◡"
        } else if f == 2 {
            "◞"
        } else {
            "◜"
        },
        Status::Stopped | Status::RuntimeUnavailable => "○",
        Status::Error => "×",
    }
}

/// A name cut to `max_width` characters, its last kept character replaced by an ellipsis
/// where it was cut.
pub open spec fn truncate_spec(value: Seq<char>, max_width: nat) -> Seq<char> {
    if value.len() <= max_width {
        value
    } else if max_width == 0 {
        seq![]
    } else if max_width == 1 {
        seq!['…']
    } else {
        value.take(max_width - 1).push('…')
    }
}

pub fn truncate(value: &str, max_width: usize) -> (r: String)
    ensures
        r@ == truncate_spec(value@, max_width as nat),
        r@.len() <= max_width,
{
    let count = char_count(value);
    if count <= max_width {
        return String::from_str(value);
    }
    if max_width == 0 {
        return String::new();
    }
    if max_width == 1 {
        let mut r = String::new();
        push_char(&mut r, '…');
        assert(r@ =~= seq!['…']);
        return r;
    }
    let v = chars_of(value);
    let mut kept: Vec<char> = Vec::new();
    let mut i: usize = 0;
    while i < max_width - 1
        invariant
            i <= max_width - 1,
            max_width - 1 < v@.len(),
            v@ == value@,
            kept@ == v@.take(i as int),
        decreases max_width - 1 - i,
    {
        kept.push(v[i]);
        assert(kept@ =~= v@.take(i + 1));
        i = i + 1;
    }
    kept.push('…');
    string_from_chars(&kept)
}

/// A name padded with spaces to `width` characters.
pub open spec fn pad_right_spec(value: Seq<char>, width: nat) -> Seq<char> {
    if value.len() >= width {
        value
    } else {
        value + Seq::new((width - value.len()) as nat, |i: int| ' ')
    }
}

pub fn pad_right(value: String, width: usize) -> (r: String)
    ensures
        r@ == pad_right_spec(value@, width as nat),
{
    let count = char_count(value.as_str());
    let padding = width.saturating_sub(count);
    let mut value = value;
    let ghost start = value@;
    let mut i: usize = 0;
    while i < padding
        invariant
            i <= padding,
            value@ == start + Seq::new(i as nat, |k: int| ' '),
        decreases padding - i,
    {
        push_char(&mut value, ' ');
        assert(value@ =~= start + Seq::new((i + 1) as nat, |k: int| ' '));
        i = i + 1;
    }
    if padding == 0 {
        assert(value@ =~= start);
    }
    value
}

/// Width of a row below which only the marker and the name are shown.
pub const COMPACT_ROW_WIDTH: usize = 24;

/// The width the name gets in a full row: what the status label and decorations leave,
/// but at least 4.
pub fn name_width(width: usize, status_label_len: usize) -> (w: usize)
    ensures
        w as int == (if width - (status_label_len + 7) >= 4 {
            width - (status_label_len + 7)
        } else {
            4
        }),
{
    let reserved = status_label_len.saturating_add(7);
    let w = width.saturating_sub(reserved);
    if w >= 4 {
        w
    } else {
        4
    }
}

/// A status label right-aligned in nine columns (`{:>9}`).
pub open spec fn align_right_9(label: Seq<char>) -> Seq<char> {
    if label.len() >= 9 {
        label
    } else {
        Seq::new((9 - label.len()) as nat, |i: int| ' ') + label
    }
}

fn align_right_9_text(label: &str) -> (r: String)
    ensures
        r@ == align_right_9(label@),
{
    let n = char_count(label);
    let mut r = String::new();
    let mut i: usize = n;
    while i < 9
        invariant
            n == label@.len(),
            n <= i <= 9 || (n > 9 && i == n),
            r@ == Seq::new((i - n) as nat, |k: int| ' '),
        decreases 9 - i,
    {
        push_char(&mut r, ' ');
        i = i + 1;
        assert(r@ =~= Seq::new((i - n) as nat, |k: int| ' '));
    }
    r.append(label);
    assert(n >= 9 ==> r@ =~= label@);
    r
}

/// The row of a project in the services list, `width` columns wide: the status marker and
/// the name, and in a row of at least 24 columns the padded name, the right-aligned status
/// label in bold and the auto-restart mark.
pub open spec fn service_row_spec(
    name: Seq<char>,
    status: Status,
    tick: u64,
    auto_restart: bool,
    width: usize,
) -> Seq<SpanView> {
    let tone = theme_tone_spec(status_color_spec(status));
    let marker = sp(status_indicator_spec(status, tick) + " "@, tone);
    if width < COMPACT_ROW_WIDTH {
        seq![
            marker,
            sp(truncate_spec(name, (if width >= 2 { width - 2 } else { 0 }) as nat), Tone::Gray),
        ]
    } else {
        let label = status_label_spec(status);
        let w = (if width - (label.len() + 7) >= 4 {
            width - (label.len() + 7)
        } else {
            4
        }) as nat;
        seq![
            marker,
            sp(pad_right_spec(truncate_spec(name, w), w), Tone::Gray),
            bsp(" "@ + align_right_9(label) + " "@, tone),
            if auto_restart {
                sp("↻"@, Tone::Cyan)
            } else {
                sp(" "@, Tone::DarkGray)
            },
        ]
    }
}

pub fn service_item(name: &str, status: Status, tick: u64, auto_restart: bool, width: usize) -> (r:
    Vec<Styled>)
    ensures
        line_view(r@) == service_row_spec(name@, status, tick, auto_restart, width),
{
    let tone = theme_tone(status_color(&status));
    let mut out: Vec<Styled> = Vec::new();
    let mut m = owned(status_indicator(&status, tick));
    m.append(" ");
    push_span(&mut out, plain(m, tone));
    if width < COMPACT_ROW_WIDTH {
        push_span(&mut out, plain(truncate(name, width.saturating_sub(2)), Tone::Gray));
    } else {
        let label = status_label(&status);
        let w = name_width(width, char_count(label));
        push_span(&mut out, plain(pad_right(truncate(name, w), w), Tone::Gray));
        let mut l = owned(" ");
        l.append(align_right_9_text(label).as_str());
        l.append(" ");
        push_span(&mut out, bold(l, tone));
        if auto_restart {
            push_span(&mut out, plain_str("↻", Tone::Cyan));
        } else {
            push_span(&mut out, plain_str(" ", Tone::DarkGray));
        }
    }
    assert(line_view(out@) =~= service_row_spec(name@, status, tick, auto_restart, width));
    out
}

/// The title of the services list: how many projects run, how many restart at boot
/// (where any do) and how many a filter shows (where it hides some).
pub open spec fn services_title_spec(
    running: usize,
    total: usize,
    auto_restart: usize,
    filtered: usize,
    is_filtered: bool,
) -> Seq<SpanView> {
    seq![
        bsp(" SERVICES "@, Tone::Gray),
        sp(decimal_spec(running as nat) + "/"@ + decimal_spec(total as nat) + " UP"@, Tone::Green),
    ] + (if auto_restart > 0 {
        seq![sp("  "@ + decimal_spec(auto_restart as nat) + " ↻"@, Tone::Cyan)]
    } else {
        seq![]
    }) + (if is_filtered && filtered < total {
        seq![
            sp(
                "  "@ + decimal_spec(filtered as nat) + "/"@ + decimal_spec(total as nat)
                    + " shown"@,
                Tone::Yellow,
            ),
        ]
    } else {
        seq![]
    })
}

pub fn services_title(
    running: usize,
    total: usize,
    auto_restart: usize,
    filtered: usize,
    is_filtered: bool,
) -> (r: Vec<Styled>)
    ensures
        line_view(r@) == services_title_spec(running, total, auto_restart, filtered, is_filtered),
{
    let mut out: Vec<Styled> = Vec::new();
    push_span(&mut out, bold(owned(" SERVICES "), Tone::Gray));
    let mut up = String::new();
    push_decimal(&mut up, running as u64);
    up.append("/");
    push_decimal(&mut up, total as u64);
    up.append(" UP");
    push_span(&mut out, plain(up, Tone::Green));
    if auto_restart > 0 {
        let mut a = owned("  ");
        push_decimal(&mut a, auto_restart as u64);
        a.append(" ↻");
        push_span(&mut out, plain(a, Tone::Cyan));
    }
    if is_filtered && filtered < total {
        let mut f = owned("  ");
        push_decimal(&mut f, filtered as u64);
        f.append("/");
        push_decimal(&mut f, total as u64);
        f.append(" shown");
        push_span(&mut out, plain(f, Tone::Yellow));
    }
    assert(line_view(out@) =~= services_title_spec(running, total, auto_restart, filtered, is_filtered));
    out
}

/// The search box: the query with a cursor in yellow, or a dimmed hint while it is empty.
pub open spec fn search_line_spec(query: Seq<char>) -> Seq<SpanView> {
    seq![
        sp(" / "@, Tone::Yellow),
        if query.len() == 0 {
            sp("Filter by project name…"@, Tone::DarkGray)
        } else {
            sp(query + "▌"@, Tone::Yellow)
        },
    ]
}

pub fn search_line(query: &str) -> (r: Vec<Styled>)
    ensures
        line_view(r@) == search_line_spec(query@),
{
    let mut out: Vec<Styled> = Vec::new();
    push_span(&mut out, plain_str(" / ", Tone::Yellow));
    if query.is_empty() {
        push_span(&mut out, plain_str("Filter by project name…", Tone::DarkGray));
    } else {
        let mut q = owned(query);
        q.append("▌");
        push_span(&mut out, plain(q, Tone::Yellow));
    }
    assert(line_view(out@) =~= search_line_spec(query@));
    out
}

/// The line shown in an empty services list.
pub fn empty_list_line(search_mode: bool) -> (s: Styled)
    ensures
        crate::ui::style::span_view(s) == sp(
            if search_mode {
                "  No matching services  ·  Esc to clear"@
            } else {
                "  No services found in ./containers/"@
            },
            Tone::DarkGray,
        ),
{
    plain_str(if search_mode {
        "  No matching services  ·  Esc to clear"
    } else {
        "  No services found in ./containers/"
    }, Tone::DarkGray)
}

/// Law: the status column tells statuses apart: different statuses get different
/// labels. A starting or stopping project's indicator moves every two ticks and comes back
/// every eight; any other status shows the same indicator at every tick. Failures and an
/// unreachable runtime share the error colour, and only they have it.
pub proof fn law_status_presentation(a: Status, b: Status, tick: u64, later: u64)
    ensures
        a != b ==> status_label_spec(a) != status_label_spec(b),
        !(a == Status::Starting || a == Status::Stopping) ==> status_indicator_spec(a, tick)
            == status_indicator_spec(a, later),
        (a == Status::Starting || a == Status::Stopping) && later == tick + 2
            ==> status_indicator_spec(a, tick) != status_indicator_spec(a, later),
        (a == Status::Starting || a == Status::Stopping) && later == tick + 8
            ==> status_indicator_spec(a, tick) == status_indicator_spec(a, later),
        (status_color_spec(a) == ThemeColor::Error) == (a == Status::Error || a
            == Status::RuntimeUnavailable),
{
    reveal_strlit("RUNNING");
    reveal_strlit("STOPPED");
    reveal_strlit("STARTING");
    reveal_strlit("STOPPING");
    reveal_strlit("PULLING");
    reveal_strlit("ERROR");
    reveal_strlit("NO PODMAN");
    reveal_strlit("◜");
    reveal_strlit("◠");
    reveal_strlit("◝");
    reveal_strlit("◞");
    reveal_strlit("◟");
    reveal_strlit("◡");
    assert("RUNNING"@[0] != "STOPPED"@[0]);
    assert("RUNNING"@.len() != "STARTING"@.len());
    assert("RUNNING"@.len() != "STOPPING"@.len());
    assert("RUNNING"@[0] != "PULLING"@[0]);
    assert("RUNNING"@.len() != "ERROR"@.len());
    assert("RUNNING"@.len() != "NO PODMAN"@.len());
    assert("STOPPED"@[0] != "RUNNING"@[0]);
    assert("STOPPED"@.len() != "STARTING"@.len());
    assert("STOPPED"@.len() != "STOPPING"@.len());
    assert("STOPPED"@[0] != "PULLING"@[0]);
    assert("STOPPED"@.len() != "ERROR"@.len());
    assert("STOPPED"@.len() != "NO PODMAN"@.len());
    assert("STARTING"@.len() != "RUNNING"@.len());
    assert("STARTING"@.len() != "STOPPED"@.len());
    assert("STARTING"@[2] != "STOPPING"@[2]);
    assert("STARTING"@.len() != "PULLING"@.len());
    assert("STARTING"@.len() != "ERROR"@.len());
    assert("STARTING"@.len() != "NO PODMAN"@.len());
    assert("STOPPING"@.len() != "RUNNING"@.len());
    assert("STOPPING"@.len() != "STOPPED"@.len());
    assert("STOPPING"@[2] != "STARTING"@[2]);
    assert("STOPPING"@.len() != "PULLING"@.len());
    assert("STOPPING"@.len() != "ERROR"@.len());
    assert("STOPPING"@.len() != "NO PODMAN"@.len());
    assert("PULLING"@[0] != "RUNNING"@[0]);
    assert("PULLING"@[0] != "STOPPED"@[0]);
    assert("PULLING"@.len() != "STARTING"@.len());
    assert("PULLING"@.len() != "STOPPING"@.len());
    assert("PULLING"@.len() != "ERROR"@.len());
    assert("PULLING"@.len() != "NO PODMAN"@.len());
    assert("ERROR"@.len() != "RUNNING"@.len());
    assert("ERROR"@.len() != "STOPPED"@.len());
    assert("ERROR"@.len() != "STARTING"@.len());
    assert("ERROR"@.len() != "STOPPING"@.len());
    assert("ERROR"@.len() != "PULLING"@.len());
    assert("ERROR"@.len() != "NO PODMAN"@.len());
    assert("NO PODMAN"@.len() != "RUNNING"@.len());
    assert("NO PODMAN"@.len() != "STOPPED"@.len());
    assert("NO PODMAN"@.len() != "STARTING"@.len());
    assert("NO PODMAN"@.len() != "STOPPING"@.len());
    assert("NO PODMAN"@.len() != "PULLING"@.len());
    assert("NO PODMAN"@.len() != "ERROR"@.len());
    assert((tick / 2) % 4 != ((tick + 2) / 2) % 4) by (nonlinear_arith);
    assert((tick / 2) % 4 == ((tick + 8) / 2) % 4) by (nonlinear_arith);
    assert("◜"@[0] != "◠"@[0]);
    assert("◜"@[0] != "◝"@[0]);
    assert("◜"@[0] != "◞"@[0]);
    assert("◜"@[0] != "◟"@[0]);
    assert("◜"@[0] != "◡"@[0]);
    assert("◠"@[0] != "◝"@[0]);
    assert("◠"@[0] != "◞"@[0]);
    assert("◠"@[0] != "◟"@[0]);
    assert("◠"@[0] != "◡"@[0]);
    assert("◝"@[0] != "◞"@[0]);
    assert("◝"@[0] != "◟"@[0]);
    assert("◝"@[0] != "◡"@[0]);
    assert("◞"@[0] != "◟"@[0]);
    assert("◞"@[0] != "◡"@[0]);
    assert("◟"@[0] != "◡"@[0]);
}

/// Law: a truncated name fits its width, keeps a text that already fits, and otherwise
/// keeps as much of the start as fits before an ellipsis; padding keeps the text at the
/// start and makes it at least the width, with spaces only.
pub proof fn law_truncate_and_pad(value: Seq<char>, width: nat)
    ensures
        truncate_spec(value, width).len() <= width,
        value.len() <= width ==> truncate_spec(value, width) == value,
        value.len() > width && width >= 1 ==> truncate_spec(value, width).len() == width
            && truncate_spec(value, width).last() == '…' && truncate_spec(value, width).take(
            width - 1,
        ) == value.take(width - 1),
        pad_right_spec(value, width).len() == if value.len() >= width {
            value.len()
        } else {
            width
        },
        pad_right_spec(value, width).take(value.len() as int) == value,
        forall|k: int|
            value.len() <= k < pad_right_spec(value, width).len() ==> #[trigger] pad_right_spec(
                value,
                width,
            )[k] == ' ',
{
    if value.len() > width && width >= 2 {
        assert(value.take(width - 1).push('…').take(width - 1) =~= value.take(width - 1));
    }
    if value.len() > width && width == 1 {
        assert(seq!['…'].take(0) =~= value.take(0));
    }
    assert(pad_right_spec(value, width).take(value.len() as int) =~= value);
}

} // verus!
