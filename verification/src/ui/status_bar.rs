//! The health line of the status rail.
use vstd::prelude::*;

use crate::text::{decimal_spec, owned, push_decimal};
use crate::ui::style::{bold, bsp, line_view, plain, plain_str, push_span, sp, span_view, SpanView, Styled, Tone};

verus! {

/// The state of one part of the runtime: ready in green, down in red.
pub open spec fn signal_spec(label: Seq<char>, available: bool) -> SpanView {
    if available {
        bsp("● "@ + label + " READY"@, Tone::Green)
    } else {
        bsp("× "@ + label + " DOWN"@, Tone::Red)
    }
}

pub fn signal(label: &str, available: bool) -> (s: Styled)
    ensures
        span_view(s) == signal_spec(label@, available),
{
    let mut t = owned(if available {
        "● "
    } else {
        "× "
    });
    t.append(label);
    if available {
        t.append(" READY");
        bold(t, Tone::Green)
    } else {
        t.append(" DOWN");
        bold(t, Tone::Red)
    }
}

/// The health line: the daemon, the command line tool and Compose, how many projects run
/// and how many restart at boot.
pub open spec fn health_line_spec(
    daemon: bool,
    cli: bool,
    compose: bool,
    running: usize,
    total: usize,
    auto_restart: usize,
) -> Seq<SpanView> {
    seq![
        signal_spec("DAEMON"@, daemon),
        sp("  "@, Tone::Default),
        signal_spec("CLI"@, cli),
        sp("  "@, Tone::Default),
        signal_spec("COMPOSE"@, compose),
        sp("  │  "@, Tone::DarkGray),
        sp(
            decimal_spec(running as nat) + "/"@ + decimal_spec(total as nat) + " RUNNING"@,
            if running > 0 {
                Tone::Green
            } else {
                Tone::Gray
            },
        ),
        sp(
            "  "@ + decimal_spec(auto_restart as nat) + " AUTO-START"@,
            if auto_restart == 0 {
                Tone::DarkGray
            } else {
                Tone::Cyan
            },
        ),
    ]
}

pub fn health_line(
    daemon: bool,
    cli: bool,
    compose: bool,
    running: usize,
    total: usize,
    auto_restart: usize,
) -> (r: Vec<Styled>)
    ensures
        line_view(r@) == health_line_spec(daemon, cli, compose, running, total, auto_restart),
{
    let mut out: Vec<Styled> = Vec::new();
    push_span(&mut out, signal("DAEMON", daemon));
    push_span(&mut out, plain_str("  ", Tone::Default));
    push_span(&mut out, signal("CLI", cli));
    push_span(&mut out, plain_str("  ", Tone::Default));
    push_span(&mut out, signal("COMPOSE", compose));
    push_span(&mut out, plain_str("  │  ", Tone::DarkGray));
    let mut r = String::new();
    push_decimal(&mut r, running as u64);
    r.append("/");
    push_decimal(&mut r, total as u64);
    r.append(" RUNNING");
    push_span(&mut out, plain(r, if running > 0 {
        Tone::Green
    } else {
        Tone::Gray
    }));
    let mut a = owned("  ");
    push_decimal(&mut a, auto_restart as u64);
    a.append(" AUTO-START");
    push_span(&mut out, plain(a, if auto_restart == 0 {
        Tone::DarkGray
    } else {
        Tone::Cyan
    }));
    assert(line_view(out@) =~= health_line_spec(daemon, cli, compose, running, total, auto_restart));
    out
}

} // verus!
