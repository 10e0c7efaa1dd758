//! The title of the activity pane.
use vstd::prelude::*;

use crate::app::state::LogTab;
use crate::text::{decimal_spec, owned, push_decimal};
use crate::ui::style::{bold, line_view, plain, plain_str, push_span, sp, bsp, SpanView, Styled, Tone};

verus! {

/// The tab label of a log view, highlighted where it is shown.
pub open spec fn tab_spec(label: Seq<char>, active: bool) -> SpanView {
    if active {
        SpanView { text: " "@ + label + " "@, tone: Tone::Cyan, bold: true, reversed: true }
    } else {
        sp(" "@ + label + " "@, Tone::DarkGray)
    }
}

pub fn tab(label: &str, active: bool) -> (s: Styled)
    ensures
        crate::ui::style::span_view(s) == tab_spec(label@, active),
{
    let mut t = owned(" ");
    t.append(label);
    t.append(" ");
    if active {
        Styled { text: t, tone: Tone::Cyan, bold: true, reversed: true }
    } else {
        plain(t, Tone::DarkGray)
    }
}

/// Where the view stands in the log: nothing for an empty log, the end while following
/// it, else the first line shown (1-based).
pub open spec fn position_spec(auto_scroll: bool, scroll: u16, total: u16) -> Seq<char> {
    if total == 0 {
        seq![]
    } else if auto_scroll {
        "↓ "@ + decimal_spec(total as nat) + "/"@ + decimal_spec(total as nat)
    } else {
        " L"@ + decimal_spec((if scroll == u16::MAX { scroll as nat } else { (scroll + 1) as nat }))
            + "/"@ + decimal_spec(total as nat)
    }
}

/// The title of the activity pane: the selected project (or that none is), the two log
/// views with the shown one highlighted, whether the view follows the log, and where it
/// stands in it.
pub open spec fn logs_title_spec(
    has_selection: bool,
    name: Option<Seq<char>>,
    tab: LogTab,
    auto_scroll: bool,
    scroll: u16,
    total: u16,
) -> Seq<SpanView> {
    seq![
        bsp(" ACTIVITY "@, Tone::Gray),
        sp(
            match name {
                Some(n) => n,
                None => "NO SELECTION"@,
            },
            if has_selection {
                Tone::Cyan
            } else {
                Tone::DarkGray
            },
        ),
        sp("  "@, Tone::DarkGray),
        tab_spec("EVENTS"@, tab == LogTab::Events),
        sp(" "@, Tone::Default),
        tab_spec("LIVE"@, tab == LogTab::LiveLogs),
        sp("  "@, Tone::DarkGray),
        if auto_scroll {
            sp("↓ AUTO"@, Tone::Green)
        } else {
            sp("Ⅱ PAUSED"@, Tone::Yellow)
        },
        sp("  "@ + position_spec(auto_scroll, scroll, total), Tone::DarkGray),
    ]
}

pub fn logs_title(
    has_selection: bool,
    name: Option<&str>,
    tab_shown: LogTab,
    auto_scroll: bool,
    scroll: u16,
    total: u16,
) -> (r: Vec<Styled>)
    ensures
        line_view(r@) == logs_title_spec(
            has_selection,
            match name {
                Some(n) => Some(n@),
                None => None,
            },
            tab_shown,
            auto_scroll,
            scroll,
            total,
        ),
{
    let mut out: Vec<Styled> = Vec::new();
    push_span(&mut out, bold(owned(" ACTIVITY "), Tone::Gray));
    let shown = match name {
        Some(n) => n,
        None => "NO SELECTION",
    };
    push_span(&mut out, plain_str(shown, if has_selection {
        Tone::Cyan
    } else {
        Tone::DarkGray
    }));
    push_span(&mut out, plain_str("  ", Tone::DarkGray));
    push_span(&mut out, tab("EVENTS", tab_shown == LogTab::Events));
    push_span(&mut out, plain_str(" ", Tone::Default));
    push_span(&mut out, tab("LIVE", tab_shown == LogTab::LiveLogs));
    push_span(&mut out, plain_str("  ", Tone::DarkGray));
    if auto_scroll {
        push_span(&mut out, plain_str("↓ AUTO", Tone::Green));
    } else {
        push_span(&mut out, plain_str("Ⅱ PAUSED", Tone::Yellow));
    }
    let mut position = owned("  ");
    if total == 0 {
    } else if auto_scroll {
        position.append("↓ ");
        push_decimal(&mut position, total as u64);
        position.append("/");
        push_decimal(&mut position, total as u64);
    } else {
        position.append(" L");
        push_decimal(&mut position, scroll.saturating_add(1) as u64);
        position.append("/");
        push_decimal(&mut position, total as u64);
    }
    assert(position@ =~= "  "@ + position_spec(auto_scroll, scroll, total));
    push_span(&mut out, plain(position, Tone::DarkGray));
    let ghost nv = match name {
        Some(n) => Some(n@),
        None => None,
    };
    assert(line_view(out@) =~= logs_title_spec(has_selection, nv, tab_shown, auto_scroll, scroll, total));
    out
}

} // verus!
