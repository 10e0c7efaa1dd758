//! The activity pane: how log and event text is coloured, how its rendered body is kept
//! between frames, and which lines the pane shows.
pub mod colorize;
pub mod progress;
pub mod title;

use vstd::prelude::*;

use crate::app::state::{
    cache_insert_spec, cache_lookup, entry_view, CacheEntryView, LogTab, LogsRenderCache,
    LogsRenderCacheEntry,
};
use crate::service::LogBuffer;
use crate::text::lines_spec;
use crate::ui::logs::colorize::{colorize_events, colorize_logs, event_line_spec, log_line_spec};
use crate::ui::logs::progress::placeholder_text;
use crate::ui::style::{lines_view, sp, SpanView, Styled, Tone};

verus! {

/// The revision of the body kept for a project and view, to ask its log for a newer text.
pub fn cached_revision(cache: &LogsRenderCache, service_index: Option<usize>, tab: LogTab) -> (r:
    Option<u64>)
    ensures
        r == (match cache_lookup(cache@, service_index, tab) {
            Some(e) => Some(e.buffer_revision),
            None => None,
        }),
{
    match cache.entry(service_index, tab) {
        Some(e) => Some(e.buffer_revision),
        None => None,
    }
}

/// The body rendered from a log's text: coloured events or live lines, or a placeholder
/// where the log is empty.
pub open spec fn snapshot_body_spec(tab: LogTab, text: Seq<char>) -> Seq<Seq<SpanView>> {
    if text.len() == 0 {
        seq![
            seq![
                sp(
                    if tab == LogTab::Events {
                        "No events yet — start the service"@
                    } else {
                        "No live logs yet — start the service"@
                    },
                    Tone::DarkGray,
                ),
            ],
        ]
    } else if tab == LogTab::Events {
        lines_spec(text).map_values(|l: Seq<char>| event_line_spec(l))
    } else {
        lines_spec(text).map_values(|l: Seq<char>| log_line_spec(l))
    }
}

/// The number of lines of a body, as the pane counts them (at most `u16::MAX`).
pub open spec fn line_count_spec(n: nat) -> u16 {
    if n > u16::MAX {
        u16::MAX
    } else {
        n as u16
    }
}

/// Keeps the body rendered from a new text of a project's log.
pub fn store_snapshot(
    cache: &mut LogsRenderCache,
    service_index: usize,
    tab: LogTab,
    revision: u64,
    text: &str,
)
    ensures
        final(cache)@ == cache_insert_spec(
            old(cache)@,
            CacheEntryView {
                service_index: Some(service_index),
                tab,
                buffer_revision: revision,
                body: snapshot_body_spec(tab, text@),
                body_line_count: line_count_spec(snapshot_body_spec(tab, text@).len()),
            },
        ),
{
    let body = if text.is_empty() {
        if tab == LogTab::Events {
            placeholder_text("No events yet — start the service").0
        } else {
            placeholder_text("No live logs yet — start the service").0
        }
    } else if tab == LogTab::Events {
        colorize_events(text)
    } else {
        colorize_logs(text)
    };
    let count = if body.len() > 65535 {
        65535u16
    } else {
        body.len() as u16
    };
    assert(lines_view(body@).len() == body@.len());
    cache.insert(
        LogsRenderCacheEntry {
            service_index: Some(service_index),
            tab,
            buffer_revision: revision,
            body,
            body_line_count: count,
        },
    );
}

/// Keeps, where none is kept yet, the placeholder shown while no project is selected.
pub fn ensure_no_selection_placeholder(cache: &mut LogsRenderCache, tab: LogTab)
    ensures
        cache_lookup(old(cache)@, None, tab) is Some ==> final(cache)@ == old(cache)@,
        cache_lookup(old(cache)@, None, tab) is None ==> final(cache)@ == cache_insert_spec(
            old(cache)@,
            CacheEntryView {
                service_index: None,
                tab,
                buffer_revision: 0,
                body: seq![seq![sp("Select a service to view activity"@, Tone::DarkGray)]],
                body_line_count: 1,
            },
        ),
{
    if cache.entry(None, tab).is_some() {
        return;
    }
    let (body, count) = placeholder_text("Select a service to view activity");
    cache.insert(
        LogsRenderCacheEntry {
            service_index: None,
            tab,
            buffer_revision: 0,
            body,
            body_line_count: count,
        },
    );
}

/// The number of lines the pane holds: the body, and the progress line with a blank one
/// below it where there is one.
pub open spec fn total_lines_spec(body_lines: u16, has_progress: bool) -> u16 {
    let t = body_lines + if has_progress {
        2int
    } else {
        0int
    };
    if t > u16::MAX {
        u16::MAX
    } else {
        t as u16
    }
}

/// The scroll position that shows the end of the pane's lines in an area `height` rows
/// high (two of them the border).
pub fn auto_scroll_position(body_lines: u16, has_progress: bool, height: u16) -> (r: u16)
    ensures
        r as int == (if total_lines_spec(body_lines, has_progress) as int - (if height >= 2 {
            height - 2
        } else {
            0
        }) < 0 {
            0
        } else {
            total_lines_spec(body_lines, has_progress) as int - (if height >= 2 {
                height - 2
            } else {
                0
            })
        }),
{
    let total = body_lines.saturating_add(if has_progress {
        2
    } else {
        0
    });
    let visible = height.saturating_sub(2);
    total.saturating_sub(visible)
}

/// Where a row of the pane takes its line from.
#[derive(Clone, Copy, Debug, PartialEq, Eq, Structural)]
pub enum RowSource {
    Progress,
    Blank,
    Body(usize),
}

/// The line shown at logical position `l` (the scroll position plus the row), if any.
pub open spec fn row_source_spec(l: int, has_progress: bool, body_len: nat) -> Option<RowSource> {
    if has_progress && l == 0 {
        Some(RowSource::Progress)
    } else if has_progress && l == 1 {
        Some(RowSource::Blank)
    } else {
        let b = if has_progress {
            l - 2
        } else {
            l
        };
        if 0 <= b < body_len {
            Some(RowSource::Body(b as usize))
        } else {
            None
        }
    }
}

/// The lines an area `height` rows high shows from scroll position `scroll`: rows are
/// filled from the top until a position has no line.
pub fn visible_rows(scroll: u16, height: u16, has_progress: bool, body_len: usize) -> (r: Vec<
    RowSource,
>)
    ensures
        r@.len() <= height,
        forall|k: int|
            0 <= k < r@.len() ==> row_source_spec(scroll + k, has_progress, body_len as nat)
                == Some(#[trigger] r@[k]),
        r@.len() < height ==> row_source_spec(scroll + r@.len(), has_progress, body_len as nat)
            is None,
{
    let mut rows: Vec<RowSource> = Vec::new();
    let mut row: u16 = 0;
    while row < height
        invariant
            row <= height,
            rows@.len() == row,
            forall|k: int|
                0 <= k < rows@.len() ==> row_source_spec(scroll + k, has_progress, body_len as nat)
                    == Some(#[trigger] rows@[k]),
        decreases height - row,
    {
        let l: u64 = scroll as u64 + row as u64;
        let src = if has_progress && l == 0 {
            RowSource::Progress
        } else if has_progress && l == 1 {
            RowSource::Blank
        } else {
            let b = if has_progress {
                l - 2
            } else {
                l
            };
            if b < body_len as u64 {
                RowSource::Body(b as usize)
            } else {
                return rows;
            }
        };
        rows.push(src);
        row = row + 1;
    }
    rows
}

/// Brings the body kept for a project's log view up to date with its buffer: it is
/// rendered again only where the buffer's revision differs from the one kept.
pub fn refresh_cached_body(
    cache: &mut LogsRenderCache,
    service_index: usize,
    tab: LogTab,
    buffer: &LogBuffer,
)
    ensures
        (match cache_lookup(old(cache)@, Some(service_index), tab) {
            Some(e) => e.buffer_revision == buffer@.revision,
            None => false,
        }) ==> final(cache)@ == old(cache)@,
        !(match cache_lookup(old(cache)@, Some(service_index), tab) {
            Some(e) => e.buffer_revision == buffer@.revision,
            None => false,
        }) ==> final(cache)@ == cache_insert_spec(
            old(cache)@,
            CacheEntryView {
                service_index: Some(service_index),
                tab,
                buffer_revision: buffer@.revision,
                body: snapshot_body_spec(tab, buffer@.text),
                body_line_count: line_count_spec(snapshot_body_spec(tab, buffer@.text).len()),
            },
        ),
{
    let cached = cached_revision(cache, Some(service_index), tab);
    match buffer.snapshot_if_changed(cached) {
        Some((revision, text)) => {
            store_snapshot(cache, service_index, tab, revision, text.as_str());
        },
        None => {},
    }
}

} // verus!
