//! The progress line shown above the events of a project in transition.
use vstd::prelude::*;

use crate::status::Status;
use crate::text::owned;
use crate::ui::style::{bold_str, bsp, line_view, lines_view, plain, plain_str, push_span, sp, SpanView, Styled, Tone};
use crate::text::{
    chars_of, digits_value, is_ascii_digit, is_ascii_digit_spec, lemma_rfind_char_before,
    rfind_char_before, string_from_chars,
};

verus! {

/// The frames of the pulling spinner.
pub open spec fn pulling_frames() -> Seq<char> {
    seq!['.', ':', 'o', 'O', '@', '*', '@', 'O', 'o', ':']
}

/// The frames of the starting and stopping spinner.
pub open spec fn transition_frames() -> Seq<char> {
    seq!['|', '/', '-', '\\']
}

pub fn pulling_spinner(tick: u64) -> (c: char)
    ensures
        c == pulling_frames()[((tick as usize) % 10) as int],
{
    let frames: [char; 10] = ['.', ':', 'o', 'O', '@', '*', '@', 'O', 'o', ':'];
    let i = (tick as usize) % 10;
    assert(frames@ =~= pulling_frames());
    frames[i]
}

pub fn transition_spinner(tick: u64) -> (c: char)
    ensures
        c == transition_frames()[((tick as usize) % 4) as int],
{
    let frames: [char; 4] = ['|', '/', '-', '\\'];
    let i = (tick as usize) % 4;
    assert(frames@ =~= transition_frames());
    frames[i]
}

/// The start of the run of digits that ends just before index `j`.
pub open spec fn digit_run_start(s: Seq<char>, j: int) -> int
    decreases j,
{
    if j <= 0 || j > s.len() {
        j
    } else if is_ascii_digit_spec(s[j - 1]) {
        digit_run_start(s, j - 1)
    } else {
        j
    }
}

/// The percentage written just before the last `%` of a progress text, at most 100;
/// `None` where no digits stand there or they exceed 255.
pub open spec fn progress_percent_spec(progress: Seq<char>) -> Option<u8> {
    let k = rfind_char_before(progress, '%', progress.len() as int);
    if k < 0 {
        None
    } else {
        let start = digit_run_start(progress, k);
        let digits = progress.subrange(start, k);
        if digits.len() == 0 || digits_value(digits) > 255 {
            None
        } else if digits_value(digits) > 100 {
            Some(100u8)
        } else {
            Some(digits_value(digits) as u8)
        }
    }
}

proof fn lemma_digit_run(s: Seq<char>, j: int)
    requires
        0 <= j <= s.len(),
    ensures
        0 <= digit_run_start(s, j) <= j,
        forall|m: int| digit_run_start(s, j) <= m < j ==> is_ascii_digit_spec(#[trigger] s[m]),
    decreases j,
{
    if j > 0 && is_ascii_digit_spec(s[j - 1]) {
        lemma_digit_run(s, j - 1);
    }
}

proof fn lemma_digits_value_step(d: Seq<char>, k: int)
    requires
        0 <= k < d.len(),
    ensures
        d.take(k + 1).drop_last() == d.take(k),
        d.take(k + 1).last() == d[k],
{
    assert(d.take(k + 1).drop_last() =~= d.take(k));
}

pub fn parse_progress_percent(progress: &str) -> (r: Option<u8>)
    ensures
        r == progress_percent_spec(progress@),
{
    let v = chars_of(progress);
    let mut k = v.len();
    while k > 0 && v[k - 1] != '%'
        invariant
            k <= v.len(),
            v@ == progress@,
            rfind_char_before(v@, '%', v.len() as int) == rfind_char_before(v@, '%', k as int),
        decreases k,
    {
        k = k - 1;
    }
    if k == 0 {
        return None;
    }
    let pct = k - 1;
    assert(rfind_char_before(v@, '%', v.len() as int) == pct);
    let mut start = pct;
    while start > 0 && is_ascii_digit(v[start - 1])
        invariant
            start <= pct,
            pct < v.len(),
            v@ == progress@,
            digit_run_start(v@, pct as int) == digit_run_start(v@, start as int),
        decreases start,
    {
        start = start - 1;
    }
    proof {
        lemma_digit_run(v@, pct as int);
    }
    if start == pct {
        return None;
    }
    let ghost digits = v@.subrange(start as int, pct as int);
    let mut value: u32 = 0;
    let mut i = start;
    assert(digits.take(0) =~= Seq::<char>::empty());
    while i < pct
        invariant
            start <= i <= pct,
            pct < v.len(),
            v@ == progress@,
            digits == v@.subrange(start as int, pct as int),
            start == digit_run_start(v@, pct as int),
            pct == rfind_char_before(v@, '%', v@.len() as int),
            forall|m: int| start <= m < pct ==> is_ascii_digit_spec(#[trigger] v@[m]),
            value as int == digits_value(digits.take(i - start)),
            value <= 255,
        decreases pct - i,
    {
        let d = (v[i] as u32) - ('0' as u32);
        proof {
            lemma_digits_value_step(digits, i - start);
            assert(digits[i - start] == v@[i as int]);
            assert(is_ascii_digit_spec(v@[i as int]));
        }
        if value > 25 || value * 10 + d > 255 {
            proof {
                assert(forall|m: int| 0 <= m < digits.len() ==> #[trigger] digits[m] == v@[start + m]);
                lemma_digits_value_grows_here(digits, i - start + 1);
                assert(digits_value(digits.take(i - start + 1)) == value * 10 + d);
                assert(value * 10 + d > 255);
            }
            return None;
        }
        value = value * 10 + d;
        i = i + 1;
    }
    assert(digits.take(pct - start) =~= digits);
    if value > 100 {
        Some(100)
    } else {
        Some(value as u8)
    }
}

proof fn lemma_digits_value_grows_here(d: Seq<char>, k: int)
    requires
        0 <= k <= d.len(),
        forall|m: int| 0 <= m < d.len() ==> is_ascii_digit_spec(#[trigger] d[m]),
    ensures
        digits_value(d.take(k)) <= digits_value(d),
    decreases d.len() - k,
{
    if k < d.len() {
        lemma_digits_value_grows_here(d, k + 1);
        assert(d.take(k + 1).drop_last() =~= d.take(k));
        lemma_digits_nonneg(d.take(k));
        assert(is_ascii_digit_spec(d.take(k + 1).last()));
        assert(digits_value(d.take(k)) <= digits_value(d.take(k)) * 10) by (nonlinear_arith)
            requires
                digits_value(d.take(k)) >= 0,
        ;
    } else {
        assert(d.take(k) =~= d);
    }
}

proof fn lemma_digits_nonneg(d: Seq<char>)
    requires
        forall|m: int| 0 <= m < d.len() ==> is_ascii_digit_spec(#[trigger] d[m]),
    ensures
        digits_value(d) >= 0,
    decreases d.len(),
{
    if d.len() > 0 {
        assert(is_ascii_digit_spec(d[d.len() - 1]));
        lemma_digits_nonneg(d.drop_last());
    }
}

/// Width of the progress bar.
pub const BAR_WIDTH: usize = 24;

/// Width of the marker that runs along a bar of unknown progress.
pub const MARKER_WIDTH: usize = 5;

/// The progress bar: filled in proportion to a known percentage, or with a marker moving
/// with the frame where the percentage is unknown.
pub open spec fn progress_bar_spec(tick: u64, percent: Option<u8>) -> Seq<char> {
    match percent {
        Some(p) => {
            let filled = (p * 24) / 100;
            Seq::new(24, |i: int| if i < filled { '#' } else { '-' })
        },
        None => {
            let offset = ((tick as usize) % 29) as int;
            Seq::new(24, |i: int| if offset <= i < offset + 5 { '#' } else { '-' })
        },
    }
}

pub fn progress_bar(tick: u64, percent: Option<u8>) -> (r: String)
    requires
        percent matches Some(p) ==> p <= 100,
    ensures
        r@ == progress_bar_spec(tick, percent),
{
    let mut bar: Vec<char> = Vec::new();
    match percent {
        Some(p) => {
            let filled = ((p as usize) * 24) / 100;
            let mut i: usize = 0;
            while i < 24
                invariant
                    i <= 24,
                    filled == ((p as usize) * 24) / 100,
                    bar@.len() == i,
                    forall|k: int| 0 <= k < i ==> bar@[k] == (if k < filled { '#' } else { '-' }),
                decreases 24 - i,
            {
                if i < filled {
                    bar.push('#');
                } else {
                    bar.push('-');
                }
                i = i + 1;
            }
            assert(bar@ =~= progress_bar_spec(tick, percent));
        },
        None => {
            let offset = (tick as usize) % 29;
            let mut i: usize = 0;
            while i < 24
                invariant
                    i <= 24,
                    offset == (tick as usize) % 29,
                    bar@.len() == i,
                    forall|k: int|
                        0 <= k < i ==> bar@[k] == (if offset <= k < offset + 5 {
                            '#'
                        } else {
                            '-'
                        }),
                decreases 24 - i,
            {
                if offset <= i && i < offset + 5 {
                    bar.push('#');
                } else {
                    bar.push('-');
                }
                i = i + 1;
            }
            assert(bar@ =~= progress_bar_spec(tick, percent));
        },
    }
    string_from_chars(&bar)
}

/// A percentage read from a progress text is at most 100.
pub proof fn lemma_percent_at_most_100(progress: Seq<char>)
    ensures
        progress_percent_spec(progress) matches Some(p) ==> p <= 100,
{
    let k = rfind_char_before(progress, '%', progress.len() as int);
    if k >= 0 {
        let start = digit_run_start(progress, k);
        let digits = progress.subrange(start, k);
        lemma_rfind_char_before(progress, '%', progress.len() as int);
        lemma_digit_run(progress, k);
        assert forall|m: int| 0 <= m < digits.len() implies is_ascii_digit_spec(
            #[trigger] digits[m],
        ) by {
            assert(digits[m] == progress[start + m]);
        }
        lemma_digits_nonneg(digits);
    }
}

/// Law: a progress bar is 24 cells wide; a known percentage fills it from the left, empty
/// at 0 and full at 100, and a larger percentage fills at least the cells a smaller one
/// does.
pub proof fn law_progress_bar_fills(tick: u64, p: u8, q: u8, i: int, j: int)
    requires
        p <= q <= 100,
    ensures
        progress_bar_spec(tick, Some(p)).len() == 24,
        progress_bar_spec(tick, None).len() == 24,
        0 <= i < 24 && progress_bar_spec(tick, Some(p))[i] == '#' ==> progress_bar_spec(
            tick,
            Some(q),
        )[i] == '#',
        0 <= i < j < 24 && progress_bar_spec(tick, Some(p))[j] == '#' ==> progress_bar_spec(
            tick,
            Some(p),
        )[i] == '#',
        0 <= i < 24 ==> progress_bar_spec(tick, Some(0))[i] == '-',
        0 <= i < 24 ==> progress_bar_spec(tick, Some(100))[i] == '#',
{
    assert((p * 24) / 100 <= (q * 24) / 100) by (nonlinear_arith)
        requires
            p <= q,
    ;
}

/// The placeholder shown where there is nothing to list: the message, dimmed, as one line.
pub fn placeholder_text(message: &str) -> (r: (Vec<Vec<Styled>>, u16))
    ensures
        lines_view(r.0@) == seq![seq![sp(message@, Tone::DarkGray)]],
        r.1 == 1,
{
    let mut line: Vec<Styled> = Vec::new();
    push_span(&mut line, plain_str(message, Tone::DarkGray));
    let ghost lv = line_view(line@);
    assert(lv =~= seq![sp(message@, Tone::DarkGray)]);
    let mut lines: Vec<Vec<Styled>> = Vec::new();
    lines.push(line);
    assert(lines_view(lines@) =~= seq![lv]);
    (lines, 1)
}

/// The progress line of a project in transition: pulling shows its bar (filled from the
/// pull progress where it holds a percentage), the progress text and a spinner; starting
/// and stopping show a moving bar and a spinner; other statuses have no progress line.
pub open spec fn progress_line_spec(status: Status, progress: Option<Seq<char>>, tick: u64) -> Option<
    Seq<SpanView>,
> {
    match status {
        Status::Pulling => {
            let p = match progress {
                Some(p) => p,
                None => "in progress"@,
            };
            Some(
                seq![
                    sp("[progress] "@, Tone::DarkGray),
                    bsp("pulling"@, Tone::Cyan),
                    sp(" ["@, Tone::DarkGray),
                    sp(progress_bar_spec(tick, progress_percent_spec(p)), Tone::Cyan),
                    sp("] "@, Tone::DarkGray),
                    sp(p, Tone::White),
                    sp(" "@, Tone::DarkGray),
                    sp(seq![pulling_frames()[((tick as usize) % 10) as int]], Tone::Cyan),
                ],
            )
        },
        Status::Starting | Status::Stopping => {
            let (word, tone) = if status == Status::Starting {
                ("starting"@, Tone::Yellow)
            } else {
                ("stopping"@, Tone::Red)
            };
            Some(
                seq![
                    sp("[progress] "@, Tone::DarkGray),
                    bsp(word, tone),
                    sp(" ["@, Tone::DarkGray),
                    sp(progress_bar_spec(tick, None), tone),
                    sp("] "@, Tone::DarkGray),
                    sp(seq![transition_frames()[((tick as usize) % 4) as int]], tone),
                ],
            )
        },
        _ => None,
    }
}

fn char_text(c: char) -> (r: String)
    ensures
        r@ == seq![c],
{
    let mut r = String::new();
    crate::text::push_char(&mut r, c);
    assert(r@ =~= seq![c]);
    r
}

pub fn event_progress_line(status: Status, pull_progress: Option<&str>, tick: u64) -> (r: Option<
    Vec<Styled>,
>)
    ensures
        match r {
            Some(l) => progress_line_spec(status, match pull_progress {
                Some(p) => Some(p@),
                None => None,
            }, tick) == Some(line_view(l@)),
            None => progress_line_spec(status, match pull_progress {
                Some(p) => Some(p@),
                None => None,
            }, tick) is None,
        },
{
    let mut out: Vec<Styled> = Vec::new();
    match status {
        Status::Pulling => {
            let progress = match pull_progress {
                Some(p) => p,
                None => "in progress",
            };
            let percent = parse_progress_percent(progress);
            proof {
                lemma_percent_at_most_100(progress@);
            }
            let bar = progress_bar(tick, percent);
            push_span(&mut out, plain_str("[progress] ", Tone::DarkGray));
            push_span(&mut out, bold_str("pulling", Tone::Cyan));
            push_span(&mut out, plain_str(" [", Tone::DarkGray));
            push_span(&mut out, plain(bar, Tone::Cyan));
            push_span(&mut out, plain_str("] ", Tone::DarkGray));
            push_span(&mut out, plain_str(progress, Tone::White));
            push_span(&mut out, plain_str(" ", Tone::DarkGray));
            push_span(&mut out, plain(char_text(pulling_spinner(tick)), Tone::Cyan));
        },
        Status::Starting | Status::Stopping => {
            let starting = status == Status::Starting;
            let tone = if starting {
                Tone::Yellow
            } else {
                Tone::Red
            };
            push_span(&mut out, plain_str("[progress] ", Tone::DarkGray));
            if starting {
                push_span(&mut out, bold_str("starting", tone));
            } else {
                push_span(&mut out, bold_str("stopping", tone));
            }
            push_span(&mut out, plain_str(" [", Tone::DarkGray));
            push_span(&mut out, plain(progress_bar(tick, None), tone));
            push_span(&mut out, plain_str("] ", Tone::DarkGray));
            push_span(&mut out, plain(char_text(transition_spinner(tick)), tone));
        },
        _ => {
            return None;
        },
    }
    let ghost pv = match pull_progress {
        Some(p) => Some(p@),
        None => None,
    };
    assert(progress_line_spec(status, pv, tick) == Some(line_view(out@))) by {
        assert(line_view(out@) =~= progress_line_spec(status, pv, tick).unwrap());
    }
    Some(out)
}

} // verus!
