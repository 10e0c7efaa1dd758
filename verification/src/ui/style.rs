//! Styled text: what the interface draws, as text with a colour and emphasis.
use vstd::prelude::*;

use crate::text::owned;
use crate::ui::logs::colorize::LogColor;
use crate::ui::theme::ThemeColor;

verus! {

/// A terminal colour; the application maps each to the terminal's colour of that name.
#[derive(Clone, Copy, Debug, PartialEq, Eq, Structural)]
pub enum Tone {
    Default,
    Cyan,
    Magenta,
    Red,
    Blue,
    DarkGray,
    Green,
    Gray,
    Yellow,
    White,
    LightRed,
    LightBlue,
    LightMagenta,
}

/// A run of text drawn in one style.
#[derive(Debug)]
pub struct Styled {
    pub text: String,
    pub tone: Tone,
    pub bold: bool,
    pub reversed: bool,
}

/// The plain values of a [`Styled`] run.
pub struct SpanView {
    pub text: Seq<char>,
    pub tone: Tone,
    pub bold: bool,
    pub reversed: bool,
}

pub open spec fn span_view(s: Styled) -> SpanView {
    SpanView { text: s.text@, tone: s.tone, bold: s.bold, reversed: s.reversed }
}

/// The plain values of a line of runs.
pub open spec fn line_view(l: Seq<Styled>) -> Seq<SpanView> {
    l.map_values(|s: Styled| span_view(s))
}

/// The plain values of lines of runs.
pub open spec fn lines_view(ls: Seq<Vec<Styled>>) -> Seq<Seq<SpanView>> {
    ls.map_values(|l: Vec<Styled>| line_view(l@))
}

/// Plain text in a colour.
pub open spec fn sp(text: Seq<char>, tone: Tone) -> SpanView {
    SpanView { text, tone, bold: false, reversed: false }
}

/// Bold text in a colour.
pub open spec fn bsp(text: Seq<char>, tone: Tone) -> SpanView {
    SpanView { text, tone, bold: true, reversed: false }
}

pub fn plain(text: String, tone: Tone) -> (s: Styled)
    ensures
        span_view(s) == sp(text@, tone),
{
    Styled { text, tone, bold: false, reversed: false }
}

pub fn bold(text: String, tone: Tone) -> (s: Styled)
    ensures
        span_view(s) == bsp(text@, tone),
{
    Styled { text, tone, bold: true, reversed: false }
}

pub fn plain_str(text: &str, tone: Tone) -> (s: Styled)
    ensures
        span_view(s) == sp(text@, tone),
{
    plain(owned(text), tone)
}

pub fn bold_str(text: &str, tone: Tone) -> (s: Styled)
    ensures
        span_view(s) == bsp(text@, tone),
{
    bold(owned(text), tone)
}

/// The terminal colour of a theme role.
pub open spec fn theme_tone_spec(c: ThemeColor) -> Tone {
    match c {
        ThemeColor::Accent => Tone::Cyan,
        ThemeColor::Brand => Tone::Magenta,
        ThemeColor::Error => Tone::Red,
        ThemeColor::Focus => Tone::Blue,
        ThemeColor::Muted => Tone::DarkGray,
        ThemeColor::Running => Tone::Green,
        ThemeColor::Text => Tone::Gray,
        ThemeColor::Transition => Tone::Yellow,
    }
}

pub fn theme_tone(c: ThemeColor) -> (t: Tone)
    ensures
        t == theme_tone_spec(c),
{
    match c {
        ThemeColor::Accent => Tone::Cyan,
        ThemeColor::Brand => Tone::Magenta,
        ThemeColor::Error => Tone::Red,
        ThemeColor::Focus => Tone::Blue,
        ThemeColor::Muted => Tone::DarkGray,
        ThemeColor::Running => Tone::Green,
        ThemeColor::Text => Tone::Gray,
        ThemeColor::Transition => Tone::Yellow,
    }
}

/// The terminal colour of a log colour.
pub open spec fn log_tone_spec(c: LogColor) -> Tone {
    match c {
        LogColor::Red => Tone::Red,
        LogColor::LightRed => Tone::LightRed,
        LogColor::Yellow => Tone::Yellow,
        LogColor::LightBlue => Tone::LightBlue,
        LogColor::Green => Tone::Green,
        LogColor::Gray => Tone::Gray,
    }
}

pub fn log_tone(c: LogColor) -> (t: Tone)
    ensures
        t == log_tone_spec(c),
{
    match c {
        LogColor::Red => Tone::Red,
        LogColor::LightRed => Tone::LightRed,
        LogColor::Yellow => Tone::Yellow,
        LogColor::LightBlue => Tone::LightBlue,
        LogColor::Green => Tone::Green,
        LogColor::Gray => Tone::Gray,
    }
}

/// Appends a run to a line.
pub fn push_span(line: &mut Vec<Styled>, s: Styled)
    ensures
        line_view(final(line)@) == line_view(old(line)@).push(span_view(s)),
{
    let ghost v = span_view(s);
    line.push(s);
    assert(line_view(line@) =~= line_view(old(line)@).push(v));
}

} // verus!
