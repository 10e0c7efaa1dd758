//! Reading pull progress out of the lines `podman-compose pull` prints.
//!
//! A line yields a percentage it already shows, a size ratio such as `5MB/10MB` (whose
//! percentage the caller computes from the two amounts), or the name of a known pull phase.
use vstd::prelude::*;
use vstd::string::*;

use crate::text::{
    ascii_lower_seq, chars_of, contains_spec, contains_str, ends_with_str, is_ascii_alnum_spec,
    is_ascii_alphanumeric, is_ascii_digit, is_ascii_digit_spec, owned, push_decimal,
    decimal_spec, split_once, split_once_spec, split_words, str_eq, to_ascii_lowercase, trim,
    trim_spec, words,
};

verus! {

/// The part of a trimmed line after its first `": "` (the whole line where it has none);
/// nothing for a blank line.
pub open spec fn pull_rhs(line: Seq<char>) -> Option<Seq<char>> {
    let t = trim_spec(line);
    if t.len() == 0 {
        None
    } else {
        match split_once_spec(t, ": "@) {
            Some(pair) => Some(pair.1),
            None => Some(t),
        }
    }
}

/// The first word from index `i` on that ends with `%`.
pub open spec fn percent_word_from(ws: Seq<Seq<char>>, i: int) -> Option<Seq<char>>
    decreases ws.len() - i,
{
    if i < 0 || i >= ws.len() {
        None
    } else if ws[i].len() > 0 && ws[i].last() == '%' {
        Some(ws[i])
    } else {
        percent_word_from(ws, i + 1)
    }
}

/// Whether `c` survives the cleaning of a size token: ASCII letters and digits, dots, and
/// (for a ratio token) slashes.
pub open spec fn kept_char(c: char, slash: bool) -> bool {
    is_ascii_alnum_spec(c) || c == '.' || (slash && c == '/')
}

pub open spec fn strip_front(s: Seq<char>, slash: bool) -> Seq<char>
    decreases s.len(),
{
    if s.len() > 0 && !kept_char(s[0], slash) {
        strip_front(s.drop_first(), slash)
    } else {
        s
    }
}

pub open spec fn strip_back(s: Seq<char>, slash: bool) -> Seq<char>
    decreases s.len(),
{
    if s.len() > 0 && !kept_char(s.last(), slash) {
        strip_back(s.drop_last(), slash)
    } else {
        s
    }
}

/// `s` without the characters that are not kept at either end (`str::trim_matches`).
pub open spec fn strip_unkept_spec(s: Seq<char>, slash: bool) -> Seq<char> {
    strip_back(strip_front(s, slash), slash)
}

/// The length of the run of digits and dots that `s` starts with.
pub open spec fn number_len(s: Seq<char>) -> nat
    decreases s.len(),
{
    if s.len() > 0 && (is_ascii_digit_spec(s[0]) || s[0] == '.') {
        1 + number_len(s.drop_first())
    } else {
        0
    }
}

/// The number of dots in `s`.
pub open spec fn dot_count(s: Seq<char>) -> nat
    decreases s.len(),
{
    if s.len() == 0 {
        0
    } else {
        dot_count(s.drop_last()) + if s.last() == '.' {
            1nat
        } else {
            0nat
        }
    }
}

/// Whether a run of digits and dots is a decimal number (`str::parse::<f64>` accepts it):
/// it holds a digit and at most one dot.
pub open spec fn decimal_number(s: Seq<char>) -> bool {
    dot_count(s) <= 1 && exists|i: int| 0 <= i < s.len() && is_ascii_digit_spec(#[trigger] s[i])
}

/// The number of bytes in one unit of a (lower-cased) size unit.
pub open spec fn unit_multiplier_spec(unit: Seq<char>) -> Option<u64> {
    if unit == ""@ || unit == "b"@ {
        Some(1)
    } else if unit == "kb"@ {
        Some(1_000)
    } else if unit == "mb"@ {
        Some(1_000_000)
    } else if unit == "gb"@ {
        Some(1_000_000_000)
    } else if unit == "tb"@ {
        Some(1_000_000_000_000)
    } else if unit == "kib"@ {
        Some(1_024)
    } else if unit == "mib"@ {
        Some(1_048_576)
    } else if unit == "gib"@ {
        Some(1_073_741_824)
    } else if unit == "tib"@ {
        Some(1_099_511_627_776)
    } else {
        None
    }
}

/// A size such as `5.5MB`: its number text and the bytes per unit, where both are valid.
pub open spec fn size_amount_spec(token: Seq<char>) -> Option<(Seq<char>, u64)> {
    let c = strip_unkept_spec(token, false);
    let k = number_len(c) as int;
    if c.len() == 0 || !decimal_number(c.take(k)) {
        None
    } else {
        match unit_multiplier_spec(ascii_lower_seq(c.skip(k))) {
            Some(m) => Some((c.take(k), m)),
            None => None,
        }
    }
}

/// The first word from index `i` on whose cleaned form holds a `/`, read as a ratio of
/// two sizes; nothing where that word's sizes are not valid.
pub open spec fn ratio_from(ws: Seq<Seq<char>>, i: int) -> Option<
    ((Seq<char>, u64), (Seq<char>, u64)),
>
    decreases ws.len() - i,
{
    if i < 0 || i >= ws.len() {
        None
    } else {
        match split_once_spec(strip_unkept_spec(ws[i], true), seq!['/']) {
            Some(pair) => match (size_amount_spec(pair.0), size_amount_spec(pair.1)) {
                (Some(d), Some(t)) => Some((d, t)),
                _ => None,
            },
            None => ratio_from(ws, i + 1),
        }
    }
}

/// The pull phases looked for, in order.
pub open spec fn pull_phases() -> Seq<Seq<char>> {
    seq![
        "Waiting"@,
        "Pulling fs layer"@,
        "Downloading"@,
        "Extracting"@,
        "Download complete"@,
        "Pull complete"@,
        "Already exists"@,
    ]
}

/// The first phase, from index `i` on, that the text contains.
pub open spec fn phase_from(rhs: Seq<char>, i: int) -> Option<Seq<char>>
    decreases pull_phases().len() - i,
{
    if i < 0 || i >= pull_phases().len() {
        None
    } else if contains_spec(rhs, pull_phases()[i]) {
        Some(pull_phases()[i])
    } else {
        phase_from(rhs, i + 1)
    }
}

/// The phase a size ratio is reported under.
pub open spec fn ratio_phase(rhs: Seq<char>) -> Seq<char> {
    if contains_spec(rhs, "Extracting"@) {
        "Extracting"@
    } else {
        "Downloading"@
    }
}

/// An amount of bytes as printed: a decimal number and the bytes per unit.
#[derive(Debug)]
pub struct SizeAmount {
    pub number: String,
    pub multiplier: u64,
}

/// What a pull output line says about progress.
#[derive(Debug)]
pub enum PullLine {
    /// Nothing.
    Quiet,
    /// A progress text to show as it is.
    Progress(String),
    /// A size ratio; shown as the phase and the percentage where the total is above zero,
    /// else as the fallback.
    SizeRatio { done: SizeAmount, total: SizeAmount, phase: String, fallback: Option<String> },
}

/// The plain values of a [`PullLine`].
pub enum PullLineView {
    Quiet,
    Progress(Seq<char>),
    SizeRatio((Seq<char>, u64), (Seq<char>, u64), Seq<char>, Option<Seq<char>>),
}

pub open spec fn opt_text(o: Option<String>) -> Option<Seq<char>> {
    match o {
        Some(s) => Some(s@),
        None => None,
    }
}

impl View for PullLine {
    type V = PullLineView;

    open spec fn view(&self) -> PullLineView {
        match self {
            PullLine::Quiet => PullLineView::Quiet,
            PullLine::Progress(s) => PullLineView::Progress(s@),
            PullLine::SizeRatio { done, total, phase, fallback } => PullLineView::SizeRatio(
                (done.number@, done.multiplier),
                (total.number@, total.multiplier),
                phase@,
                opt_text(*fallback),
            ),
        }
    }
}

/// What a line says: a word ending in `%`, else a size ratio, else a known phase.
pub open spec fn pull_line_spec(line: Seq<char>) -> PullLineView {
    match pull_rhs(line) {
        None => PullLineView::Quiet,
        Some(rhs) => match percent_word_from(words(rhs), 0) {
            Some(p) => PullLineView::Progress(p),
            None => match ratio_from(words(rhs), 0) {
                Some((d, t)) => PullLineView::SizeRatio(d, t, ratio_phase(rhs), phase_from(rhs, 0)),
                None => match phase_from(rhs, 0) {
                    Some(k) => PullLineView::Progress(k),
                    None => PullLineView::Quiet,
                },
            },
        },
    }
}

fn rhs_of(line: &str) -> (r: Option<&str>)
    ensures
        opt_str_view(r) == pull_rhs(line@),
{
    let t = trim(line);
    if t.is_empty() {
        return None;
    }
    let sep = ": ";
    proof {
        reveal_strlit(": ");
    }
    match split_once(t, sep) {
        Some((_, rhs)) => Some(rhs),
        None => Some(t),
    }
}

pub open spec fn opt_str_view(o: Option<&str>) -> Option<Seq<char>> {
    match o {
        Some(s) => Some(s@),
        None => None,
    }
}

fn percent_word(ws: &Vec<&str>) -> (r: Option<String>)
    ensures
        opt_text(r) == percent_word_from(ws@.map_values(|w: &str| w@), 0),
{
    let ghost wv = ws@.map_values(|w: &str| w@);
    let mut i: usize = 0;
    while i < ws.len()
        invariant
            i <= ws@.len(),
            wv == ws@.map_values(|w: &str| w@),
            percent_word_from(wv, 0) == percent_word_from(wv, i as int),
        decreases ws.len() - i,
    {
        assert(wv[i as int] == ws@[i as int]@);
        if ends_with_str(ws[i], "%") {
            proof {
                reveal_strlit("%");
                assert(wv[i as int].len() > 0 && wv[i as int].last() == '%') by {
                    assert(wv[i as int].subrange(
                        wv[i as int].len() - 1,
                        wv[i as int].len() as int,
                    ) =~= seq!['%']);
                    assert(wv[i as int][wv[i as int].len() - 1] == wv[i as int].subrange(
                        wv[i as int].len() - 1,
                        wv[i as int].len() as int,
                    )[0]);
                }
            }
            return Some(owned(ws[i]));
        }
        proof {
            reveal_strlit("%");
            if wv[i as int].len() > 0 && wv[i as int].last() == '%' {
                assert(wv[i as int].subrange(wv[i as int].len() - 1, wv[i as int].len() as int)
                    =~= "%"@);
            }
        }
        i = i + 1;
    }
    None
}

fn kept(c: char, slash: bool) -> (b: bool)
    ensures
        b == kept_char(c, slash),
{
    is_ascii_alphanumeric(c) || c == '.' || (slash && c == '/')
}

/// `s` without the characters that are not kept at either end.
pub fn strip_unkept(s: &str, slash: bool) -> (r: &str)
    ensures
        r@ == strip_unkept_spec(s@, slash),
{
    let v = chars_of(s);
    let mut i: usize = 0;
    assert(v@.subrange(0, v.len() as int) =~= v@);
    while i < v.len() && !kept(v[i], slash)
        invariant
            i <= v.len(),
            v@ == s@,
            strip_front(s@, slash) == strip_front(v@.subrange(i as int, v.len() as int), slash),
        decreases v.len() - i,
    {
        assert(v@.subrange(i as int, v.len() as int).drop_first() =~= v@.subrange(
            i + 1,
            v.len() as int,
        ));
        i = i + 1;
    }
    let mut j = v.len();
    assert(strip_front(s@, slash) == v@.subrange(i as int, j as int));
    while j > i && !kept(v[j - 1], slash)
        invariant
            i <= j <= v.len(),
            v@ == s@,
            strip_back(strip_front(s@, slash), slash) == strip_back(
                v@.subrange(i as int, j as int),
                slash,
            ),
        decreases j,
    {
        assert(v@.subrange(i as int, j as int).drop_last() =~= v@.subrange(i as int, j - 1));
        j = j - 1;
    }
    s.substring_char(i, j)
}

proof fn lemma_number_len(s: Seq<char>)
    ensures
        number_len(s) <= s.len(),
        forall|m: int|
            0 <= m < number_len(s) ==> (is_ascii_digit_spec(#[trigger] s[m]) || s[m] == '.'),
        number_len(s) < s.len() ==> !(is_ascii_digit_spec(s[number_len(s) as int]) || s[number_len(
            s,
        ) as int] == '.'),
    decreases s.len(),
{
    if s.len() > 0 && (is_ascii_digit_spec(s[0]) || s[0] == '.') {
        lemma_number_len(s.drop_first());
        assert forall|m: int| 0 <= m < number_len(s) implies (is_ascii_digit_spec(
            #[trigger] s[m],
        ) || s[m] == '.') by {
            if m > 0 {
                assert(s[m] == s.drop_first()[m - 1]);
            }
        }
    }
}

fn is_decimal_number(v: &Vec<char>, k: usize) -> (b: bool)
    requires
        k <= v.len(),
    ensures
        b == decimal_number(v@.take(k as int)),
{
    let mut dots: usize = 0;
    let mut digit = false;
    let mut i: usize = 0;
    while i < k
        invariant
            i <= k <= v.len(),
            dots == dot_count(v@.take(i as int)),
            dots <= i,
            digit == exists|m: int| 0 <= m < i && is_ascii_digit_spec(#[trigger] v@[m]),
        decreases k - i,
    {
        assert(v@.take(i + 1).drop_last() =~= v@.take(i as int));
        if v[i] == '.' {
            dots = dots + 1;
        }
        if is_ascii_digit(v[i]) {
            digit = true;
        }
        i = i + 1;
    }
    let ghost t = v@.take(k as int);
    assert(digit == exists|m: int| 0 <= m < t.len() && is_ascii_digit_spec(#[trigger] t[m])) by {
        if digit {
            let m = choose|m: int| 0 <= m < k && is_ascii_digit_spec(#[trigger] v@[m]);
            assert(t[m] == v@[m]);
        }
        if exists|m: int| 0 <= m < t.len() && is_ascii_digit_spec(#[trigger] t[m]) {
            let m = choose|m: int| 0 <= m < t.len() && is_ascii_digit_spec(#[trigger] t[m]);
            assert(t[m] == v@[m]);
        }
    }
    dots <= 1 && digit
}

fn unit_multiplier(unit: &str) -> (r: Option<u64>)
    ensures
        r == unit_multiplier_spec(unit@),
{
    if str_eq(unit, "") || str_eq(unit, "b") {
        Some(1)
    } else if str_eq(unit, "kb") {
        Some(1_000)
    } else if str_eq(unit, "mb") {
        Some(1_000_000)
    } else if str_eq(unit, "gb") {
        Some(1_000_000_000)
    } else if str_eq(unit, "tb") {
        Some(1_000_000_000_000)
    } else if str_eq(unit, "kib") {
        Some(1_024)
    } else if str_eq(unit, "mib") {
        Some(1_048_576)
    } else if str_eq(unit, "gib") {
        Some(1_073_741_824)
    } else if str_eq(unit, "tib") {
        Some(1_099_511_627_776)
    } else {
        None
    }
}

/// A size token read as a number and the bytes per unit.
pub fn size_amount(token: &str) -> (r: Option<SizeAmount>)
    ensures
        match r {
            Some(a) => size_amount_spec(token@) == Some((a.number@, a.multiplier)),
            None => size_amount_spec(token@) is None,
        },
{
    let c = strip_unkept(token, false);
    let v = chars_of(c);
    if v.len() == 0 {
        return None;
    }
    let mut k: usize = 0;
    while k < v.len() && (is_ascii_digit(v[k]) || v[k] == '.')
        invariant
            k <= v.len(),
            forall|m: int| 0 <= m < k ==> (is_ascii_digit_spec(#[trigger] v@[m]) || v@[m] == '.'),
        decreases v.len() - k,
    {
        k = k + 1;
    }
    proof {
        lemma_number_len(v@);
        let n = number_len(v@);
        assert(n == k) by {
            if n < k {
                assert(is_ascii_digit_spec(v@[n as int]) || v@[n as int] == '.');
            } else if n > k {
                assert(is_ascii_digit_spec(v@[k as int]) || v@[k as int] == '.');
            }
        }
    }
    if !is_decimal_number(&v, k) {
        return None;
    }
    let number = c.substring_char(0, k);
    let unit_text = c.substring_char(k, v.len());
    let unit = to_ascii_lowercase(unit_text);
    assert(number@ =~= v@.take(k as int));
    assert(unit_text@ =~= v@.skip(k as int));
    match unit_multiplier(unit.as_str()) {
        Some(m) => Some(SizeAmount { number: owned(number), multiplier: m }),
        None => None,
    }
}

fn size_ratio(ws: &Vec<&str>) -> (r: Option<(SizeAmount, SizeAmount)>)
    ensures
        match r {
            Some((d, t)) => ratio_from(ws@.map_values(|w: &str| w@), 0) == Some(
                ((d.number@, d.multiplier), (t.number@, t.multiplier)),
            ),
            None => ratio_from(ws@.map_values(|w: &str| w@), 0) is None,
        },
{
    let ghost wv = ws@.map_values(|w: &str| w@);
    let slash = "/";
    proof {
        reveal_strlit("/");
        assert(slash@ =~= seq!['/']);
    }
    let mut i: usize = 0;
    while i < ws.len()
        invariant
            i <= ws@.len(),
            slash@ == seq!['/'],
            wv == ws@.map_values(|w: &str| w@),
            ratio_from(wv, 0) == ratio_from(wv, i as int),
        decreases ws.len() - i,
    {
        assert(wv[i as int] == ws@[i as int]@);
        let cleaned = strip_unkept(ws[i], true);
        match split_once(cleaned, slash) {
            Some((left, right)) => {
                let d = size_amount(left);
                let t = size_amount(right);
                match (d, t) {
                    (Some(d), Some(t)) => {
                        return Some((d, t));
                    },
                    _ => {
                        return None;
                    },
                }
            },
            None => {},
        }
        i = i + 1;
    }
    None
}

fn known_phase(rhs: &str) -> (r: Option<String>)
    ensures
        opt_text(r) == phase_from(rhs@, 0),
{
    let phases = vec![
        "Waiting",
        "Pulling fs layer",
        "Downloading",
        "Extracting",
        "Download complete",
        "Pull complete",
        "Already exists",
    ];
    let ghost pv = phases@.map_values(|p: &str| p@);
    assert(pv =~= pull_phases());
    let mut i: usize = 0;
    while i < phases.len()
        invariant
            i <= phases@.len(),
            phases@.len() == pull_phases().len(),
            pv == phases@.map_values(|p: &str| p@),
            pv == pull_phases(),
            phase_from(rhs@, 0) == phase_from(rhs@, i as int),
        decreases phases.len() - i,
    {
        assert(pv[i as int] == phases@[i as int]@);
        if contains_str(rhs, phases[i]) {
            return Some(owned(phases[i]));
        }
        i = i + 1;
    }
    None
}

/// Reads what a pull output line says about progress.
pub fn scan_pull_line(line: &str) -> (r: PullLine)
    ensures
        r@ == pull_line_spec(line@),
{
    let rhs = match rhs_of(line) {
        Some(rhs) => rhs,
        None => return PullLine::Quiet,
    };
    let ws = split_words(rhs);
    if let Some(p) = percent_word(&ws) {
        return PullLine::Progress(p);
    }
    match size_ratio(&ws) {
        Some((done, total)) => {
            let phase = if contains_str(rhs, "Extracting") {
                owned("Extracting")
            } else {
                owned("Downloading")
            };
            PullLine::SizeRatio { done, total, phase, fallback: known_phase(rhs) }
        },
        None => match known_phase(rhs) {
            Some(k) => PullLine::Progress(k),
            None => PullLine::Quiet,
        },
    }
}

/// The progress text of a size ratio: the phase, a space, the percentage and `%`.
pub fn ratio_progress_text(phase: &str, percent: u8) -> (r: String)
    ensures
        r@ == phase@ + " "@ + decimal_spec(percent as nat) + "%"@,
{
    let mut r = owned(phase);
    r.append(" ");
    push_decimal(&mut r, percent as u64);
    r.append("%");
    r
}

/// Law: a size ratio is reported under the extraction phase exactly when the line's text
/// (after its first `": "`) mentions extracting, and under the download phase otherwise;
/// no other phase is ever given to a ratio.
pub proof fn law_ratio_phase(line: Seq<char>)
    ensures
        pull_line_spec(line) matches PullLineView::SizeRatio(d, t, phase, fb) ==> pull_rhs(line)
            is Some && (contains_spec(pull_rhs(line)->0, "Extracting"@) ==> phase
            == "Extracting"@) && (!contains_spec(pull_rhs(line)->0, "Extracting"@) ==> phase
            == "Downloading"@) && (phase == "Extracting"@ || phase == "Downloading"@),
{
}

} // verus!
