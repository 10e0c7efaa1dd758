//! Bounded, revisioned text buffers that hold a service's command output, events and live logs.
use vstd::prelude::*;
use vstd::string::*;
use vstd::utf8::*;

verus! {

broadcast use vstd::utf8::group_utf8_lib;

/// Byte limit of a buffer of command output.
pub const MAX_COMMAND_LOG_SIZE: usize = 524288;

/// Byte limit of a buffer of events.
pub const MAX_EVENT_LOG_SIZE: usize = 102400;

/// Byte limit of a buffer of live container logs.
pub const MAX_LIVE_LOG_SIZE: usize = 262144;

/// The UTF-8 bytes of a character sequence.
pub open spec fn utf8(s: Seq<char>) -> Seq<u8> {
    encode_utf8(s)
}

/// The first index at or after `i` that holds a newline byte, or `b.len()`.
pub open spec fn newline_from(b: Seq<u8>, i: int) -> int
    decreases b.len() - i,
{
    if i < 0 || i >= b.len() {
        b.len() as int
    } else if b[i] == 10u8 {
        i
    } else {
        newline_from(b, i + 1)
    }
}

/// Where the bytes to drop end once `b` exceeds `max`: just past the first newline at
/// or after the point that leaves `max / 2` bytes, or that point itself.
pub open spec fn drain_end(b: Seq<u8>, max: nat) -> int {
    let target = b.len() - max / 2;
    let p = newline_from(b, target);
    if p < b.len() {
        p + 1
    } else {
        target
    }
}

/// What a buffer with byte limit `max` keeps of the bytes `b`.
pub open spec fn keep_tail(b: Seq<u8>, max: nat) -> Seq<u8> {
    if b.len() <= max {
        b
    } else {
        b.subrange(drain_end(b, max), b.len() as int)
    }
}

/// Whether cutting `b` down to its limit starts on a character boundary; where it does
/// not, the cut would split a character.
pub open spec fn cut_on_boundary(b: Seq<u8>, max: nat) -> bool {
    b.len() <= max || is_char_boundary(b, b.len() - max / 2)
}

/// The revision counter after one change.
pub open spec fn next_revision(r: u64) -> u64 {
    if r == u64::MAX {
        0
    } else {
        (r + 1) as u64
    }
}

/// Whether pushing `text` onto a buffer in state `v` is defined: the text is empty, or
/// the cut that brings the buffer back under its limit falls on a character boundary.
pub open spec fn accepts_push(v: LogBufferView, text: Seq<char>) -> bool {
    text.len() == 0 || cut_on_boundary(utf8(v.text + text), v.max_bytes)
}

/// The state after pushing `text` onto a buffer in state `v`: empty text changes nothing;
/// other text is appended, the oldest bytes are dropped as [`keep_tail`] says, and the
/// revision moves on by one.
pub open spec fn after_push(v: LogBufferView, text: Seq<char>) -> LogBufferView {
    if text.len() == 0 {
        v
    } else {
        LogBufferView {
            text: decode_utf8(keep_tail(utf8(v.text + text), v.max_bytes)),
            max_bytes: v.max_bytes,
            revision: next_revision(v.revision),
        }
    }
}

/// The abstract state of a [`LogBuffer`].
pub ghost struct LogBufferView {
    pub text: Seq<char>,
    pub max_bytes: nat,
    pub revision: u64,
}

/// A text buffer that keeps at most `max_bytes` bytes of the most recent text and counts
/// its changes in `revision`.
#[derive(Debug)]
pub struct LogBuffer {
    text: String,
    max_bytes: usize,
    revision: u64,
}

impl View for LogBuffer {
    type V = LogBufferView;

    closed spec fn view(&self) -> LogBufferView {
        LogBufferView { text: self.text@, max_bytes: self.max_bytes as nat, revision: self.revision }
    }
}

pub proof fn lemma_utf8_concat(a: Seq<char>, b: Seq<char>)
    ensures
        utf8(a + b) == utf8(a) + utf8(b),
    decreases a.len(),
{
    if a.len() == 0 {
        assert(a + b =~= b);
        assert(utf8(a) =~= Seq::<u8>::empty());
        assert(utf8(a) + utf8(b) =~= utf8(b));
    } else {
        lemma_utf8_concat(a.drop_first(), b);
        assert((a + b).drop_first() =~= a.drop_first() + b);
        assert((a + b)[0] == a[0]);
        assert(utf8(a + b) =~= encode_scalar(a[0] as u32) + (utf8(a.drop_first()) + utf8(b)));
        assert(utf8(a) =~= encode_scalar(a[0] as u32) + utf8(a.drop_first()));
        assert(utf8(a) + utf8(b) =~= encode_scalar(a[0] as u32) + (utf8(a.drop_first()) + utf8(
            b,
        )));
    }
}

pub proof fn lemma_newline_from(b: Seq<u8>, i: int)
    requires
        0 <= i <= b.len(),
    ensures
        i <= newline_from(b, i) <= b.len(),
        newline_from(b, i) < b.len() ==> b[newline_from(b, i)] == 10u8,
    decreases b.len() - i,
{
    if i < b.len() && b[i] != 10u8 {
        lemma_newline_from(b, i + 1);
    }
}

/// The byte after an ASCII byte of valid UTF-8 starts a character.
pub proof fn lemma_boundary_after_ascii(b: Seq<u8>, p: int)
    requires
        valid_utf8(b),
        0 <= p < b.len(),
        b[p] < 0x80u8,
    ensures
        is_char_boundary(b, p + 1),
{
    is_char_boundary_start_end_of_seq(b);
    if p + 1 < b.len() {
        is_char_boundary_iff_is_leading_byte(b, p);
        assert(is_char_boundary(b, p));
        valid_utf8_split(b, p);
        let s2 = b.subrange(p, b.len() as int);
        assert(valid_utf8(s2));
        assert(s2[0] == b[p]);
        assert(length_of_first_scalar(s2) == 1);
        assert(pop_first_scalar(s2) =~= s2.subrange(1, s2.len() as int));
        assert(valid_utf8(pop_first_scalar(s2)));
        is_char_boundary_start_end_of_seq(pop_first_scalar(s2));
        assert(is_char_boundary(s2, 1)) by {
            reveal_with_fuel(is_char_boundary, 2);
        }
        is_char_boundary_iff_not_is_continuation_byte(s2, 1);
        assert(s2[1] == b[p + 1]);
        is_char_boundary_iff_not_is_continuation_byte(b, p + 1);
    }
}

/// What [`keep_tail`] keeps is valid UTF-8 within the limit, and the end of `b`.
pub proof fn lemma_keep_tail(b: Seq<u8>, max: nat)
    requires
        valid_utf8(b),
        cut_on_boundary(b, max),
    ensures
        valid_utf8(keep_tail(b, max)),
        keep_tail(b, max).len() <= max,
        keep_tail(b, max).is_suffix_of(b),
        b.len() <= max ==> keep_tail(b, max) == b,
{
    if b.len() <= max {
        assert(b =~= b.subrange(0, b.len() as int));
    } else {
        let target = b.len() - max / 2;
        lemma_newline_from(b, target);
        let p = newline_from(b, target);
        if p < b.len() {
            lemma_boundary_after_ascii(b, p);
        }
        let e = drain_end(b, max);
        assert(is_char_boundary(b, e));
        valid_utf8_split(b, e);
    }
}

/// The bytes kept of `s` under limit `max`, as a `String`.
fn truncate_front(s: String, max: usize) -> (r: String)
    requires
        cut_on_boundary(utf8(s@), max as nat),
    ensures
        utf8(r@) == keep_tail(utf8(s@), max as nat),
        utf8(r@).len() <= max,
{
    let st = s.as_str();
    let bytes = st.as_bytes();
    let len = bytes.len();
    proof {
        assert(st.spec_bytes() == utf8(s@));
    }
    if len <= max {
        return s;
    }
    let target = len - max / 2;
    let ghost b = utf8(s@);
    assert(bytes@ == b);
    let mut p = target;
    while p < len && bytes[p] != 10u8
        invariant
            target <= p <= len,
            len == b.len(),
            bytes@ == b,
            target == b.len() - max / 2,
            newline_from(b, target as int) == newline_from(b, p as int),
        decreases len - p,
    {
        p = p + 1;
    }
    proof {
        lemma_newline_from(b, p as int);
        encode_utf8_valid_utf8(s@);
    }
    let end = if p < len {
        proof {
            lemma_boundary_after_ascii(b, p as int);
        }
        p + 1
    } else {
        target
    };
    assert(end == drain_end(b, max as nat));
    assert(is_char_boundary(b, end as int));
    let (_, rest) = st.split_at(end);
    let r = rest.to_owned();
    proof {
        assert(rest.spec_bytes() == utf8(rest@));
        assert(utf8(r@) == b.subrange(end as int, b.len() as int));
        if p < len {
            assert(utf8(r@).len() < max / 2);
        }
    }
    r
}

impl LogBuffer {
    #[verifier::type_invariant]
    spec fn within_limit(&self) -> bool {
        utf8(self.text@).len() <= self.max_bytes
    }

    /// Whether pushing `text` is defined (see [`accepts_push`]).
    pub open spec fn accepts(self, text: Seq<char>) -> bool {
        accepts_push(self@, text)
    }

    /// The state after pushing `text` (see [`after_push`]).
    pub open spec fn pushed(self, text: Seq<char>) -> LogBufferView {
        after_push(self@, text)
    }

    pub fn command() -> (r: Self)
        ensures
            r@ == (LogBufferView {
                text: Seq::empty(),
                max_bytes: MAX_COMMAND_LOG_SIZE as nat,
                revision: 0,
            }),
    {
        Self::new(MAX_COMMAND_LOG_SIZE)
    }

    pub fn events() -> (r: Self)
        ensures
            r@ == (LogBufferView {
                text: Seq::empty(),
                max_bytes: MAX_EVENT_LOG_SIZE as nat,
                revision: 0,
            }),
    {
        Self::new(MAX_EVENT_LOG_SIZE)
    }

    pub fn live() -> (r: Self)
        ensures
            r@ == (LogBufferView {
                text: Seq::empty(),
                max_bytes: MAX_LIVE_LOG_SIZE as nat,
                revision: 0,
            }),
    {
        Self::new(MAX_LIVE_LOG_SIZE)
    }

    pub fn new(max_bytes: usize) -> (r: Self)
        ensures
            r@ == (LogBufferView { text: Seq::empty(), max_bytes: max_bytes as nat, revision: 0 }),
    {
        let r = Self { text: String::new(), max_bytes, revision: 0 };
        assert(utf8(r.text@) =~= Seq::<u8>::empty());
        r
    }

    /// Whether `text` can be pushed (see [`LogBuffer::accepts`]).
    pub fn can_push(&self, text: &str) -> (b: bool)
        ensures
            b == self.accepts(text@),
    {
        if text.is_empty() {
            return true;
        }
        let mut combined = self.text.clone();
        combined.append(text);
        let st = combined.as_str();
        let len = st.as_bytes().len();
        proof {
            assert(st.spec_bytes() == utf8(self@.text + text@));
        }
        if len <= self.max_bytes {
            return true;
        }
        st.is_char_boundary(len - self.max_bytes / 2)
    }

    pub fn push_str(&mut self, text: &str)
        requires
            old(self).accepts(text@),
        ensures
            final(self)@ == old(self).pushed(text@),
            utf8(final(self)@.text).len() <= final(self)@.max_bytes,
    {
        proof {
            use_type_invariant(&*self);
        }
        if text.is_empty() {
            return;
        }
        let mut current = String::new();
        proof {
            assert(utf8(current@) =~= Seq::<u8>::empty());
        }
        std::mem::swap(&mut self.text, &mut current);
        current.append(text);
        let kept = truncate_front(current, self.max_bytes);
        proof {
            encode_utf8_decode_utf8(kept@);
        }
        self.text = kept;
        self.revision = self.revision.wrapping_add(1);
    }

    pub fn push_line(&mut self, line: &str)
        requires
            old(self).accepts(line@),
            accepts_push(old(self).pushed(line@), seq!['\n']),
        ensures
            final(self)@ == after_push(old(self).pushed(line@), seq!['\n']),
    {
        self.push_str(line);
        let nl = "\n";
        proof {
            reveal_strlit("\n");
            assert(nl@ =~= seq!['\n']);
        }
        self.push_str(nl);
    }

    pub fn clear(&mut self)
        ensures
            old(self)@.text.len() == 0 ==> final(self)@ == old(self)@,
            old(self)@.text.len() > 0 ==> final(self)@ == (LogBufferView {
                text: Seq::empty(),
                max_bytes: old(self)@.max_bytes,
                revision: next_revision(old(self)@.revision),
            }),
    {
        if self.text.as_str().is_empty() {
            return;
        }
        let cleared = String::new();
        proof {
            assert(utf8(cleared@) =~= Seq::<u8>::empty());
        }
        self.text = cleared;
        self.revision = self.revision.wrapping_add(1);
    }

    /// An independent buffer in the same state.
    pub fn duplicate(&self) -> (r: Self)
        ensures
            r@ == self@,
    {
        proof {
            use_type_invariant(self);
        }
        LogBuffer { text: self.text.clone(), max_bytes: self.max_bytes, revision: self.revision }
    }

    pub fn is_empty(&self) -> (b: bool)
        ensures
            b == (self@.text.len() == 0),
    {
        self.text.as_str().is_empty()
    }

    pub fn as_str(&self) -> (s: &str)
        ensures
            s@ == self@.text,
    {
        self.text.as_str()
    }

    pub fn snapshot(&self) -> (s: String)
        ensures
            s@ == self@.text,
    {
        self.text.clone()
    }

    pub fn revision(&self) -> (r: u64)
        ensures
            r == self@.revision,
    {
        self.revision
    }

    /// The revision and a copy of the text, unless `cached` already names this revision.
    pub fn snapshot_if_changed(&self, cached: Option<u64>) -> (r: Option<(u64, String)>)
        ensures
            cached == Some(self@.revision) ==> r is None,
            cached != Some(self@.revision) ==> (r matches Some(p) && p.0 == self@.revision
                && p.1@ == self@.text),
    {
        match cached {
            Some(c) => {
                if c == self.revision {
                    return None;
                }
            },
            None => {},
        }
        Some((self.revision, self.text.clone()))
    }
}

/// Law: a buffer that is within its limit stays within it after any defined push.
pub proof fn law_push_stays_within_limit(v: LogBufferView, text: Seq<char>)
    requires
        utf8(v.text).len() <= v.max_bytes,
        accepts_push(v, text),
    ensures
        utf8(after_push(v, text).text).len() <= v.max_bytes,
        after_push(v, text).max_bytes == v.max_bytes,
{
    if text.len() > 0 {
        let b = utf8(v.text + text);
        encode_utf8_valid_utf8(v.text + text);
        lemma_keep_tail(b, v.max_bytes);
        decode_utf8_encode_utf8(keep_tail(b, v.max_bytes));
    }
}

/// Law: after a push the buffer holds the most recent bytes of what it held followed by
/// the pushed text; where these fit within the limit, it holds exactly them.
pub proof fn law_push_keeps_newest(v: LogBufferView, text: Seq<char>)
    requires
        accepts_push(v, text),
    ensures
        utf8(after_push(v, text).text).is_suffix_of(utf8(v.text) + utf8(text)),
        utf8(v.text).len() + utf8(text).len() <= v.max_bytes ==> after_push(v, text).text
            == v.text + text,
{
    lemma_utf8_concat(v.text, text);
    if text.len() == 0 {
        assert(v.text + text =~= v.text);
        assert(utf8(text) =~= Seq::<u8>::empty());
        assert(utf8(v.text) + utf8(text) =~= utf8(v.text));
        assert(utf8(v.text) =~= utf8(v.text).subrange(0, utf8(v.text).len() as int));
    } else {
        let b = utf8(v.text + text);
        encode_utf8_valid_utf8(v.text + text);
        lemma_keep_tail(b, v.max_bytes);
        decode_utf8_encode_utf8(keep_tail(b, v.max_bytes));
        if b.len() <= v.max_bytes {
            encode_utf8_decode_utf8(v.text + text);
        }
    }
}

/// Law: a push changes the revision exactly when the pushed text is not empty, and a
/// change always gives a revision different from the one before.
pub proof fn law_push_revision(v: LogBufferView, text: Seq<char>)
    ensures
        (after_push(v, text).revision != v.revision) == (text.len() > 0),
        after_push(v, text).revision == (if text.len() > 0 {
            next_revision(v.revision)
        } else {
            v.revision
        }),
{
}

} // verus!
