//! Character-level string helpers with their mathematical meaning over `Seq<char>`.
use vstd::prelude::*;
use vstd::string::*;

verus! {

/// The Unicode `White_Space` property, the set that `char::is_whitespace` tests.
pub open spec fn is_ws(c: char) -> bool {
    let u = c as u32;
    ||| 0x09 <= u <= 0x0d
    ||| u == 0x20
    ||| u == 0x85
    ||| u == 0xa0
    ||| u == 0x1680
    ||| 0x2000 <= u <= 0x200a
    ||| u == 0x2028
    ||| u == 0x2029
    ||| u == 0x202f
    ||| u == 0x205f
    ||| u == 0x3000
}

pub fn is_whitespace(c: char) -> (b: bool)
    ensures
        b == is_ws(c),
{
    let u = c as u32;
    (0x09 <= u && u <= 0x0d) || u == 0x20 || u == 0x85 || u == 0xa0 || u == 0x1680 || (0x2000
        <= u && u <= 0x200a) || u == 0x2028 || u == 0x2029 || u == 0x202f || u == 0x205f || u
        == 0x3000
}

pub open spec fn is_ascii_digit_spec(c: char) -> bool {
    '0' <= c <= '9'
}

pub open spec fn is_ascii_alnum_spec(c: char) -> bool {
    ||| '0' <= c <= '9'
    ||| 'a' <= c <= 'z'
    ||| 'A' <= c <= 'Z'
}

pub fn is_ascii_digit(c: char) -> (b: bool)
    ensures
        b == is_ascii_digit_spec(c),
{
    '0' <= c && c <= '9'
}

pub fn is_ascii_alphanumeric(c: char) -> (b: bool)
    ensures
        b == is_ascii_alnum_spec(c),
{
    ('0' <= c && c <= '9') || ('a' <= c && c <= 'z') || ('A' <= c && c <= 'Z')
}

/// Whether every character of `s` is ASCII.
pub open spec fn is_ascii_char_seq(s: Seq<char>) -> bool {
    forall|i: int| 0 <= i < s.len() ==> (#[trigger] s[i] as u32) < 128
}

/// ASCII lower-casing of one character; other characters are unchanged.
pub open spec fn ascii_lower(c: char) -> char {
    if 'A' <= c <= 'Z' {
        ((c as u32) + 32) as char
    } else {
        c
    }
}

pub open spec fn ascii_upper(c: char) -> char {
    if 'a' <= c <= 'z' {
        ((c as u32) - 32) as char
    } else {
        c
    }
}

pub open spec fn ascii_lower_seq(s: Seq<char>) -> Seq<char> {
    s.map_values(|c: char| ascii_lower(c))
}

pub open spec fn ascii_upper_seq(s: Seq<char>) -> Seq<char> {
    s.map_values(|c: char| ascii_upper(c))
}

pub fn to_ascii_lower_char(c: char) -> (r: char)
    ensures
        r == ascii_lower(c),
{
    if 'A' <= c && c <= 'Z' {
        let u = (c as u32) + 32;
        char_from_ascii(u)
    } else {
        c
    }
}

pub fn to_ascii_upper_char(c: char) -> (r: char)
    ensures
        r == ascii_upper(c),
{
    if 'a' <= c && c <= 'z' {
        let u = (c as u32) - 32;
        char_from_ascii(u)
    } else {
        c
    }
}

/// Converts an ASCII code to its character.
fn char_from_ascii(u: u32) -> (c: char)
    requires
        u < 128,
    ensures
        c == u as char,
        c as u32 == u,
{
    let b = u as u8;
    b as char
}

/// The characters of `s`, in order.
pub fn chars_of(s: &str) -> (r: Vec<char>)
    ensures
        r@ == s@,
{
    let mut v: Vec<char> = Vec::new();
    for c in it: s.chars()
        invariant
            v@ == it.seq().take(it.index() as int),
    {
        v.push(c);
    }
    v
}

/// Appends one character with `String::push`: the text afterwards is the text before
/// with the character added at its end.
#[verifier::external_body]
pub(crate) fn push_char(s: &mut String, c: char)
    ensures
        final(s)@ == old(s)@.push(c),
{
    s.push(c);
}

/// A `String` holding exactly the given characters.
pub fn string_from_chars(v: &Vec<char>) -> (r: String)
    ensures
        r@ == v@,
{
    let mut r = String::new();
    let mut i: usize = 0;
    while i < v.len()
        invariant
            i <= v.len(),
            r@ == v@.subrange(0, i as int),
        decreases v.len() - i,
    {
        push_char(&mut r, v[i]);
        i = i + 1;
        assert(r@ =~= v@.subrange(0, i as int));
    }
    assert(v@.subrange(0, v.len() as int) =~= v@);
    r
}

/// A `String` holding exactly the characters of `s`.
pub fn owned(s: &str) -> (r: String)
    ensures
        r@ == s@,
{
    String::from_str(s)
}

/// `s` with leading whitespace removed (`str::trim_start`).
pub open spec fn trim_start_spec(s: Seq<char>) -> Seq<char>
    decreases s.len(),
{
    if s.len() > 0 && is_ws(s[0]) {
        trim_start_spec(s.drop_first())
    } else {
        s
    }
}

/// `s` with trailing whitespace removed (`str::trim_end`).
pub open spec fn trim_end_spec(s: Seq<char>) -> Seq<char>
    decreases s.len(),
{
    if s.len() > 0 && is_ws(s.last()) {
        trim_end_spec(s.drop_last())
    } else {
        s
    }
}

/// `s` with whitespace removed at both ends (`str::trim`).
pub open spec fn trim_spec(s: Seq<char>) -> Seq<char> {
    trim_end_spec(trim_start_spec(s))
}

pub proof fn lemma_trim_start_is_suffix(s: Seq<char>)
    ensures
        trim_start_spec(s).is_suffix_of(s),
        trim_start_spec(s).len() > 0 ==> !is_ws(trim_start_spec(s)[0]),
    decreases s.len(),
{
    if s.len() > 0 && is_ws(s[0]) {
        lemma_trim_start_is_suffix(s.drop_first());
        assert(s.drop_first() =~= s.subrange(1, s.len() as int));
    } else {
        assert(s =~= s.subrange(0, s.len() as int));
    }
}

pub proof fn lemma_trim_end_is_prefix(s: Seq<char>)
    ensures
        trim_end_spec(s).is_prefix_of(s),
        trim_end_spec(s).len() > 0 ==> !is_ws(trim_end_spec(s).last()),
    decreases s.len(),
{
    if s.len() > 0 && is_ws(s.last()) {
        lemma_trim_end_is_prefix(s.drop_last());
    } else {
        assert(s =~= s.subrange(0, s.len() as int));
    }
}

/// Number of leading whitespace characters of `v[from..]`.
fn skip_ws_forward(v: &Vec<char>, from: usize) -> (i: usize)
    requires
        from <= v.len(),
    ensures
        from <= i <= v.len(),
        trim_start_spec(v@.subrange(from as int, v.len() as int)) == v@.subrange(
            i as int,
            v.len() as int,
        ),
{
    let mut i = from;
    while i < v.len() && is_whitespace(v[i])
        invariant
            from <= i <= v.len(),
            trim_start_spec(v@.subrange(from as int, v.len() as int)) == trim_start_spec(
                v@.subrange(i as int, v.len() as int),
            ),
        decreases v.len() - i,
    {
        assert(v@.subrange(i as int, v.len() as int).drop_first() =~= v@.subrange(
            i + 1,
            v.len() as int,
        ));
        i = i + 1;
    }
    i
}

/// End of `v[from..to]` once trailing whitespace is removed.
fn skip_ws_backward(v: &Vec<char>, from: usize, to: usize) -> (j: usize)
    requires
        from <= to <= v.len(),
    ensures
        from <= j <= to,
        trim_end_spec(v@.subrange(from as int, to as int)) == v@.subrange(from as int, j as int),
{
    let mut j = to;
    while j > from && is_whitespace(v[j - 1])
        invariant
            from <= j <= to,
            to <= v.len(),
            trim_end_spec(v@.subrange(from as int, to as int)) == trim_end_spec(
                v@.subrange(from as int, j as int),
            ),
        decreases j,
    {
        assert(v@.subrange(from as int, j as int).drop_last() =~= v@.subrange(
            from as int,
            j - 1,
        ));
        j = j - 1;
    }
    j
}

pub fn trim(s: &str) -> (r: &str)
    ensures
        r@ == trim_spec(s@),
{
    let v = chars_of(s);
    let i = skip_ws_forward(&v, 0);
    let j = skip_ws_backward(&v, i, v.len());
    assert(v@.subrange(0, v.len() as int) =~= v@);
    s.substring_char(i, j)
}

pub fn trim_start(s: &str) -> (r: &str)
    ensures
        r@ == trim_start_spec(s@),
{
    let v = chars_of(s);
    let i = skip_ws_forward(&v, 0);
    assert(v@.subrange(0, v.len() as int) =~= v@);
    s.substring_char(i, v.len())
}

pub fn trim_end(s: &str) -> (r: &str)
    ensures
        r@ == trim_end_spec(s@),
{
    let v = chars_of(s);
    let j = skip_ws_backward(&v, 0, v.len());
    assert(v@.subrange(0, v.len() as int) =~= v@);
    s.substring_char(0, j)
}

/// Whether `p` occurs in `s` starting at index `i`.
pub open spec fn occurs_at(s: Seq<char>, p: Seq<char>, i: int) -> bool {
    0 <= i && i + p.len() <= s.len() && s.subrange(i, i + p.len()) == p
}

/// The first index at or after `i` where `p` occurs in `s`.
pub open spec fn find_from(s: Seq<char>, p: Seq<char>, i: int) -> Option<int>
    decreases s.len() + 1 - i,
{
    if i < 0 || i + p.len() > s.len() {
        None
    } else if s.subrange(i, i + p.len()) == p {
        Some(i)
    } else {
        find_from(s, p, i + 1)
    }
}

/// The first index where `p` occurs in `s` (`str::find`, counted in characters).
pub open spec fn find_spec(s: Seq<char>, p: Seq<char>) -> Option<int> {
    find_from(s, p, 0)
}

/// Whether `p` occurs anywhere in `s` (`str::contains`).
pub open spec fn contains_spec(s: Seq<char>, p: Seq<char>) -> bool {
    find_spec(s, p) is Some
}

pub proof fn lemma_find_from(s: Seq<char>, p: Seq<char>, i: int)
    requires
        0 <= i,
    ensures
        find_from(s, p, i) matches Some(k) ==> i <= k && occurs_at(s, p, k) && forall|m: int|
            i <= m < k ==> !occurs_at(s, p, m),
        find_from(s, p, i) is None ==> forall|m: int| i <= m ==> !occurs_at(s, p, m),
    decreases s.len() + 1 - i,
{
    if i + p.len() > s.len() {
    } else if s.subrange(i, i + p.len()) == p {
    } else {
        lemma_find_from(s, p, i + 1);
    }
}

/// Whether `p` occurs in `s` at index `i`.
fn matches_at(s: &Vec<char>, p: &Vec<char>, i: usize) -> (b: bool)
    requires
        i + p.len() <= s.len(),
    ensures
        b == (s@.subrange(i as int, i + p.len()) == p@),
{
    let mut k: usize = 0;
    while k < p.len()
        invariant
            k <= p.len(),
            i + p.len() <= s.len(),
            forall|m: int| 0 <= m < k ==> s@[i + m] == p@[m],
        decreases p.len() - k,
    {
        if s[i + k] != p[k] {
            assert(s@.subrange(i as int, i + p.len())[k as int] != p@[k as int]);
            return false;
        }
        k = k + 1;
    }
    assert(s@.subrange(i as int, i + p.len()) =~= p@);
    true
}

/// The first index at or after `from` where `p` occurs in `s`.
pub fn find_chars(s: &Vec<char>, p: &Vec<char>, from: usize) -> (r: Option<usize>)
    ensures
        r matches Some(k) ==> find_from(s@, p@, from as int) == Some(k as int),
        r is None ==> find_from(s@, p@, from as int) is None,
{
    if p.len() > s.len() {
        return None;
    }
    let last = s.len() - p.len();
    let mut i = from;
    while i <= last
        invariant
            last == s.len() - p.len(),
            from <= i,
            find_from(s@, p@, from as int) == find_from(s@, p@, i as int),
        decreases last + 1 - i,
    {
        if matches_at(s, p, i) {
            return Some(i);
        }
        if i == last {
            assert(find_from(s@, p@, i + 1) is None);
            return None;
        }
        i = i + 1;
    }
    None
}

pub fn find_str(s: &str, p: &str) -> (r: Option<usize>)
    ensures
        r matches Some(k) ==> find_spec(s@, p@) == Some(k as int),
        r is None ==> find_spec(s@, p@) is None,
{
    let sv = chars_of(s);
    let pv = chars_of(p);
    find_chars(&sv, &pv, 0)
}

pub fn contains_str(s: &str, p: &str) -> (b: bool)
    ensures
        b == contains_spec(s@, p@),
{
    find_str(s, p).is_some()
}

pub fn starts_with_str(s: &str, p: &str) -> (b: bool)
    ensures
        b == p@.is_prefix_of(s@),
{
    let sv = chars_of(s);
    let pv = chars_of(p);
    if pv.len() > sv.len() {
        return false;
    }
    let b = matches_at(&sv, &pv, 0);
    b
}

pub fn ends_with_str(s: &str, p: &str) -> (b: bool)
    ensures
        b == p@.is_suffix_of(s@),
{
    let sv = chars_of(s);
    let pv = chars_of(p);
    if pv.len() > sv.len() {
        return false;
    }
    let b = matches_at(&sv, &pv, sv.len() - pv.len());
    b
}

pub fn str_eq(a: &str, b: &str) -> (r: bool)
    ensures
        r == (a@ == b@),
{
    let av = chars_of(a);
    let bv = chars_of(b);
    if av.len() != bv.len() {
        return false;
    }
    let r = matches_at(&av, &bv, 0);
    assert(av@.subrange(0, av@.len() as int) =~= av@);
    r
}

/// The texts a vector of strings holds.
pub open spec fn strings_view(v: Seq<String>) -> Seq<Seq<char>> {
    v.map_values(|s: String| s@)
}

/// Whether `v` holds the text `s`.
pub fn contains_text(v: &Vec<String>, s: &str) -> (b: bool)
    ensures
        b == strings_view(v@).contains(s@),
{
    let mut i: usize = 0;
    while i < v.len()
        invariant
            i <= v@.len(),
            forall|k: int| 0 <= k < i ==> #[trigger] v@[k]@ != s@,
        decreases v.len() - i,
    {
        if str_eq(v[i].as_str(), s) {
            proof {
                assert(strings_view(v@)[i as int] == s@);
            }
            return true;
        }
        i = i + 1;
    }
    proof {
        if strings_view(v@).contains(s@) {
            let k = choose|k: int| 0 <= k < strings_view(v@).len() && strings_view(v@)[k] == s@;
            assert(v@[k]@ == s@);
        }
    }
    false
}

/// The texts of `parts` joined by `sep` (`<[String]>::join`).
pub fn join_strings(parts: &Vec<String>, sep: &str) -> (r: String)
    ensures
        r@ == join(strings_view(parts@), sep@),
{
    let ghost all = strings_view(parts@);
    let mut r = String::new();
    let mut i: usize = 0;
    while i < parts.len()
        invariant
            i <= parts@.len(),
            all == strings_view(parts@),
            r@ == join(all.take(i as int), sep@),
        decreases parts.len() - i,
    {
        proof {
            assert(all.take(i + 1).drop_last() =~= all.take(i as int));
            assert(all.take(i + 1).last() == parts@[i as int]@);
        }
        if i > 0 {
            r.append(sep);
        }
        r.append(parts[i].as_str());
        proof {
            if i == 0 {
                assert(all.take(1)[0] == parts@[0]@);
                assert(r@ =~= parts@[0]@);
            }
        }
        i = i + 1;
    }
    assert(all.take(parts@.len() as int) =~= all);
    r
}

/// `s` split around the first occurrence of `p` (`str::split_once`).
pub open spec fn split_once_spec(s: Seq<char>, p: Seq<char>) -> Option<(Seq<char>, Seq<char>)> {
    match find_spec(s, p) {
        Some(k) => Some((s.subrange(0, k), s.subrange(k + p.len(), s.len() as int))),
        None => None,
    }
}

pub fn split_once<'a>(s: &'a str, p: &str) -> (r: Option<(&'a str, &'a str)>)
    ensures
        r matches Some(pair) ==> split_once_spec(s@, p@) == Some((pair.0@, pair.1@)),
        r is None ==> split_once_spec(s@, p@) is None,
{
    let sv = chars_of(s);
    let pv = chars_of(p);
    match find_chars(&sv, &pv, 0) {
        Some(k) => {
            proof {
                lemma_find_from(sv@, pv@, 0);
                assert(occurs_at(sv@, pv@, k as int));
                assert(k + pv@.len() <= sv@.len());
            }
            assert(k + pv.len() <= sv.len());
            let start = k + pv.len();
            Some((s.substring_char(0, k), s.substring_char(start, sv.len())))
        },
        None => None,
    }
}

/// The last index before `j` holding `c`, or -1.
pub open spec fn rfind_char_before(s: Seq<char>, c: char, j: int) -> int
    decreases j,
{
    if j <= 0 || j > s.len() {
        -1
    } else if s[j - 1] == c {
        j - 1
    } else {
        rfind_char_before(s, c, j - 1)
    }
}

/// `s` split around the last occurrence of `c` (`str::rsplit_once`).
pub open spec fn rsplit_once_char_spec(s: Seq<char>, c: char) -> Option<(Seq<char>, Seq<char>)> {
    let k = rfind_char_before(s, c, s.len() as int);
    if k < 0 {
        None
    } else {
        Some((s.subrange(0, k), s.subrange(k + 1, s.len() as int)))
    }
}

pub proof fn lemma_rfind_char_before(s: Seq<char>, c: char, j: int)
    requires
        0 <= j <= s.len(),
    ensures
        -1 <= rfind_char_before(s, c, j) < j,
        rfind_char_before(s, c, j) >= 0 ==> s[rfind_char_before(s, c, j)] == c,
    decreases j,
{
    if j > 0 && s[j - 1] != c {
        lemma_rfind_char_before(s, c, j - 1);
    }
}

pub fn rsplit_once_char(s: &str, c: char) -> (r: Option<(&str, &str)>)
    ensures
        r matches Some(pair) ==> rsplit_once_char_spec(s@, c) == Some((pair.0@, pair.1@)),
        r is None ==> rsplit_once_char_spec(s@, c) is None,
{
    let v = chars_of(s);
    let mut j = v.len();
    while j > 0 && v[j - 1] != c
        invariant
            j <= v.len(),
            rfind_char_before(v@, c, v.len() as int) == rfind_char_before(v@, c, j as int),
        decreases j,
    {
        j = j - 1;
    }
    if j == 0 {
        None
    } else {
        Some((s.substring_char(0, j - 1), s.substring_char(j, v.len())))
    }
}


/// The first index at or after `i` holding `c`, or `s.len()`.
pub open spec fn find_char_from(s: Seq<char>, c: char, i: int) -> int
    decreases s.len() - i,
{
    if i < 0 || i >= s.len() {
        s.len() as int
    } else if s[i] == c {
        i
    } else {
        find_char_from(s, c, i + 1)
    }
}

pub proof fn lemma_find_char_from(s: Seq<char>, c: char, i: int)
    requires
        0 <= i <= s.len(),
    ensures
        i <= find_char_from(s, c, i) <= s.len(),
        find_char_from(s, c, i) < s.len() ==> s[find_char_from(s, c, i)] == c,
        forall|m: int| i <= m < find_char_from(s, c, i) ==> s[m] != c,
    decreases s.len() - i,
{
    if i < s.len() && s[i] != c {
        lemma_find_char_from(s, c, i + 1);
    }
}

/// The first index at or after `from` holding `c`, or `v.len()`.
pub fn find_char(v: &Vec<char>, c: char, from: usize) -> (r: usize)
    requires
        from <= v.len(),
    ensures
        r == find_char_from(v@, c, from as int),
        from <= r <= v.len(),
{
    let mut i = from;
    while i < v.len() && v[i] != c
        invariant
            from <= i <= v.len(),
            find_char_from(v@, c, from as int) == find_char_from(v@, c, i as int),
        decreases v.len() - i,
    {
        i = i + 1;
    }
    i
}

/// The pieces of `s` split at `c`, at most `n` of them, the last holding the rest
/// (`str::splitn`).
pub open spec fn splitn_spec(s: Seq<char>, n: nat, c: char) -> Seq<Seq<char>>
    decreases n,
{
    if n == 0 {
        seq![]
    } else if n == 1 {
        seq![s]
    } else {
        let k = find_char_from(s, c, 0);
        if k < s.len() {
            seq![s.subrange(0, k)] + splitn_spec(s.subrange(k + 1, s.len() as int), (n - 1) as nat, c)
        } else {
            seq![s]
        }
    }
}

/// Piece `i` of `parts`, or the empty text where there is none.
pub open spec fn piece(parts: Seq<Seq<char>>, i: int) -> Seq<char> {
    if 0 <= i < parts.len() {
        parts[i]
    } else {
        Seq::empty()
    }
}

pub fn splitn<'a>(s: &'a str, n: usize, c: char) -> (r: Vec<&'a str>)
    ensures
        r@.len() == splitn_spec(s@, n as nat, c).len(),
        forall|i: int| 0 <= i < r@.len() ==> #[trigger] r@[i]@ == splitn_spec(s@, n as nat, c)[i],
{
    let v = chars_of(s);
    let mut out: Vec<&'a str> = Vec::new();
    if n == 0 {
        return out;
    }
    let mut start: usize = 0;
    let mut left: usize = n;
    let ghost done: Seq<Seq<char>> = Seq::empty();
    assert(v@.subrange(0, v.len() as int) =~= s@);
    assert(done + splitn_spec(s@, n as nat, c) =~= splitn_spec(s@, n as nat, c));
    while left > 1
        invariant
            1 <= left <= n,
            start <= v.len(),
            v@ == s@,
            out@.len() == done.len(),
            forall|i: int| 0 <= i < out@.len() ==> #[trigger] out@[i]@ == done[i],
            splitn_spec(s@, n as nat, c) == done + splitn_spec(
                v@.subrange(start as int, v.len() as int),
                left as nat,
                c,
            ),
        decreases left,
    {
        let k = find_char(&v, c, start);
        let ghost rest = v@.subrange(start as int, v.len() as int);
        proof {
            lemma_find_char_from(v@, c, start as int);
            lemma_find_char_from(rest, c, 0);
            assert forall|m: int| 0 <= m < rest.len() implies rest[m] == v@[start + m] by {}
            if k < v.len() {
                assert(find_char_from(rest, c, 0) == k - start) by {
                    lemma_find_char_shift(v@, c, start as int);
                }
            } else {
                assert(find_char_from(rest, c, 0) == rest.len()) by {
                    lemma_find_char_shift(v@, c, start as int);
                }
            }
        }
        if k == v.len() {
            out.push(s.substring_char(start, v.len()));
            proof {
                done = done.push(rest);
                assert(splitn_spec(rest, left as nat, c) == seq![rest]);
                assert(splitn_spec(s@, n as nat, c) =~= done);
            }
            return out;
        }
        out.push(s.substring_char(start, k));
        proof {
            let piece0 = v@.subrange(start as int, k as int);
            assert(rest.subrange(0, k - start) =~= piece0);
            assert(rest.subrange(k - start + 1, rest.len() as int) =~= v@.subrange(
                k + 1,
                v.len() as int,
            ));
            assert(splitn_spec(rest, left as nat, c) == seq![piece0] + splitn_spec(
                v@.subrange(k + 1, v.len() as int),
                (left - 1) as nat,
                c,
            ));
            done = done.push(piece0);
            assert(splitn_spec(s@, n as nat, c) =~= done + splitn_spec(
                v@.subrange(k + 1, v.len() as int),
                (left - 1) as nat,
                c,
            ));
        }
        start = k + 1;
        left = left - 1;
    }
    out.push(s.substring_char(start, v.len()));
    proof {
        let rest = v@.subrange(start as int, v.len() as int);
        done = done.push(rest);
        assert(splitn_spec(s@, n as nat, c) =~= done);
    }
    out
}

/// Searching from `start` in `s` is searching from 0 in `s[start..]`, shifted.
pub proof fn lemma_find_char_shift(s: Seq<char>, c: char, start: int)
    requires
        0 <= start <= s.len(),
    ensures
        find_char_from(s.subrange(start, s.len() as int), c, 0) == find_char_from(s, c, start)
            - start,
{
    let rest = s.subrange(start, s.len() as int);
    lemma_find_char_from(s, c, start);
    lemma_find_char_from(rest, c, 0);
    let a = find_char_from(s, c, start);
    let b = find_char_from(rest, c, 0);
    if b < a - start {
        assert(rest[b] == s[start + b]);
    } else if b > a - start {
        assert(rest[a - start] == s[a]);
    }
}

/// The text at `parts[i]`, or the empty text where there is none (`next().unwrap_or("")`).
pub fn piece_at<'a>(parts: &Vec<&'a str>, i: usize) -> (r: &'a str)
    ensures
        r@ == (if i < parts@.len() {
            parts@[i as int]@
        } else {
            Seq::empty()
        }),
{
    if i < parts.len() {
        parts[i]
    } else {
        let e = "";
        proof {
            reveal_strlit("");
        }
        e
    }
}


/// The pieces of `s` split at every `c` (`str::split`).
pub open spec fn split_spec(s: Seq<char>, c: char) -> Seq<Seq<char>>
    decreases s.len(),
{
    let k = find_char_from(s, c, 0);
    if 0 <= k < s.len() {
        seq![s.subrange(0, k)] + split_spec(s.subrange(k + 1, s.len() as int), c)
    } else {
        seq![s]
    }
}

pub fn split_char<'a>(s: &'a str, c: char) -> (r: Vec<&'a str>)
    ensures
        r@.len() == split_spec(s@, c).len(),
        forall|i: int| 0 <= i < r@.len() ==> #[trigger] r@[i]@ == split_spec(s@, c)[i],
{
    let v = chars_of(s);
    let mut out: Vec<&'a str> = Vec::new();
    let mut start: usize = 0;
    let ghost done: Seq<Seq<char>> = Seq::empty();
    assert(v@.subrange(0, v.len() as int) =~= s@);
    assert(done + split_spec(s@, c) =~= split_spec(s@, c));
    loop
        invariant
            start <= v.len(),
            v@ == s@,
            out@.len() == done.len(),
            forall|i: int| 0 <= i < out@.len() ==> #[trigger] out@[i]@ == done[i],
            split_spec(s@, c) == done + split_spec(v@.subrange(start as int, v.len() as int), c),
        decreases v.len() - start,
    {
        let k = find_char(&v, c, start);
        let ghost rest = v@.subrange(start as int, v.len() as int);
        proof {
            lemma_find_char_shift(v@, c, start as int);
        }
        if k == v.len() {
            out.push(s.substring_char(start, v.len()));
            proof {
                done = done.push(rest);
                assert(split_spec(s@, c) =~= done);
            }
            return out;
        }
        out.push(s.substring_char(start, k));
        proof {
            let piece0 = v@.subrange(start as int, k as int);
            assert(rest.subrange(0, k - start) =~= piece0);
            assert(rest.subrange(k - start + 1, rest.len() as int) =~= v@.subrange(
                k + 1,
                v.len() as int,
            ));
            done = done.push(piece0);
            assert(split_spec(s@, c) =~= done + split_spec(v@.subrange(k + 1, v.len() as int), c));
        }
        start = k + 1;
    }
}

/// Number of leading characters of `s` that are not whitespace.
pub open spec fn word_len(s: Seq<char>) -> nat
    decreases s.len(),
{
    if s.len() == 0 || is_ws(s[0]) {
        0
    } else {
        1 + word_len(s.drop_first())
    }
}

/// The maximal runs of non-whitespace characters of `s` (`str::split_whitespace`).
pub open spec fn words(s: Seq<char>) -> Seq<Seq<char>>
    decreases s.len(),
{
    if s.len() == 0 {
        seq![]
    } else if is_ws(s[0]) {
        words(s.drop_first())
    } else {
        let w = word_len(s);
        if 0 < w <= s.len() {
            seq![s.subrange(0, w as int)] + words(s.subrange(w as int, s.len() as int))
        } else {
            seq![]
        }
    }
}

/// The pieces joined with `sep` between them (`[_]::join`).
pub open spec fn join(parts: Seq<Seq<char>>, sep: Seq<char>) -> Seq<char>
    decreases parts.len(),
{
    if parts.len() == 0 {
        seq![]
    } else if parts.len() == 1 {
        parts[0]
    } else {
        join(parts.drop_last(), sep) + sep + parts.last()
    }
}

pub proof fn lemma_word_len(s: Seq<char>)
    ensures
        word_len(s) <= s.len(),
        forall|m: int| 0 <= m < word_len(s) ==> !is_ws(#[trigger] s[m]),
        word_len(s) < s.len() ==> is_ws(s[word_len(s) as int]),
    decreases s.len(),
{
    if s.len() > 0 && !is_ws(s[0]) {
        lemma_word_len(s.drop_first());
        assert forall|m: int| 0 <= m < word_len(s) implies !is_ws(#[trigger] s[m]) by {
            if m > 0 {
                assert(s[m] == s.drop_first()[m - 1]);
            }
        }
    }
}

/// The words of `s` joined by `sep` (`split_whitespace().collect::<Vec<_>>().join(sep)`).
pub fn join_words(s: &str, sep: &str) -> (r: String)
    ensures
        r@ == join(words(s@), sep@),
{
    let v = chars_of(s);
    let mut out = String::new();
    let mut i: usize = 0;
    let mut any = false;
    let ghost done: Seq<Seq<char>> = Seq::empty();
    assert(v@.subrange(0, v.len() as int) =~= s@);
    assert(done + words(s@) =~= words(s@));
    while i < v.len()
        invariant
            i <= v.len(),
            v@ == s@,
            any == (done.len() > 0),
            words(s@) == done + words(v@.subrange(i as int, v.len() as int)),
            out@ == join(done, sep@),
        decreases v.len() - i,
    {
        let ghost rest = v@.subrange(i as int, v.len() as int);
        if is_whitespace(v[i]) {
            proof {
                assert(rest.drop_first() =~= v@.subrange(i + 1, v.len() as int));
            }
            i = i + 1;
        } else {
            let mut j = i;
            while j < v.len() && !is_whitespace(v[j])
                invariant
                    i <= j <= v.len(),
                    forall|m: int| i <= m < j ==> !is_ws(#[trigger] v@[m]),
                decreases v.len() - j,
            {
                j = j + 1;
            }
            proof {
                lemma_word_len(rest);
                let w = word_len(rest);
                assert(w == j - i) by {
                    if w < j - i {
                        assert(rest[w as int] == v@[i + w]);
                    } else if w > j - i {
                        assert(rest[j - i] == v@[j as int]);
                    }
                }
                assert(rest.subrange(0, w as int) =~= v@.subrange(i as int, j as int));
                assert(rest.subrange(w as int, rest.len() as int) =~= v@.subrange(
                    j as int,
                    v.len() as int,
                ));
            }
            let word = s.substring_char(i, j);
            if any {
                out.append(sep);
            }
            out.append(word);
            any = true;
            proof {
                let old_done = done;
                done = done.push(v@.subrange(i as int, j as int));
                assert(done.drop_last() =~= old_done);
                assert(words(s@) =~= done + words(v@.subrange(j as int, v.len() as int)));
            }
            i = j;
        }
    }
    proof {
        assert(v@.subrange(i as int, v.len() as int) =~= Seq::<char>::empty());
        assert(words(s@) =~= done);
    }
    out
}

/// Whether two texts are equal once ASCII letters are lower-cased
/// (`str::eq_ignore_ascii_case`).
pub open spec fn eq_ignore_ascii_case_spec(a: Seq<char>, b: Seq<char>) -> bool {
    ascii_lower_seq(a) == ascii_lower_seq(b)
}

pub fn eq_ignore_ascii_case(a: &str, b: &str) -> (r: bool)
    ensures
        r == eq_ignore_ascii_case_spec(a@, b@),
{
    let av = chars_of(a);
    let bv = chars_of(b);
    if av.len() != bv.len() {
        assert(ascii_lower_seq(a@).len() != ascii_lower_seq(b@).len());
        return false;
    }
    let mut i: usize = 0;
    while i < av.len()
        invariant
            i <= av.len(),
            av.len() == bv.len(),
            av@ == a@,
            bv@ == b@,
            forall|m: int| 0 <= m < i ==> ascii_lower(av@[m]) == ascii_lower(bv@[m]),
        decreases av.len() - i,
    {
        if to_ascii_lower_char(av[i]) != to_ascii_lower_char(bv[i]) {
            assert(ascii_lower_seq(a@)[i as int] != ascii_lower_seq(b@)[i as int]);
            return false;
        }
        i = i + 1;
    }
    assert(ascii_lower_seq(a@) =~= ascii_lower_seq(b@));
    true
}


/// The value of a run of ASCII digits.
pub open spec fn digits_value(s: Seq<char>) -> int
    decreases s.len(),
{
    if s.len() == 0 {
        0
    } else {
        digits_value(s.drop_last()) * 10 + (s.last() as int - '0' as int)
    }
}

pub open spec fn all_digits(s: Seq<char>) -> bool {
    forall|i: int| 0 <= i < s.len() ==> is_ascii_digit_spec(#[trigger] s[i])
}

/// The integer a decimal text denotes, with an optional sign, where it fits in `i64`
/// (`str::parse::<i64>`).
pub open spec fn parse_i64_spec(s: Seq<char>) -> Option<i64> {
    let neg = s.len() > 0 && s[0] == '-';
    let ds = if s.len() > 0 && (s[0] == '-' || s[0] == '+') {
        s.drop_first()
    } else {
        s
    };
    if ds.len() == 0 || !all_digits(ds) {
        None
    } else {
        let v = if neg {
            -digits_value(ds)
        } else {
            digits_value(ds)
        };
        if i64::MIN <= v <= i64::MAX {
            Some(v as i64)
        } else {
            None
        }
    }
}

proof fn lemma_digits_value_nonneg(s: Seq<char>)
    requires
        all_digits(s),
    ensures
        digits_value(s) >= 0,
    decreases s.len(),
{
    if s.len() > 0 {
        assert(is_ascii_digit_spec(s[s.len() - 1]));
        assert(all_digits(s.drop_last()));
        lemma_digits_value_nonneg(s.drop_last());
    }
}

proof fn lemma_digits_value_grows(s: Seq<char>, k: int)
    requires
        all_digits(s),
        0 <= k <= s.len(),
    ensures
        digits_value(s.take(k)) <= digits_value(s),
    decreases s.len() - k,
{
    if k < s.len() {
        lemma_digits_value_grows(s, k + 1);
        assert(s.take(k + 1).drop_last() =~= s.take(k));
        assert(all_digits(s.take(k + 1)));
        lemma_digits_value_nonneg(s.take(k));
        assert(is_ascii_digit_spec(s[k]));
        assert(digits_value(s.take(k)) <= digits_value(s.take(k)) * 10) by (nonlinear_arith)
            requires
                digits_value(s.take(k)) >= 0,
        ;
    } else {
        assert(s.take(k) =~= s);
    }
}

pub fn parse_i64(s: &str) -> (r: Option<i64>)
    ensures
        r == parse_i64_spec(s@),
{
    let v = chars_of(s);
    let mut start: usize = 0;
    let mut neg = false;
    if v.len() > 0 && (v[0] == '-' || v[0] == '+') {
        neg = v[0] == '-';
        start = 1;
    }
    let ghost ds = if s@.len() > 0 && (s@[0] == '-' || s@[0] == '+') {
        s@.drop_first()
    } else {
        s@
    };
    assert(ds =~= v@.subrange(start as int, v.len() as int));
    if start == v.len() {
        return None;
    }
    let mut acc: i128 = 0;
    let mut i = start;
    assert(ds.take(0) =~= Seq::<char>::empty());
    while i < v.len()
        invariant
            start <= i <= v.len(),
            v@ == s@,
            ds == v@.subrange(start as int, v.len() as int),
            ds == (if s@.len() > 0 && (s@[0] == '-' || s@[0] == '+') {
                s@.drop_first()
            } else {
                s@
            }),
            neg == (s@.len() > 0 && s@[0] == '-'),
            forall|m: int| 0 <= m < i - start ==> is_ascii_digit_spec(#[trigger] ds[m]),
            acc == digits_value(ds.take(i - start)),
            0 <= acc <= 9223372036854775808i128,
        decreases v.len() - i,
    {
        let c = v[i];
        assert(c == ds[i - start]);
        if !is_ascii_digit(c) {
            assert(!is_ascii_digit_spec(ds[i - start]));
            assert(!all_digits(ds));
            return None;
        }
        let d = (c as u32 - '0' as u32) as i128;
        let ghost pre = ds.take(i - start);
        let ghost cur = ds.take(i - start + 1);
        proof {
            assert(cur.drop_last() =~= pre);
            assert(cur.last() == c);
            assert(digits_value(cur) == acc * 10 + d);
        }
        if acc > 922337203685477580 || acc * 10 + d > 9223372036854775808i128 {
            proof {
                if all_digits(ds) {
                    lemma_digits_value_grows(ds, i - start + 1);
                    assert(acc * 10 + d > 9223372036854775808i128) by (nonlinear_arith)
                        requires
                            acc > 922337203685477580 || acc * 10 + d > 9223372036854775808i128,
                            d >= 0,
                    ;
                    assert(digits_value(ds) > 9223372036854775808i128);
                    lemma_digits_value_nonneg(ds);
                }
                assert(parse_i64_spec(s@) is None);
            }
            return None;
        }
        acc = acc * 10 + d;
        i = i + 1;
    }
    proof {
        assert(ds.take(ds.len() as int) =~= ds);
        assert(all_digits(ds));
    }
    if neg {
        Some((0 - acc) as i64)
    } else if acc > 9223372036854775807i128 {
        None
    } else {
        Some(acc as i64)
    }
}


/// A line without its trailing carriage return.
pub open spec fn strip_cr(l: Seq<char>) -> Seq<char> {
    if l.len() > 0 && l.last() == '\r' {
        l.drop_last()
    } else {
        l
    }
}

/// The lines of `s`: split at newlines, without a last empty piece, each without a
/// trailing carriage return (`str::lines`).
pub open spec fn lines_spec(s: Seq<char>) -> Seq<Seq<char>> {
    let parts = split_spec(s, '\n');
    let kept = if parts.len() > 0 && parts.last().len() == 0 {
        parts.drop_last()
    } else {
        parts
    };
    kept.map_values(|l: Seq<char>| strip_cr(l))
}

pub proof fn lemma_split_nonempty(s: Seq<char>, c: char)
    ensures
        split_spec(s, c).len() > 0,
    decreases s.len(),
{
    let k = find_char_from(s, c, 0);
    if 0 <= k < s.len() {
        lemma_split_nonempty(s.subrange(k + 1, s.len() as int), c);
    }
}

pub fn lines<'a>(s: &'a str) -> (r: Vec<&'a str>)
    ensures
        r@.len() == lines_spec(s@).len(),
        forall|i: int| 0 <= i < r@.len() ==> #[trigger] r@[i]@ == lines_spec(s@)[i],
{
    let parts = split_char(s, '\n');
    proof {
        lemma_split_nonempty(s@, '\n');
    }
    let ghost sp = split_spec(s@, '\n');
    let mut n = parts.len();
    if n > 0 && parts[n - 1].is_empty() {
        n = n - 1;
    }
    let ghost kept = if sp.len() > 0 && sp.last().len() == 0 {
        sp.drop_last()
    } else {
        sp
    };
    assert(kept.len() == n);
    let mut out: Vec<&'a str> = Vec::new();
    let mut i: usize = 0;
    while i < n
        invariant
            i <= n,
            n == kept.len(),
            n <= parts@.len(),
            kept == (if sp.len() > 0 && sp.last().len() == 0 {
                sp.drop_last()
            } else {
                sp
            }),
            sp == split_spec(s@, '\n'),
            parts@.len() == sp.len(),
            forall|k: int| 0 <= k < parts@.len() ==> #[trigger] parts@[k]@ == sp[k],
            out@.len() == i,
            forall|k: int| 0 <= k < i ==> #[trigger] out@[k]@ == strip_cr(kept[k]),
        decreases n - i,
    {
        let l = parts[i];
        assert(l@ == kept[i as int]);
        let len = l.unicode_len();
        let piece = if len > 0 && l.get_char(len - 1) == '\r' {
            l.substring_char(0, len - 1)
        } else {
            l
        };
        assert(piece@ == strip_cr(kept[i as int])) by {
            if len > 0 && l@[len - 1] == '\r' {
                assert(l@.subrange(0, len - 1) =~= l@.drop_last());
            }
        }
        out.push(piece);
        i = i + 1;
    }
    out
}

/// Whether `c` is alphabetic or numeric in the Unicode sense (`char::is_alphanumeric`).
pub uninterp spec fn unicode_alphanumeric(c: char) -> bool;

/// Calls `char::is_alphanumeric`, which tests the Unicode `Alphabetic` and numeric
/// properties; for an ASCII character these hold exactly of letters and digits. Of other
/// characters the contract says only that the answer is `unicode_alphanumeric(c)`.
#[verifier::external_body]
pub(crate) fn char_is_alphanumeric(c: char) -> (b: bool)
    ensures
        b == unicode_alphanumeric(c),
        (c as u32) < 128 ==> (b == is_ascii_alnum_spec(c)),
{
    c.is_alphanumeric()
}


/// `base` with the relative or absolute path `p` joined on, as `Path::join` does on Unix:
/// an absolute `p` replaces `base`, and a separator is put between them where `base` is
/// not empty and does not already end with one.
pub open spec fn path_join_spec(base: Seq<char>, p: Seq<char>) -> Seq<char> {
    if p.len() > 0 && p[0] == '/' {
        p
    } else if base.len() == 0 {
        p
    } else if base.last() == '/' {
        base + p
    } else {
        base + seq!['/'] + p
    }
}

pub fn path_join(base: &str, p: &str) -> (r: String)
    ensures
        r@ == path_join_spec(base@, p@),
{
    let bv = chars_of(base);
    let pv = chars_of(p);
    if pv.len() > 0 && pv[0] == '/' {
        return owned(p);
    }
    if bv.len() == 0 {
        return owned(p);
    }
    let mut r = owned(base);
    if bv[bv.len() - 1] != '/' {
        push_char(&mut r, '/');
    }
    r.append(p);
    r
}

/// Strict lexicographic order of texts by code point, which is the order of their UTF-8
/// bytes and so the order of `String`.
pub open spec fn text_lt(a: Seq<char>, b: Seq<char>) -> bool
    decreases a.len(),
{
    if a.len() == 0 {
        b.len() > 0
    } else if b.len() == 0 {
        false
    } else if a[0] != b[0] {
        a[0] < b[0]
    } else {
        text_lt(a.drop_first(), b.drop_first())
    }
}

pub proof fn lemma_text_lt_irreflexive(a: Seq<char>)
    ensures
        !text_lt(a, a),
    decreases a.len(),
{
    if a.len() > 0 {
        lemma_text_lt_irreflexive(a.drop_first());
    }
}

pub proof fn lemma_text_lt_total(a: Seq<char>, b: Seq<char>)
    ensures
        a == b || text_lt(a, b) || text_lt(b, a),
        !(text_lt(a, b) && text_lt(b, a)),
    decreases a.len(),
{
    if a.len() > 0 && b.len() > 0 {
        lemma_text_lt_total(a.drop_first(), b.drop_first());
        if a[0] == b[0] && a.drop_first() == b.drop_first() {
            assert(a =~= seq![a[0]] + a.drop_first());
            assert(b =~= seq![b[0]] + b.drop_first());
        }
    } else if a.len() == 0 && b.len() == 0 {
        assert(a =~= b);
    }
}

pub proof fn lemma_text_lt_transitive(a: Seq<char>, b: Seq<char>, c: Seq<char>)
    requires
        text_lt(a, b),
        text_lt(b, c),
    ensures
        text_lt(a, c),
    decreases a.len(),
{
    if a.len() > 0 && b.len() > 0 && c.len() > 0 {
        if a[0] == b[0] && b[0] == c[0] {
            lemma_text_lt_transitive(a.drop_first(), b.drop_first(), c.drop_first());
        }
    }
}

pub fn text_less(a: &str, b: &str) -> (r: bool)
    ensures
        r == text_lt(a@, b@),
{
    let av = chars_of(a);
    let bv = chars_of(b);
    let mut i: usize = 0;
    assert(av@.subrange(0, av.len() as int) =~= a@);
    assert(bv@.subrange(0, bv.len() as int) =~= b@);
    while i < av.len() && i < bv.len() && av[i] == bv[i]
        invariant
            i <= av.len(),
            i <= bv.len(),
            av@ == a@,
            bv@ == b@,
            text_lt(a@, b@) == text_lt(av@.subrange(i as int, av.len() as int), bv@.subrange(
                i as int,
                bv.len() as int,
            )),
        decreases av.len() - i,
    {
        assert(av@.subrange(i as int, av.len() as int).drop_first() =~= av@.subrange(
            i + 1,
            av.len() as int,
        ));
        assert(bv@.subrange(i as int, bv.len() as int).drop_first() =~= bv@.subrange(
            i + 1,
            bv.len() as int,
        ));
        i = i + 1;
    }
    if i == av.len() {
        i < bv.len()
    } else if i == bv.len() {
        false
    } else {
        av[i] < bv[i]
    }
}


/// `s` with ASCII letters lower-cased (`str::to_ascii_lowercase`).
pub fn to_ascii_lowercase(s: &str) -> (r: String)
    ensures
        r@ == ascii_lower_seq(s@),
{
    let v = chars_of(s);
    let mut out = String::new();
    let mut i: usize = 0;
    while i < v.len()
        invariant
            i <= v.len(),
            v@ == s@,
            out@ == ascii_lower_seq(v@.take(i as int)),
        decreases v.len() - i,
    {
        push_char(&mut out, to_ascii_lower_char(v[i]));
        proof {
            assert(ascii_lower_seq(v@.take(i + 1)) =~= ascii_lower_seq(v@.take(i as int)).push(
                ascii_lower(v@[i as int]),
            ));
        }
        i = i + 1;
    }
    assert(v@.take(v.len() as int) =~= v@);
    out
}

/// `s` with ASCII letters upper-cased (`str::to_ascii_uppercase`).
pub fn to_ascii_uppercase(s: &str) -> (r: String)
    ensures
        r@ == ascii_upper_seq(s@),
{
    let v = chars_of(s);
    let mut out = String::new();
    let mut i: usize = 0;
    while i < v.len()
        invariant
            i <= v.len(),
            v@ == s@,
            out@ == ascii_upper_seq(v@.take(i as int)),
        decreases v.len() - i,
    {
        push_char(&mut out, to_ascii_upper_char(v[i]));
        proof {
            assert(ascii_upper_seq(v@.take(i + 1)) =~= ascii_upper_seq(v@.take(i as int)).push(
                ascii_upper(v@[i as int]),
            ));
        }
        i = i + 1;
    }
    assert(v@.take(v.len() as int) =~= v@);
    out
}

/// `s` without leading `c`s.
pub open spec fn trim_start_char_spec(s: Seq<char>, c: char) -> Seq<char>
    decreases s.len(),
{
    if s.len() > 0 && s[0] == c {
        trim_start_char_spec(s.drop_first(), c)
    } else {
        s
    }
}

/// `s` without trailing `c`s.
pub open spec fn trim_end_char_spec(s: Seq<char>, c: char) -> Seq<char>
    decreases s.len(),
{
    if s.len() > 0 && s.last() == c {
        trim_end_char_spec(s.drop_last(), c)
    } else {
        s
    }
}

/// `s` without `c`s at either end (`str::trim_matches(c)`).
pub open spec fn trim_matches_spec(s: Seq<char>, c: char) -> Seq<char> {
    trim_end_char_spec(trim_start_char_spec(s, c), c)
}

pub fn trim_matches<'a>(s: &'a str, c: char) -> (r: &'a str)
    ensures
        r@ == trim_matches_spec(s@, c),
{
    let v = chars_of(s);
    let mut i: usize = 0;
    assert(v@.subrange(0, v.len() as int) =~= v@);
    while i < v.len() && v[i] == c
        invariant
            i <= v.len(),
            v@ == s@,
            trim_start_char_spec(s@, c) == trim_start_char_spec(
                v@.subrange(i as int, v.len() as int),
                c,
            ),
        decreases v.len() - i,
    {
        assert(v@.subrange(i as int, v.len() as int).drop_first() =~= v@.subrange(
            i + 1,
            v.len() as int,
        ));
        i = i + 1;
    }
    let mut j = v.len();
    assert(trim_start_char_spec(s@, c) == v@.subrange(i as int, j as int));
    while j > i && v[j - 1] == c
        invariant
            i <= j <= v.len(),
            v@ == s@,
            trim_end_char_spec(trim_start_char_spec(s@, c), c) == trim_end_char_spec(
                v@.subrange(i as int, j as int),
                c,
            ),
        decreases j,
    {
        assert(v@.subrange(i as int, j as int).drop_last() =~= v@.subrange(i as int, j - 1));
        j = j - 1;
    }
    s.substring_char(i, j)
}

/// The number of characters of `s` (`str::chars().count()`).
pub fn char_count(s: &str) -> (n: usize)
    ensures
        n == s@.len(),
{
    s.unicode_len()
}

/// The words of `s` (`str::split_whitespace`), borrowed from it.
pub fn split_words<'a>(s: &'a str) -> (r: Vec<&'a str>)
    ensures
        r@.map_values(|w: &str| w@) == words(s@),
{
    let v = chars_of(s);
    let mut out: Vec<&'a str> = Vec::new();
    let mut i: usize = 0;
    let ghost done: Seq<Seq<char>> = Seq::empty();
    assert(v@.subrange(0, v.len() as int) =~= s@);
    assert(done + words(s@) =~= words(s@));
    assert(out@.map_values(|w: &str| w@) =~= done);
    while i < v.len()
        invariant
            i <= v.len(),
            v@ == s@,
            words(s@) == done + words(v@.subrange(i as int, v.len() as int)),
            out@.map_values(|w: &str| w@) == done,
        decreases v.len() - i,
    {
        let ghost rest = v@.subrange(i as int, v.len() as int);
        if is_whitespace(v[i]) {
            proof {
                assert(rest.drop_first() =~= v@.subrange(i + 1, v.len() as int));
            }
            i = i + 1;
        } else {
            let mut j = i;
            while j < v.len() && !is_whitespace(v[j])
                invariant
                    i <= j <= v.len(),
                    forall|m: int| i <= m < j ==> !is_ws(#[trigger] v@[m]),
                decreases v.len() - j,
            {
                j = j + 1;
            }
            proof {
                lemma_word_len(rest);
                let w = word_len(rest);
                assert(w == j - i) by {
                    if w < j - i {
                        assert(rest[w as int] == v@[i + w]);
                    } else if w > j - i {
                        assert(rest[j - i] == v@[j as int]);
                    }
                }
                assert(rest.subrange(0, w as int) =~= v@.subrange(i as int, j as int));
                assert(rest.subrange(w as int, rest.len() as int) =~= v@.subrange(
                    j as int,
                    v.len() as int,
                ));
            }
            let word = s.substring_char(i, j);
            out.push(word);
            proof {
                let old_done = done;
                done = done.push(v@.subrange(i as int, j as int));
                assert(out@.map_values(|w: &str| w@) =~= done);
                assert(words(s@) =~= done + words(v@.subrange(j as int, v.len() as int)));
            }
            i = j;
        }
    }
    proof {
        assert(v@.subrange(i as int, v.len() as int) =~= Seq::<char>::empty());
        assert(words(s@) =~= done);
    }
    out
}

/// The decimal digit character for `d` (below ten).
pub open spec fn digit_char_spec(d: nat) -> char {
    if d == 0 {
        '0'
    } else if d == 1 {
        '1'
    } else if d == 2 {
        '2'
    } else if d == 3 {
        '3'
    } else if d == 4 {
        '4'
    } else if d == 5 {
        '5'
    } else if d == 6 {
        '6'
    } else if d == 7 {
        '7'
    } else if d == 8 {
        '8'
    } else {
        '9'
    }
}

/// The decimal text of `n`, without leading zeros (`u64`'s `Display`).
pub open spec fn decimal_spec(n: nat) -> Seq<char>
    decreases n,
{
    if n < 10 {
        seq![digit_char_spec(n)]
    } else {
        decimal_spec(n / 10).push(digit_char_spec(n % 10))
    }
}

fn digit_char(d: u64) -> (c: char)
    requires
        d < 10,
    ensures
        c == digit_char_spec(d as nat),
{
    if d == 0 {
        '0'
    } else if d == 1 {
        '1'
    } else if d == 2 {
        '2'
    } else if d == 3 {
        '3'
    } else if d == 4 {
        '4'
    } else if d == 5 {
        '5'
    } else if d == 6 {
        '6'
    } else if d == 7 {
        '7'
    } else if d == 8 {
        '8'
    } else {
        '9'
    }
}

/// Appends the decimal text of `n`.
pub fn push_decimal(s: &mut String, n: u64)
    ensures
        final(s)@ == old(s)@ + decimal_spec(n as nat),
    decreases n,
{
    if n >= 10 {
        push_decimal(s, n / 10);
    }
    push_char(s, digit_char(n % 10));
    assert(s@ =~= old(s)@ + decimal_spec(n as nat)) by {
        if n >= 10 {
            assert(decimal_spec(n as nat) == decimal_spec((n / 10) as nat).push(
                digit_char_spec((n % 10) as nat),
            ));
        }
    }
}

} // verus!
