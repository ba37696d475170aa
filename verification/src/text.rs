//! Character-level text helpers shared by tags, search and note listing.
//!
//! Strings are reasoned about as sequences of Unicode scalar values
//! (`Seq<char>`), which is how `str` and `String` are viewed.
use vstd::prelude::*;
use vstd::utf8::is_ascii_chars;

verus! {

broadcast use vstd::string::group_string_axioms;

// ---------------------------------------------------------------------------
// Characters
// ---------------------------------------------------------------------------

/// The Unicode `White_Space` property, which `char::is_whitespace` tests.
pub open spec fn is_ws(c: char) -> bool {
    ||| ('\t' <= c && c <= '\r')
    ||| c == ' '
    ||| c == '\u{85}'
    ||| c == '\u{a0}'
    ||| c == '\u{1680}'
    ||| ('\u{2000}' <= c && c <= '\u{200a}')
    ||| c == '\u{2028}'
    ||| c == '\u{2029}'
    ||| c == '\u{202f}'
    ||| c == '\u{205f}'
    ||| c == '\u{3000}'
}

pub fn is_whitespace(c: char) -> (b: bool)
    ensures
        b == is_ws(c),
{
    ('\t' <= c && c <= '\r') || c == ' ' || c == '\u{85}' || c == '\u{a0}' || c == '\u{1680}' || (
    '\u{2000}' <= c && c <= '\u{200a}') || c == '\u{2028}' || c == '\u{2029}' || c == '\u{202f}'
        || c == '\u{205f}' || c == '\u{3000}'
}

/// ASCII lower-casing of one character (`char::to_ascii_lowercase`).
pub open spec fn ascii_lower_char(c: char) -> char {
    if 'A' <= c && c <= 'Z' {
        ((c as u32) + 32) as char
    } else {
        c
    }
}

pub fn to_ascii_lower_char(c: char) -> (r: char)
    ensures
        r == ascii_lower_char(c),
{
    if 'A' <= c && c <= 'Z' {
        let n: u32 = (c as u32) + 32;
        let b: u8 = n as u8;
        b as char
    } else {
        c
    }
}

pub open spec fn ascii_lower(s: Seq<char>) -> Seq<char> {
    s.map_values(|c: char| ascii_lower_char(c))
}

/// What `str::to_lowercase` returns: full Unicode lower-casing of a string.
pub uninterp spec fn unicode_lowercase(s: Seq<char>) -> Seq<char>;

/// Full Unicode lower-casing (`str::to_lowercase`).
#[verifier::external_body]
pub(crate) fn to_lowercase(s: &str) -> (r: String)
    ensures
        r@ == unicode_lowercase(s@),
{
    s.to_lowercase()
}

/// Number of bytes of the UTF-8 encoding of a character (`char::len_utf8`).
pub open spec fn char_utf8_len(c: char) -> nat {
    if (c as u32) < 0x80 {
        1
    } else if (c as u32) < 0x800 {
        2
    } else if (c as u32) < 0x10000 {
        3
    } else {
        4
    }
}

/// Number of UTF-16 code units of a character (`char::len_utf16`).
pub open spec fn char_utf16_len(c: char) -> nat {
    if (c as u32) < 0x10000 {
        1
    } else {
        2
    }
}

pub fn len_utf8(c: char) -> (n: usize)
    ensures
        n == char_utf8_len(c),
{
    let v: u32 = c as u32;
    if v < 0x80 {
        1
    } else if v < 0x800 {
        2
    } else if v < 0x10000 {
        3
    } else {
        4
    }
}

pub fn len_utf16(c: char) -> (n: usize)
    ensures
        n == char_utf16_len(c),
{
    let v: u32 = c as u32;
    if v < 0x10000 {
        1
    } else {
        2
    }
}

/// Length in bytes of the UTF-8 encoding of a character sequence.
pub open spec fn utf8_len(s: Seq<char>) -> nat
    decreases s.len(),
{
    if s.len() == 0 {
        0
    } else {
        utf8_len(s.drop_last()) + char_utf8_len(s.last())
    }
}

/// Length in UTF-16 code units of a character sequence.
pub open spec fn utf16_len(s: Seq<char>) -> nat
    decreases s.len(),
{
    if s.len() == 0 {
        0
    } else {
        utf16_len(s.drop_last()) + char_utf16_len(s.last())
    }
}

pub proof fn lemma_utf8_len_mono(s: Seq<char>, i: int, j: int)
    requires
        0 <= i <= j <= s.len(),
    ensures
        utf8_len(s.take(i)) <= utf8_len(s.take(j)),
        i < j ==> utf8_len(s.take(i)) < utf8_len(s.take(j)),
    decreases j - i,
{
    if i < j {
        lemma_utf8_len_mono(s, i, j - 1);
        assert(s.take(j).drop_last() =~= s.take(j - 1));
    }
}

pub proof fn lemma_utf16_len_mono(s: Seq<char>, i: int, j: int)
    requires
        0 <= i <= j <= s.len(),
    ensures
        utf16_len(s.take(i)) <= utf16_len(s.take(j)),
        i < j ==> utf16_len(s.take(i)) < utf16_len(s.take(j)),
    decreases j - i,
{
    if i < j {
        lemma_utf16_len_mono(s, i, j - 1);
        assert(s.take(j).drop_last() =~= s.take(j - 1));
    }
}

pub proof fn lemma_utf8_len_bound(s: Seq<char>)
    ensures
        utf8_len(s) <= 4 * s.len(),
    decreases s.len(),
{
    if s.len() > 0 {
        lemma_utf8_len_bound(s.drop_last());
    }
}

pub proof fn lemma_utf8_len_prepend(c: char, s: Seq<char>)
    ensures
        utf8_len(seq![c] + s) == char_utf8_len(c) + utf8_len(s),
    decreases s.len(),
{
    let t = seq![c] + s;
    if s.len() > 0 {
        lemma_utf8_len_prepend(c, s.drop_last());
        assert(t.drop_last() =~= seq![c] + s.drop_last());
        assert(t.last() == s.last());
        assert(utf8_len(t) == utf8_len(t.drop_last()) + char_utf8_len(t.last()));
    } else {
        assert(t.drop_last() =~= Seq::<char>::empty());
        assert(t.last() == c);
        assert(utf8_len(t) == utf8_len(t.drop_last()) + char_utf8_len(t.last()));
    }
}

/// The UTF-8 encoding of a character sequence has `utf8_len` bytes, so a
/// string's `len()` is the `utf8_len` of its characters.
pub proof fn lemma_encode_utf8_len(s: Seq<char>)
    ensures
        vstd::utf8::encode_utf8(s).len() == utf8_len(s),
    decreases s.len(),
{
    if s.len() > 0 {
        lemma_encode_utf8_len(s.drop_first());
        assert(s =~= seq![s[0]] + s.drop_first());
        lemma_utf8_len_prepend(s[0], s.drop_first());
        let v = s[0] as u32;
        vstd::utf8::char_is_scalar(s[0]);
        assert(vstd::utf8::encode_scalar(v).len() == char_utf8_len(s[0]));
    }
}

// ---------------------------------------------------------------------------
// Strings from and to characters
// ---------------------------------------------------------------------------

/// Appends one character to a string (`String::push`).
#[verifier::external_body]
pub(crate) fn push_char(s: &mut String, c: char)
    ensures
        final(s)@ == old(s)@.push(c),
{
    s.push(c);
}

/// The characters of a string slice, in order.
pub fn chars_of(s: &str) -> (v: Vec<char>)
    ensures
        v@ == s@,
{
    let mut v: Vec<char> = Vec::new();
    for c in it: s.chars()
        invariant
            v@ == it.seq().take(it.index() as int),
            it.seq() == s@,
    {
        v.push(c);
    }
    v
}

/// A string holding the characters `v[lo..hi]`.
pub fn string_of(v: &Vec<char>, lo: usize, hi: usize) -> (r: String)
    requires
        lo <= hi <= v.len(),
    ensures
        r@ == v@.subrange(lo as int, hi as int),
{
    let mut r = String::new();
    let mut i = lo;
    while i < hi
        invariant
            lo <= i <= hi <= v.len(),
            r@ == v@.subrange(lo as int, i as int),
        decreases hi - i,
    {
        push_char(&mut r, v[i]);
        i += 1;
        assert(r@ =~= v@.subrange(lo as int, i as int));
    }
    r
}

/// Appends the characters `v[lo..hi]` to a string.
pub fn push_range(r: &mut String, v: &Vec<char>, lo: usize, hi: usize)
    requires
        lo <= hi <= v.len(),
    ensures
        final(r)@ == old(r)@ + v@.subrange(lo as int, hi as int),
{
    let mut i = lo;
    while i < hi
        invariant
            lo <= i <= hi <= v.len(),
            r@ == old(r)@ + v@.subrange(lo as int, i as int),
        decreases hi - i,
    {
        push_char(r, v[i]);
        i += 1;
        assert(r@ =~= old(r)@ + v@.subrange(lo as int, i as int));
    }
}

/// A string made of the given characters.
pub fn string_from(v: &Vec<char>) -> (r: String)
    ensures
        r@ == v@,
{
    let r = string_of(v, 0, v.len());
    assert(v@.subrange(0, v.len() as int) =~= v@);
    r
}

/// Whether two character sequences are equal.
pub fn chars_equal(a: &Vec<char>, b: &Vec<char>) -> (r: bool)
    ensures
        r == (a@ == b@),
{
    if a.len() != b.len() {
        return false;
    }
    let mut i: usize = 0;
    while i < a.len()
        invariant
            a.len() == b.len(),
            i <= a.len(),
            forall|k: int| 0 <= k < i ==> a@[k] == b@[k],
        decreases a.len() - i,
    {
        if a[i] != b[i] {
            return false;
        }
        i += 1;
    }
    assert(a@ =~= b@);
    true
}

/// Whether two string slices hold the same characters.
pub fn str_equal(a: &str, b: &str) -> (r: bool)
    ensures
        r == (a@ == b@),
{
    let av = chars_of(a);
    let bv = chars_of(b);
    chars_equal(&av, &bv)
}

/// A copy of a string slice as an owned string.
pub fn to_owned_string(s: &str) -> (r: String)
    ensures
        r@ == s@,
{
    String::from_str(s)
}

// ---------------------------------------------------------------------------
// Case folding
// ---------------------------------------------------------------------------

pub fn ascii_lowercase_chars(v: &Vec<char>) -> (r: Vec<char>)
    ensures
        r@ == ascii_lower(v@),
{
    let mut r: Vec<char> = Vec::new();
    let mut i: usize = 0;
    while i < v.len()
        invariant
            i <= v.len(),
            r@ == ascii_lower(v@.take(i as int)),
        decreases v.len() - i,
    {
        r.push(to_ascii_lower_char(v[i]));
        i += 1;
        assert(r@ =~= ascii_lower(v@.take(i as int)));
    }
    assert(v@.take(v.len() as int) =~= v@);
    r
}

// ---------------------------------------------------------------------------
// Trimming
// ---------------------------------------------------------------------------

pub open spec fn trim_start_seq(s: Seq<char>) -> Seq<char>
    decreases s.len(),
{
    if s.len() > 0 && is_ws(s[0]) {
        trim_start_seq(s.drop_first())
    } else {
        s
    }
}

pub open spec fn trim_end_seq(s: Seq<char>) -> Seq<char>
    decreases s.len(),
{
    if s.len() > 0 && is_ws(s.last()) {
        trim_end_seq(s.drop_last())
    } else {
        s
    }
}

/// What `str::trim` keeps: the text without leading and trailing whitespace.
pub open spec fn trim_seq(s: Seq<char>) -> Seq<char> {
    trim_end_seq(trim_start_seq(s))
}

proof fn lemma_trim_start_shape(s: Seq<char>)
    ensures
        trim_start_seq(s).len() > 0 ==> !is_ws(trim_start_seq(s)[0]),
    decreases s.len(),
{
    if s.len() > 0 && is_ws(s[0]) {
        lemma_trim_start_shape(s.drop_first());
    }
}

proof fn lemma_trim_end_shape(s: Seq<char>)
    ensures
        trim_end_seq(s).len() <= s.len(),
        trim_end_seq(s) == s.take(trim_end_seq(s).len() as int),
        trim_end_seq(s).len() > 0 ==> !is_ws(trim_end_seq(s).last()),
    decreases s.len(),
{
    if s.len() > 0 && is_ws(s.last()) {
        lemma_trim_end_shape(s.drop_last());
        let t = trim_end_seq(s.drop_last());
        assert(s.drop_last().take(t.len() as int) =~= s.take(t.len() as int));
    } else {
        assert(s.take(s.len() as int) =~= s);
    }
}

/// Trimming a trimmed text changes nothing.
pub proof fn lemma_trim_idempotent(s: Seq<char>)
    ensures
        trim_seq(trim_seq(s)) == trim_seq(s),
{
    let a = trim_start_seq(s);
    let u = trim_end_seq(a);
    lemma_trim_start_shape(s);
    lemma_trim_end_shape(a);
    if u.len() > 0 {
        assert(u[0] == a[0]);
    }
    assert(trim_start_seq(u) == u);
    lemma_trim_end_shape(u);
    assert(trim_end_seq(u) == u);
}

/// Trimming the start drops exactly the leading whitespace.
proof fn lemma_trim_start_drops_blank(s: Seq<char>)
    ensures
        trim_start_seq(s).len() <= s.len(),
        trim_start_seq(s) == s.skip(s.len() - trim_start_seq(s).len()),
        forall|k: int| 0 <= k < s.len() - trim_start_seq(s).len() ==> is_ws(#[trigger] s[k]),
    decreases s.len(),
{
    if s.len() > 0 && is_ws(s[0]) {
        lemma_trim_start_drops_blank(s.drop_first());
        let t = trim_start_seq(s.drop_first());
        assert(s.drop_first().skip(s.drop_first().len() - t.len()) =~= s.skip(s.len() - t.len()));
        assert forall|k: int| 0 <= k < s.len() - t.len() implies is_ws(#[trigger] s[k]) by {
            if k > 0 {
                assert(s[k] == s.drop_first()[k - 1]);
            }
        }
    } else {
        assert(s.skip(0) =~= s);
    }
}

/// Trimming the end drops exactly the trailing whitespace.
proof fn lemma_trim_end_drops_blank(s: Seq<char>)
    ensures
        trim_end_seq(s).len() <= s.len(),
        forall|k: int| trim_end_seq(s).len() <= k < s.len() ==> is_ws(#[trigger] s[k]),
    decreases s.len(),
{
    if s.len() > 0 && is_ws(s.last()) {
        lemma_trim_end_drops_blank(s.drop_last());
        assert forall|k: int| trim_end_seq(s).len() <= k < s.len() implies is_ws(#[trigger] s[k]) by {
            if k < s.len() - 1 {
                assert(s[k] == s.drop_last()[k]);
            }
        }
    }
}

/// Trimming keeps one contiguous piece of the text: everything before it
/// and after it is whitespace, and the piece neither starts nor ends with
/// whitespace.
pub proof fn lemma_trim_keeps_middle(s: Seq<char>)
    ensures
        exists|a: int, b: int|
            #![trigger s.subrange(a, b)]
            0 <= a <= b <= s.len() && trim_seq(s) == s.subrange(a, b) && (forall|k: int|
                0 <= k < a ==> is_ws(#[trigger] s[k])) && (forall|k: int|
                b <= k < s.len() ==> is_ws(#[trigger] s[k])),
        trim_seq(s).len() > 0 ==> !is_ws(trim_seq(s)[0]) && !is_ws(trim_seq(s).last()),
{
    let t = trim_start_seq(s);
    let u = trim_end_seq(t);
    lemma_trim_start_drops_blank(s);
    lemma_trim_end_drops_blank(t);
    lemma_trim_end_shape(t);
    lemma_trim_start_shape(s);
    let a = s.len() - t.len();
    let b = a + u.len();
    assert(u =~= s.subrange(a, b));
    assert forall|k: int| b <= k < s.len() implies is_ws(#[trigger] s[k]) by {
        assert(s[k] == t[k - a]);
    }
    if u.len() > 0 {
        assert(u[0] == t[0]);
    }
    assert(trim_seq(s) == s.subrange(a, b));
}

proof fn lemma_trim_start_skip(s: Seq<char>, i: int)
    requires
        0 <= i <= s.len(),
        forall|k: int| 0 <= k < i ==> is_ws(#[trigger] s[k]),
    ensures
        trim_start_seq(s) == trim_start_seq(s.subrange(i, s.len() as int)),
    decreases i,
{
    if i > 0 {
        lemma_trim_start_skip(s, i - 1);
        let t = s.subrange(i - 1, s.len() as int);
        assert(t[0] == s[i - 1]);
        assert(t.drop_first() =~= s.subrange(i, s.len() as int));
    } else {
        assert(s.subrange(0, s.len() as int) =~= s);
    }
}

proof fn lemma_trim_end_skip(s: Seq<char>, j: int)
    requires
        0 <= j <= s.len(),
        forall|k: int| j <= k < s.len() ==> is_ws(#[trigger] s[k]),
    ensures
        trim_end_seq(s) == trim_end_seq(s.subrange(0, j)),
    decreases s.len() - j,
{
    if j < s.len() {
        lemma_trim_end_skip(s, j + 1);
        let t = s.subrange(0, j + 1);
        assert(t.last() == s[j]);
        assert(t.drop_last() =~= s.subrange(0, j));
    } else {
        assert(s.subrange(0, s.len() as int) =~= s);
    }
}

/// Bounds `(lo, hi)` such that `v[lo..hi]` is `v` trimmed.
pub fn trim_bounds(v: &Vec<char>, from: usize, to: usize) -> (r: (usize, usize))
    requires
        from <= to <= v.len(),
    ensures
        from <= r.0 <= r.1 <= to,
        v@.subrange(r.0 as int, r.1 as int) == trim_seq(v@.subrange(from as int, to as int)),
{
    let ghost s = v@.subrange(from as int, to as int);
    let mut i = from;
    while i < to && is_whitespace(v[i])
        invariant
            from <= i <= to <= v.len(),
            s == v@.subrange(from as int, to as int),
            forall|k: int| from <= k < i ==> is_ws(#[trigger] v@[k]),
        decreases to - i,
    {
        i += 1;
    }
    proof {
        assert forall|k: int| 0 <= k < i - from implies is_ws(#[trigger] s[k]) by {
            assert(s[k] == v@[from + k]);
        }
        lemma_trim_start_skip(s, i - from);
        let t = s.subrange(i - from, s.len() as int);
        assert(t =~= v@.subrange(i as int, to as int));
        if t.len() > 0 {
            assert(t[0] == v@[i as int]);
        }
        assert(trim_start_seq(t) == t);
    }
    let mut j = to;
    while j > i && is_whitespace(v[j - 1])
        invariant
            from <= i <= j <= to <= v.len(),
            forall|k: int| j <= k < to ==> is_ws(#[trigger] v@[k]),
        decreases j - i,
    {
        j -= 1;
    }
    proof {
        let t = v@.subrange(i as int, to as int);
        assert forall|k: int| j - i <= k < t.len() implies is_ws(#[trigger] t[k]) by {
            assert(t[k] == v@[i + k]);
        }
        lemma_trim_end_skip(t, j - i);
        let u = t.subrange(0, j - i);
        assert(u =~= v@.subrange(i as int, j as int));
        if u.len() > 0 {
            assert(u.last() == v@[j - 1]);
        }
        assert(trim_end_seq(u) == u);
    }
    (i, j)
}

/// `str::trim`, as an owned string.
pub fn trim(s: &str) -> (r: String)
    ensures
        r@ == trim_seq(s@),
{
    let v = chars_of(s);
    let (lo, hi) = trim_bounds(&v, 0, v.len());
    assert(v@.subrange(0, v.len() as int) =~= v@);
    string_of(&v, lo, hi)
}

// ---------------------------------------------------------------------------
// Searching
// ---------------------------------------------------------------------------

/// `needle` occurs in `hay` starting at position `i`.
pub open spec fn occurs_at(hay: Seq<char>, needle: Seq<char>, i: int) -> bool {
    0 <= i && i + needle.len() <= hay.len() && hay.subrange(i, i + needle.len()) == needle
}

/// `str::contains` with a string pattern.
pub open spec fn seq_contains(hay: Seq<char>, needle: Seq<char>) -> bool {
    exists|i: int| occurs_at(hay, needle, i)
}

/// `str::starts_with` with a string pattern.
pub open spec fn seq_starts_with(hay: Seq<char>, prefix: Seq<char>) -> bool {
    occurs_at(hay, prefix, 0)
}

pub fn matches_at(hay: &Vec<char>, needle: &Vec<char>, i: usize) -> (b: bool)
    ensures
        b == occurs_at(hay@, needle@, i as int),
{
    if i > hay.len() || needle.len() > hay.len() - i {
        return false;
    }
    let mut j: usize = 0;
    while j < needle.len()
        invariant
            i + needle.len() <= hay.len(),
            j <= needle.len(),
            forall|k: int| 0 <= k < j ==> hay@[i + k] == needle@[k],
        decreases needle.len() - j,
    {
        if hay[i + j] != needle[j] {
            assert(hay@.subrange(i as int, i + needle.len())[j as int] == hay@[i + j]);
            return false;
        }
        j += 1;
    }
    assert(hay@.subrange(i as int, i + needle.len()) =~= needle@);
    true
}

/// The first position at or after `from` where `needle` occurs in `hay`.
pub fn find_from(hay: &Vec<char>, needle: &Vec<char>, from: usize) -> (r: Option<usize>)
    ensures
        match r {
            Some(p) => from <= p && occurs_at(hay@, needle@, p as int) && forall|k: int|
                from <= k < p ==> !occurs_at(hay@, needle@, k),
            None => forall|k: int| from <= k ==> !occurs_at(hay@, needle@, k),
        },
{
    let mut p = from;
    if from > hay.len() {
        return None;
    }
    while p < hay.len()
        invariant
            from <= p <= hay.len(),
            forall|k: int| from <= k < p ==> !occurs_at(hay@, needle@, k),
        decreases hay.len() - p,
    {
        if matches_at(hay, needle, p) {
            return Some(p);
        }
        p += 1;
    }
    if matches_at(hay, needle, p) {
        return Some(p);
    }
    assert forall|k: int| from <= k implies !occurs_at(hay@, needle@, k) by {
        if k < p {
        }
    }
    None
}

pub fn contains_chars(hay: &Vec<char>, needle: &Vec<char>) -> (b: bool)
    ensures
        b == seq_contains(hay@, needle@),
{
    match find_from(hay, needle, 0) {
        Some(p) => true,
        None => {
            assert forall|k: int| !occurs_at(hay@, needle@, k) by {
                if k < 0 {
                }
            }
            false
        },
    }
}

pub fn starts_with_chars(hay: &Vec<char>, prefix: &Vec<char>) -> (b: bool)
    ensures
        b == seq_starts_with(hay@, prefix@),
{
    matches_at(hay, prefix, 0)
}

// ---------------------------------------------------------------------------
// Splitting and joining
// ---------------------------------------------------------------------------

/// The pieces that `str::split` yields for a single-character separator.
pub open spec fn split_seq(s: Seq<char>, sep: char) -> Seq<Seq<char>>
    decreases s.len(),
{
    if s.len() == 0 {
        seq![Seq::<char>::empty()]
    } else {
        let pieces = split_seq(s.drop_last(), sep);
        if s.last() == sep {
            pieces.push(Seq::<char>::empty())
        } else {
            pieces.update(pieces.len() - 1, pieces.last().push(s.last()))
        }
    }
}

pub proof fn lemma_split_seq_nonempty(s: Seq<char>, sep: char)
    ensures
        split_seq(s, sep).len() >= 1,
    decreases s.len(),
{
    if s.len() > 0 {
        lemma_split_seq_nonempty(s.drop_last(), sep);
    }
}

/// Appending text without the separator extends the last piece.
pub proof fn lemma_split_append_plain(a: Seq<char>, b: Seq<char>, sep: char)
    requires
        !b.contains(sep),
    ensures
        split_seq(a + b, sep) == split_seq(a, sep).update(
            split_seq(a, sep).len() - 1,
            split_seq(a, sep).last() + b,
        ),
    decreases b.len(),
{
    lemma_split_seq_nonempty(a, sep);
    if b.len() == 0 {
        assert(a + b =~= a);
        assert(split_seq(a, sep).last() + b =~= split_seq(a, sep).last());
        assert(split_seq(a, sep).update(split_seq(a, sep).len() - 1, split_seq(a, sep).last())
            =~= split_seq(a, sep));
    } else {
        let b0 = b.drop_last();
        let c = b.last();
        assert(!b0.contains(sep)) by {
            if b0.contains(sep) {
                let k = choose|k: int| 0 <= k < b0.len() && b0[k] == sep;
                assert(b[k] == sep);
            }
        }
        assert(b[b.len() - 1] == c);
        lemma_split_append_plain(a, b0, sep);
        assert((a + b).drop_last() =~= a + b0);
        assert((a + b).last() == c);
        assert((split_seq(a, sep).last() + b0).push(c) =~= split_seq(a, sep).last() + b);
        assert(split_seq(a + b, sep) =~= split_seq(a, sep).update(
            split_seq(a, sep).len() - 1,
            split_seq(a, sep).last() + b,
        ));
    }
}

/// A separator followed by text without it starts a new last piece.
pub proof fn lemma_split_after_sep(a: Seq<char>, b: Seq<char>, sep: char)
    requires
        !b.contains(sep),
    ensures
        split_seq(a + seq![sep] + b, sep) == split_seq(a, sep).push(b),
{
    let a1 = a + seq![sep];
    assert(a1.drop_last() =~= a);
    assert(a1.last() == sep);
    assert(split_seq(a1, sep) == split_seq(a, sep).push(Seq::<char>::empty()));
    lemma_split_append_plain(a1, b, sep);
    assert(Seq::<char>::empty() + b =~= b);
    assert(split_seq(a, sep).push(Seq::<char>::empty()).update(
        split_seq(a, sep).len() as int,
        Seq::<char>::empty() + b,
    ) =~= split_seq(a, sep).push(b));
}

/// Parts joined with `", "` read back, split on the comma, as the parts with
/// a space before each but the first.
pub open spec fn comma_spaced(parts: Seq<Seq<char>>) -> Seq<Seq<char>> {
    Seq::new(parts.len(), |i: int| if i == 0 { parts[0] } else { seq![' '] + parts[i] })
}

pub proof fn lemma_split_joined(parts: Seq<Seq<char>>)
    requires
        parts.len() > 0,
        forall|i: int| 0 <= i < parts.len() ==> !(#[trigger] parts[i]).contains(','),
    ensures
        split_seq(join_seq(parts, ", "@), ',') == comma_spaced(parts),
    decreases parts.len(),
{
    reveal_strlit(", ");
    if parts.len() == 1 {
        lemma_split_append_plain(Seq::<char>::empty(), parts[0], ',');
        assert(Seq::<char>::empty() + parts[0] =~= parts[0]);
        assert(split_seq(Seq::<char>::empty(), ',') == seq![Seq::<char>::empty()]);
        assert(split_seq(parts[0], ',') =~= comma_spaced(parts));
    } else {
        let init = parts.drop_last();
        let last = parts.last();
        assert forall|i: int| 0 <= i < init.len() implies !(#[trigger] init[i]).contains(',') by {
            assert(init[i] == parts[i]);
        }
        lemma_split_joined(init);
        let spaced_last = seq![' '] + last;
        assert(!spaced_last.contains(',')) by {
            assert(!parts[parts.len() - 1].contains(','));
            if spaced_last.contains(',') {
                let k = choose|k: int| 0 <= k < spaced_last.len() && spaced_last[k] == ',';
                assert(k > 0);
                assert(last[k - 1] == ',');
            }
        }
        lemma_split_after_sep(join_seq(init, ", "@), spaced_last, ',');
        assert(join_seq(parts, ", "@) =~= join_seq(init, ", "@) + seq![','] + spaced_last);
        assert(comma_spaced(init).push(spaced_last) =~= comma_spaced(parts));
    }
}

/// A leading space does not change what trimming keeps.
pub proof fn lemma_trim_leading_space(t: Seq<char>)
    ensures
        trim_seq(seq![' '] + t) == trim_seq(t),
{
    let s = seq![' '] + t;
    assert(is_ws(' '));
    assert(s.drop_first() =~= t);
}

/// `str::split` on a single character, as owned strings.
pub fn split_on(s: &Vec<char>, sep: char) -> (r: Vec<String>)
    ensures
        r.deep_view() == split_seq(s@, sep),
{
    let mut done: Vec<String> = Vec::new();
    let mut current = String::new();
    let mut i: usize = 0;
    while i < s.len()
        invariant
            i <= s.len(),
            done.deep_view().push(current@) == split_seq(s@.take(i as int), sep),
        decreases s.len() - i,
    {
        proof {
            lemma_split_seq_nonempty(s@.take(i as int), sep);
            assert(s@.take(i + 1).drop_last() =~= s@.take(i as int));
        }
        let ghost before = done.deep_view().push(current@);
        if s[i] == sep {
            done.push(current);
            current = String::new();
            assert(done.deep_view().push(current@) =~= before.push(Seq::<char>::empty()));
        } else {
            push_char(&mut current, s[i]);
            assert(done.deep_view().push(current@) =~= before.update(
                before.len() - 1,
                before.last().push(s@[i as int]),
            ));
        }
        i += 1;
    }
    assert(s@.take(s.len() as int) =~= s@);
    done.push(current);
    done
}

/// The pieces joined with a separator between consecutive pieces (`join`).
pub open spec fn join_seq(parts: Seq<Seq<char>>, sep: Seq<char>) -> Seq<char>
    decreases parts.len(),
{
    if parts.len() == 0 {
        Seq::<char>::empty()
    } else if parts.len() == 1 {
        parts[0]
    } else {
        join_seq(parts.drop_last(), sep) + sep + parts.last()
    }
}

/// `[String]::join` with a string separator.
pub fn join_strings(parts: &[String], sep: &str) -> (r: String)
    ensures
        r@ == join_seq(parts.deep_view(), sep@),
{
    let mut r = String::new();
    let mut i: usize = 0;
    while i < parts.len()
        invariant
            i <= parts.len(),
            r@ == join_seq(parts.deep_view().take(i as int), sep@),
        decreases parts.len() - i,
    {
        proof {
            assert(parts.deep_view().take(i + 1).drop_last() =~= parts.deep_view().take(i as int));
        }
        if i > 0 {
            r.append(sep);
        }
        r.append(parts[i].as_str());
        i += 1;
        proof {
            if i == 1 {
                assert(Seq::<char>::empty() + parts.deep_view()[0] =~= parts.deep_view()[0]);
            }
        }
    }
    assert(parts.deep_view().take(parts.len() as int) =~= parts.deep_view());
    r
}

// ---------------------------------------------------------------------------
// Words and lines
// ---------------------------------------------------------------------------

/// Whether a word (maximal run of non-whitespace) starts at position `i`.
pub open spec fn word_starts_at(s: Seq<char>, i: int) -> bool {
    0 <= i < s.len() && !is_ws(s[i]) && (i == 0 || is_ws(s[i - 1]))
}

/// The words that `str::split_whitespace` yields.
pub open spec fn words_seq(s: Seq<char>) -> Seq<Seq<char>>
    decreases s.len(),
{
    if s.len() == 0 {
        Seq::<Seq<char>>::empty()
    } else {
        let w = words_seq(s.drop_last());
        if is_ws(s.last()) {
            w
        } else if word_starts_at(s, s.len() - 1) {
            w.push(seq![s.last()])
        } else {
            w.update(w.len() - 1, w.last().push(s.last()))
        }
    }
}

pub proof fn lemma_words_seq_nonempty(s: Seq<char>)
    ensures
        s.len() > 0 && !is_ws(s.last()) ==> words_seq(s).len() > 0,
        words_seq(s).len() <= s.len(),
    decreases s.len(),
{
    if s.len() > 0 {
        lemma_words_seq_nonempty(s.drop_last());
        let p = s.drop_last();
        if !is_ws(s.last()) && !word_starts_at(s, s.len() - 1) {
            assert(p.last() == s[s.len() - 2]);
        }
    }
}

/// The words of a text, as owned strings (`str::split_whitespace`).
pub fn words(s: &Vec<char>) -> (r: Vec<String>)
    ensures
        r.deep_view() == words_seq(s@),
{
    let mut done: Vec<String> = Vec::new();
    let mut current = String::new();
    let mut in_word = false;
    let mut i: usize = 0;
    while i < s.len()
        invariant
            i <= s.len(),
            in_word == (i > 0 && !is_ws(s@[i - 1])),
            in_word ==> done.deep_view().push(current@) == words_seq(s@.take(i as int)),
            !in_word ==> done.deep_view() == words_seq(s@.take(i as int)),
        decreases s.len() - i,
    {
        proof {
            assert(s@.take(i + 1).drop_last() =~= s@.take(i as int));
            assert(s@.take(i + 1).last() == s@[i as int]);
            if i > 0 {
                assert(s@.take(i + 1)[i - 1] == s@[i - 1]);
            }
        }
        let c = s[i];
        if is_whitespace(c) {
            if in_word {
                done.push(current);
                current = String::new();
            }
            in_word = false;
        } else if in_word {
            let ghost before = done.deep_view().push(current@);
            push_char(&mut current, c);
            assert(done.deep_view().push(current@) =~= before.update(
                before.len() - 1,
                before.last().push(c),
            ));
        } else {
            current = String::new();
            push_char(&mut current, c);
            assert(done.deep_view().push(current@) =~= done.deep_view().push(seq![c]));
            in_word = true;
        }
        i += 1;
    }
    assert(s@.take(s.len() as int) =~= s@);
    if in_word {
        done.push(current);
    }
    done
}

/// What `str::lines().next()` returns: the text before the first line
/// feed (without a carriage return just before it), or the whole text when
/// it holds no line feed; nothing for an empty text.
pub open spec fn first_line_seq(s: Seq<char>) -> Option<Seq<char>> {
    if s.len() == 0 {
        None
    } else if exists|i: int| 0 <= i < s.len() && s[i] == '\n' {
        let i = choose|i: int| 0 <= i < s.len() && s[i] == '\n' && forall|k: int| 0 <= k < i ==> s[k] != '\n';
        let line = s.take(i);
        if line.len() > 0 && line.last() == '\r' {
            Some(line.drop_last())
        } else {
            Some(line)
        }
    } else {
        Some(s)
    }
}

/// The first line of a text (`str::lines().next()`).
pub fn first_line(s: &Vec<char>) -> (r: Option<Vec<char>>)
    ensures
        match (r, first_line_seq(s@)) {
            (Some(a), Some(b)) => a@ == b,
            (None, None) => true,
            _ => false,
        },
{
    if s.len() == 0 {
        return None;
    }
    let mut i: usize = 0;
    while i < s.len() && s[i] != '\n'
        invariant
            i <= s.len(),
            forall|k: int| 0 <= k < i ==> s@[k] != '\n',
        decreases s.len() - i,
    {
        i += 1;
    }
    if i == s.len() {
        let mut r: Vec<char> = Vec::new();
        let mut k: usize = 0;
        while k < s.len()
            invariant
                k <= s.len(),
                r@ == s@.take(k as int),
            decreases s.len() - k,
        {
            r.push(s[k]);
            k += 1;
            assert(r@ =~= s@.take(k as int));
        }
        assert(s@.take(s.len() as int) =~= s@);
        return Some(r);
    }
    proof {
        let j = choose|j: int| 0 <= j < s.len() && s@[j] == '\n' && forall|k: int| 0 <= k < j ==> s@[k] != '\n';
        assert(s@[i as int] == '\n');
        if j < i {
        } else if j > i {
        }
        assert(j == i);
    }
    let end = if i > 0 && s[i - 1] == '\r' {
        i - 1
    } else {
        i
    };
    let mut r: Vec<char> = Vec::new();
    let mut k: usize = 0;
    while k < end
        invariant
            k <= end <= s.len(),
            r@ == s@.take(k as int),
        decreases end - k,
    {
        r.push(s[k]);
        k += 1;
        assert(r@ =~= s@.take(k as int));
    }
    if end < i {
        assert(s@.take(i as int).drop_last() =~= s@.take(end as int));
    }
    Some(r)
}

// ---------------------------------------------------------------------------
// Lexicographic order
// ---------------------------------------------------------------------------

/// Lexicographic order of character sequences by code point, which is the
/// order of `String`'s `Ord` (UTF-8 byte order agrees with code point order).
pub open spec fn lex_le(a: Seq<char>, b: Seq<char>) -> bool
    decreases a.len(),
{
    if a.len() == 0 {
        true
    } else if b.len() == 0 {
        false
    } else if a[0] != b[0] {
        a[0] < b[0]
    } else {
        lex_le(a.drop_first(), b.drop_first())
    }
}

pub proof fn lemma_lex_reflexive(a: Seq<char>)
    ensures
        lex_le(a, a),
    decreases a.len(),
{
    if a.len() > 0 {
        lemma_lex_reflexive(a.drop_first());
    }
}

pub proof fn lemma_lex_total(a: Seq<char>, b: Seq<char>)
    ensures
        lex_le(a, b) || lex_le(b, a),
    decreases a.len(),
{
    if a.len() > 0 && b.len() > 0 && a[0] == b[0] {
        lemma_lex_total(a.drop_first(), b.drop_first());
    }
}

pub proof fn lemma_lex_antisymmetric(a: Seq<char>, b: Seq<char>)
    requires
        lex_le(a, b),
        lex_le(b, a),
    ensures
        a == b,
    decreases a.len(),
{
    if a.len() > 0 && b.len() > 0 {
        lemma_lex_antisymmetric(a.drop_first(), b.drop_first());
        assert(a =~= seq![a[0]] + a.drop_first());
        assert(b =~= seq![b[0]] + b.drop_first());
    } else {
        assert(a =~= b);
    }
}

pub proof fn lemma_lex_transitive(a: Seq<char>, b: Seq<char>, c: Seq<char>)
    requires
        lex_le(a, b),
        lex_le(b, c),
    ensures
        lex_le(a, c),
    decreases a.len(),
{
    if a.len() > 0 && b.len() > 0 && c.len() > 0 && a[0] == b[0] && b[0] == c[0] {
        lemma_lex_transitive(a.drop_first(), b.drop_first(), c.drop_first());
    }
}

proof fn lemma_lex_skip(a: Seq<char>, b: Seq<char>, i: int)
    requires
        0 <= i <= a.len(),
        i <= b.len(),
        forall|k: int| 0 <= k < i ==> a[k] == b[k],
    ensures
        lex_le(a, b) == lex_le(a.skip(i), b.skip(i)),
    decreases i,
{
    if i > 0 {
        lemma_lex_skip(a.drop_first(), b.drop_first(), i - 1);
        assert(a.drop_first().skip(i - 1) =~= a.skip(i));
        assert(b.drop_first().skip(i - 1) =~= b.skip(i));
    } else {
        assert(a.skip(0) =~= a);
        assert(b.skip(0) =~= b);
    }
}

pub fn lex_le_chars(a: &Vec<char>, b: &Vec<char>) -> (r: bool)
    ensures
        r == lex_le(a@, b@),
{
    let mut i: usize = 0;
    while i < a.len() && i < b.len() && a[i] == b[i]
        invariant
            i <= a.len(),
            i <= b.len(),
            forall|k: int| 0 <= k < i ==> a@[k] == b@[k],
        decreases a.len() - i,
    {
        i += 1;
    }
    proof {
        lemma_lex_skip(a@, b@, i as int);
        if i < a.len() && i < b.len() {
            assert(a@.skip(i as int)[0] == a@[i as int]);
            assert(b@.skip(i as int)[0] == b@[i as int]);
        }
    }
    if i == a.len() {
        true
    } else if i == b.len() {
        false
    } else {
        a[i] < b[i]
    }
}

} // verus!
