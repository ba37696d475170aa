//! The search language of the note list: words, quoted phrases, `title:`,
//! `tag:` and `is:pinned`.
use vstd::prelude::*;
use crate::model::{Note, NoteView};
use crate::tag_rules::{fold_chars, has_tag, note_has_active_tag, spec_fold_case};
use crate::text::{
    chars_equal, chars_of, contains_chars, is_whitespace, is_ws, matches_at, occurs_at,
    seq_contains, string_of, trim_bounds, trim_end_seq, trim_seq, trim_start_seq,
};

verus! {

broadcast use vstd::string::group_string_axioms;

/// One condition of a search, by its text as written (trimmed).
pub enum TermSpec {
    /// Text that the title, the content or a tag contains.
    AnyText(Seq<char>),
    /// Text that the title contains.
    Title(Seq<char>),
    /// A tag the note holds.
    Tag(Seq<char>),
    /// The note is pinned.
    IsPinned,
}

// ---------------------------------------------------------------------------
// The grammar
// ---------------------------------------------------------------------------

/// A scoped term `prefix` starts at `pos`: at a word boundary, followed by a
/// non-whitespace character.
pub open spec fn scoped_at(raw: Seq<char>, pos: int, prefix: Seq<char>) -> bool {
    &&& 0 <= pos
    &&& pos == 0 || is_ws(raw[pos - 1])
    &&& occurs_at(raw, prefix, pos)
    &&& pos + prefix.len() < raw.len()
    &&& !is_ws(raw[pos + prefix.len()])
}

/// The first position at or after `p` holding whitespace, or the end.
pub open spec fn first_ws_from(raw: Seq<char>, p: int) -> int
    decreases raw.len() - p,
{
    if p >= raw.len() {
        raw.len() as int
    } else if is_ws(raw[p]) {
        p
    } else {
        first_ws_from(raw, p + 1)
    }
}

/// The first position at or after `p` holding a double quote, or the end.
pub open spec fn first_quote_from(raw: Seq<char>, p: int) -> int
    decreases raw.len() - p,
{
    if p >= raw.len() {
        raw.len() as int
    } else if raw[p] == '"' {
        p
    } else {
        first_quote_from(raw, p + 1)
    }
}

pub proof fn lemma_first_ws_from(raw: Seq<char>, p: int)
    requires
        0 <= p <= raw.len(),
    ensures
        p <= first_ws_from(raw, p) <= raw.len(),
        p < raw.len() && !is_ws(raw[p]) ==> p < first_ws_from(raw, p),
    decreases raw.len() - p,
{
    if p < raw.len() && !is_ws(raw[p]) {
        lemma_first_ws_from(raw, p + 1);
    }
}

pub proof fn lemma_first_quote_from(raw: Seq<char>, p: int)
    requires
        0 <= p <= raw.len(),
    ensures
        p <= first_quote_from(raw, p) <= raw.len(),
    decreases raw.len() - p,
{
    if p < raw.len() && raw[p] != '"' {
        lemma_first_quote_from(raw, p + 1);
    }
}

/// A value starting at a non-blank character ends after it.
pub proof fn lemma_value_advances(raw: Seq<char>, p: int)
    requires
        0 <= p < raw.len(),
        !is_ws(raw[p]),
    ensures
        p < value_at(raw, p).1 <= raw.len(),
{
    lemma_first_ws_from(raw, p);
    lemma_first_quote_from(raw, p + 1);
}

/// A quoted value whose opening quote is at `p`: the text up to the closing
/// quote (or to the end when unclosed), and the position after it.
pub open spec fn quoted_at(raw: Seq<char>, p: int) -> (Seq<char>, int) {
    let end = first_quote_from(raw, p + 1);
    (raw.subrange(p + 1, end), if end < raw.len() {
        end + 1
    } else {
        raw.len() as int
    })
}

/// The value of a scoped term starting at `p` (quoted or up to whitespace),
/// and the position after it.
pub open spec fn value_at(raw: Seq<char>, p: int) -> (Seq<char>, int) {
    if raw[p] == '"' {
        quoted_at(raw, p)
    } else {
        let end = first_ws_from(raw, p);
        (raw.subrange(p, end), end)
    }
}

/// Pending free text becomes a text term when it is not blank.
pub open spec fn flush_plain(plain: Seq<char>, terms: Seq<TermSpec>) -> Seq<TermSpec> {
    if trim_seq(plain).len() > 0 {
        terms.push(TermSpec::AnyText(trim_seq(plain)))
    } else {
        terms
    }
}

/// The terms of `raw` read from `pos`, with free text `plain` pending and
/// `terms` already read.
pub open spec fn parse_from(raw: Seq<char>, pos: int, plain: Seq<char>, terms: Seq<TermSpec>) -> Seq<
    TermSpec,
>
    decreases raw.len() - pos,
{
    if pos < 0 || pos >= raw.len() {
        flush_plain(plain, terms)
    } else if scoped_at(raw, pos, "title:"@) {
        let before = flush_plain(plain, terms);
        proof {
            reveal_strlit("title:");
            lemma_value_advances(raw, pos + 6);
        }
        let (v, next) = value_at(raw, pos + 6);
        let after = if trim_seq(v).len() > 0 {
            before.push(TermSpec::Title(trim_seq(v)))
        } else {
            before
        };
        parse_from(raw, next, Seq::empty(), after)
    } else if scoped_at(raw, pos, "tag:"@) {
        let before = flush_plain(plain, terms);
        proof {
            reveal_strlit("tag:");
            lemma_value_advances(raw, pos + 4);
        }
        let (v, next) = value_at(raw, pos + 4);
        let after = if trim_seq(v).len() > 0 {
            before.push(TermSpec::Tag(trim_seq(v)))
        } else {
            before
        };
        parse_from(raw, next, Seq::empty(), after)
    } else if scoped_at(raw, pos, "is:"@) {
        let before = flush_plain(plain, terms);
        proof {
            reveal_strlit("is:");
            lemma_value_advances(raw, pos + 3);
        }
        let (v, next) = value_at(raw, pos + 3);
        let after = if spec_fold_case(trim_seq(v)) == "pinned"@ {
            before.push(TermSpec::IsPinned)
        } else {
            before
        };
        parse_from(raw, next, Seq::empty(), after)
    } else if raw[pos] == '"' {
        let (v, next) = quoted_at(raw, pos);
        proof {
            lemma_first_quote_from(raw, pos + 1);
        }
        parse_from(raw, next, plain + v, terms)
    } else {
        parse_from(raw, pos + 1, plain.push(raw[pos]), terms)
    }
}

/// The terms of a search text.
pub open spec fn parse_terms(raw: Seq<char>) -> Seq<TermSpec> {
    parse_from(raw, 0, Seq::empty(), Seq::empty())
}

// ---------------------------------------------------------------------------
// Meaning of terms
// ---------------------------------------------------------------------------

/// Case-insensitive containment of a pattern in a text.
pub open spec fn contains_folded(text: Seq<char>, pattern: Seq<char>) -> bool {
    seq_contains(spec_fold_case(text), spec_fold_case(pattern))
}

pub open spec fn some_tag_contains(tags: Seq<Seq<char>>, pattern: Seq<char>) -> bool {
    exists|j: int| 0 <= j < tags.len() && contains_folded(#[trigger] tags[j], pattern)
}

/// The note satisfies the term.
pub open spec fn term_matches(term: TermSpec, note: NoteView) -> bool {
    match term {
        TermSpec::AnyText(p) => contains_folded(note.title, p) || contains_folded(note.content, p)
            || some_tag_contains(note.tags, p),
        TermSpec::Title(p) => contains_folded(note.title, p),
        TermSpec::Tag(t) => has_tag(note, t),
        TermSpec::IsPinned => note.is_pinned,
    }
}

/// The note satisfies every term.
pub open spec fn all_terms_match(terms: Seq<TermSpec>, note: NoteView) -> bool {
    forall|i: int| 0 <= i < terms.len() ==> term_matches(#[trigger] terms[i], note)
}

/// The texts to highlight in titles: text and title terms.
pub open spec fn title_terms(terms: Seq<TermSpec>) -> Seq<Seq<char>>
    decreases terms.len(),
{
    if terms.len() == 0 {
        Seq::empty()
    } else {
        let prev = title_terms(terms.drop_last());
        match terms.last() {
            TermSpec::AnyText(p) => prev.push(p),
            TermSpec::Title(p) => prev.push(p),
            _ => prev,
        }
    }
}

/// The texts to highlight in previews: text terms.
pub open spec fn preview_terms(terms: Seq<TermSpec>) -> Seq<Seq<char>>
    decreases terms.len(),
{
    if terms.len() == 0 {
        Seq::empty()
    } else {
        let prev = preview_terms(terms.drop_last());
        match terms.last() {
            TermSpec::AnyText(p) => prev.push(p),
            _ => prev,
        }
    }
}

/// Whether a term is not a `title:` term.
pub open spec fn not_title_term(t: TermSpec) -> bool {
    !(t is Title)
}

/// The preview highlights the title's terms without the `title:` values:
/// the plain and quoted text terms, in the query's order.
pub proof fn lemma_preview_terms_are_title_terms_without_title_values(terms: Seq<TermSpec>)
    ensures
        preview_terms(terms) == title_terms(terms.filter(|t: TermSpec| not_title_term(t))),
    decreases terms.len(),
{
    reveal_with_fuel(Seq::filter, 2);
    if terms.len() > 0 {
        lemma_preview_terms_are_title_terms_without_title_values(terms.drop_last());
        let f = terms.filter(|t: TermSpec| not_title_term(t));
        let fi = terms.drop_last().filter(|t: TermSpec| not_title_term(t));
        if not_title_term(terms.last()) {
            assert(f == fi.push(terms.last()));
            assert(f.drop_last() =~= fi);
            assert(f.last() == terms.last());
        } else {
            assert(f == fi);
        }
    }
}

/// The texts to highlight in tags: text terms and tag terms.
pub open spec fn tag_terms(terms: Seq<TermSpec>) -> Seq<Seq<char>>
    decreases terms.len(),
{
    if terms.len() == 0 {
        Seq::empty()
    } else {
        let prev = tag_terms(terms.drop_last());
        match terms.last() {
            TermSpec::AnyText(p) => prev.push(p),
            TermSpec::Tag(t) => prev.push(t),
            _ => prev,
        }
    }
}

// ---------------------------------------------------------------------------
// Executable query
// ---------------------------------------------------------------------------

/// A text term, as written (matching case-folds it when it compares).
#[derive(Debug, Clone, PartialEq, Eq)]
struct TextPattern {
    original: String,
}

#[derive(Debug, Clone, PartialEq, Eq)]
enum SearchTerm {
    AnyText(TextPattern),
    Title(TextPattern),
    Tag(String),
    IsPinned,
}

impl SearchTerm {
    spec fn spec_view(&self) -> TermSpec {
        match self {
            SearchTerm::AnyText(p) => TermSpec::AnyText(p.original@),
            SearchTerm::Title(p) => TermSpec::Title(p.original@),
            SearchTerm::Tag(t) => TermSpec::Tag(t@),
            SearchTerm::IsPinned => TermSpec::IsPinned,
        }
    }

    fn matches(&self, note: &Note) -> (r: bool)
        ensures
            r == term_matches(self.spec_view(), note@),
    {
        match self {
            SearchTerm::AnyText(p) => {
                assert(self.spec_view() == TermSpec::AnyText(p.original@));
                if p.contains_in(note.title.as_str()) {
                    return true;
                }
                if p.contains_in(note.content.as_str()) {
                    return true;
                }
                let ghost tv = note.tags.deep_view();
                let mut j: usize = 0;
                while j < note.tags.len()
                    invariant
                        j <= note.tags.len(),
                        tv == note.tags.deep_view(),
                        self.spec_view() == TermSpec::AnyText(p.original@),
                        forall|k: int|
                            0 <= k < j ==> !contains_folded(#[trigger] tv[k], p.original@),
                    decreases note.tags.len() - j,
                {
                    if p.contains_in(note.tags[j].as_str()) {
                        assert(tv[j as int] == note.tags@[j as int]@);
                        assert(note@.tags[j as int] == tv[j as int]);
                        assert(contains_folded(note@.tags[j as int], p.original@));
                        assert(some_tag_contains(note@.tags, p.original@));
                        return true;
                    }
                    j += 1;
                }
                false
            },
            SearchTerm::Title(p) => p.contains_in(note.title.as_str()),
            SearchTerm::Tag(t) => note_has_active_tag(note, t.as_str()),
            SearchTerm::IsPinned => note.is_pinned,
        }
    }
}

spec fn terms_view(ts: Seq<SearchTerm>) -> Seq<TermSpec> {
    ts.map_values(|t: SearchTerm| t.spec_view())
}

/// A parsed search: every term must match.
#[derive(Debug, Clone, PartialEq, Eq)]
pub struct SearchQuery {
    terms: Vec<SearchTerm>,
}

impl View for SearchQuery {
    type V = Seq<TermSpec>;

    closed spec fn view(&self) -> Seq<TermSpec> {
        terms_view(self.terms@)
    }
}

/// The characters `v[lo..hi]`, trimmed, as a string.
fn trimmed_string(v: &Vec<char>, lo: usize, hi: usize) -> (r: String)
    requires
        lo <= hi <= v.len(),
    ensures
        r@ == trim_seq(v@.subrange(lo as int, hi as int)),
{
    let (a, b) = trim_bounds(v, lo, hi);
    string_of(v, a, b)
}

impl TextPattern {
    /// The pattern for a value, unless it is blank.
    fn new(value: &Vec<char>, lo: usize, hi: usize) -> (r: Option<TextPattern>)
        requires
            lo <= hi <= value.len(),
        ensures
            trim_seq(value@.subrange(lo as int, hi as int)).len() > 0 <==> r is Some,
            r matches Some(p) ==> p.original@ == trim_seq(value@.subrange(lo as int, hi as int)),
    {
        let trimmed = trimmed_string(value, lo, hi);
        if trimmed.as_str().unicode_len() == 0 {
            return None;
        }
        Some(TextPattern { original: trimmed })
    }

    fn contains_in(&self, text: &str) -> (r: bool)
        ensures
            r == contains_folded(text@, self.original@),
    {
        let f = fold_chars(text);
        let folded = fold_chars(self.original.as_str());
        contains_chars(&f, &folded)
    }
}

/// Whether the scoped term `prefix` starts at `pos`.
fn starts_scoped_term(raw: &Vec<char>, pos: usize, prefix: &str) -> (r: bool)
    ensures
        r == scoped_at(raw@, pos as int, prefix@),
{
    let p = chars_of(prefix);
    if pos > raw.len() {
        return false;
    }
    let boundary = pos == 0 || is_whitespace(raw[pos - 1]);
    if !boundary {
        return false;
    }
    if !matches_at(raw, &p, pos) {
        return false;
    }
    if pos + p.len() >= raw.len() {
        return false;
    }
    !is_whitespace(raw[pos + p.len()])
}

fn first_ws(raw: &Vec<char>, p: usize) -> (r: usize)
    requires
        p <= raw.len(),
    ensures
        r == first_ws_from(raw@, p as int),
        p <= r <= raw.len(),
{
    let mut i = p;
    while i < raw.len() && !is_whitespace(raw[i])
        invariant
            p <= i <= raw.len(),
            first_ws_from(raw@, p as int) == first_ws_from(raw@, i as int),
        decreases raw.len() - i,
    {
        i += 1;
    }
    i
}

fn first_quote(raw: &Vec<char>, p: usize) -> (r: usize)
    requires
        p <= raw.len(),
    ensures
        r == first_quote_from(raw@, p as int),
        p <= r <= raw.len(),
{
    let mut i = p;
    while i < raw.len() && raw[i] != '"'
        invariant
            p <= i <= raw.len(),
            first_quote_from(raw@, p as int) == first_quote_from(raw@, i as int),
        decreases raw.len() - i,
    {
        i += 1;
    }
    i
}

/// The quoted value at `p`, as bounds, and the position after it.
fn quoted(raw: &Vec<char>, p: usize) -> (r: (usize, usize, usize))
    requires
        p < raw.len(),
    ensures
        r.0 <= r.1 <= raw.len(),
        (raw@.subrange(r.0 as int, r.1 as int), r.2 as int) == quoted_at(raw@, p as int),
        p < r.2 <= raw.len(),
{
    let end = first_quote(raw, p + 1);
    let next = if end < raw.len() {
        end + 1
    } else {
        raw.len()
    };
    (p + 1, end, next)
}

/// The value of a scoped term at `p`, as bounds, and the position after it.
fn value(raw: &Vec<char>, p: usize) -> (r: (usize, usize, usize))
    requires
        p < raw.len(),
        !is_ws(raw@[p as int]),
    ensures
        r.0 <= r.1 <= raw.len(),
        (raw@.subrange(r.0 as int, r.1 as int), r.2 as int) == value_at(raw@, p as int),
        p < r.2 <= raw.len(),
{
    if raw[p] == '"' {
        quoted(raw, p)
    } else {
        proof {
            lemma_first_ws_from(raw@, p as int);
        }
        let end = first_ws(raw, p);
        (p, end, end)
    }
}

/// Appends `v[lo..hi]` to `out`.
fn extend_range(out: &mut Vec<char>, v: &Vec<char>, lo: usize, hi: usize)
    requires
        lo <= hi <= v.len(),
    ensures
        final(out)@ == old(out)@ + v@.subrange(lo as int, hi as int),
{
    let mut i = lo;
    while i < hi
        invariant
            lo <= i <= hi <= v.len(),
            out@ == old(out)@ + v@.subrange(lo as int, i as int),
        decreases hi - i,
    {
        out.push(v[i]);
        i += 1;
        assert(out@ =~= old(out)@ + v@.subrange(lo as int, i as int));
    }
}

/// Moves pending free text into a text term.
fn flush_pending(terms: &mut Vec<SearchTerm>, plain: &mut Vec<char>)
    ensures
        terms_view(final(terms)@) == flush_plain(old(plain)@, terms_view(old(terms)@)),
        final(plain)@ == Seq::<char>::empty(),
{
    let ghost before = terms@;
    let n = plain.len();
    assert(plain@.subrange(0, n as int) =~= plain@);
    match TextPattern::new(plain, 0, n) {
        Some(p) => {
            terms.push(SearchTerm::AnyText(p));
            assert(terms_view(terms@) =~= terms_view(before).push(
                TermSpec::AnyText(trim_seq(plain@)),
            ));
        },
        None => {},
    }
    plain.clear();
    assert(plain@ =~= Seq::<char>::empty());
}

fn push_term(terms: &mut Vec<SearchTerm>, t: SearchTerm)
    ensures
        terms_view(final(terms)@) == terms_view(old(terms)@).push(t.spec_view()),
{
    terms.push(t);
    assert(terms_view(terms@) =~= terms_view(old(terms)@).push(t.spec_view()));
}

impl SearchQuery {
    /// Reads a search text.
    pub fn parse(raw: &str) -> (q: SearchQuery)
        ensures
            q@ == parse_terms(raw@),
    {
        proof {
            reveal_strlit("title:");
            reveal_strlit("tag:");
            reveal_strlit("is:");
            reveal_strlit("pinned");
        }
        let chars = chars_of(raw);
        let pinned = chars_of("pinned");
        let mut terms: Vec<SearchTerm> = Vec::new();
        let mut plain: Vec<char> = Vec::new();
        let mut pos: usize = 0;
        assert(terms_view(terms@) =~= Seq::<TermSpec>::empty());
        while pos < chars.len()
            invariant
                pos <= chars.len(),
                chars@ == raw@,
                pinned@ == "pinned"@,
                "title:"@.len() == 6,
                "tag:"@.len() == 4,
                "is:"@.len() == 3,
                parse_from(chars@, pos as int, plain@, terms_view(terms@)) == parse_terms(raw@),
            decreases chars.len() - pos,
        {
            if starts_scoped_term(&chars, pos, "title:") {
                flush_pending(&mut terms, &mut plain);
                let (lo, hi, next) = value(&chars, pos + 6);
                match TextPattern::new(&chars, lo, hi) {
                    Some(p) => {
                        push_term(&mut terms, SearchTerm::Title(p));
                    },
                    None => {},
                }
                pos = next;
            } else if starts_scoped_term(&chars, pos, "tag:") {
                flush_pending(&mut terms, &mut plain);
                let (lo, hi, next) = value(&chars, pos + 4);
                let t = trimmed_string(&chars, lo, hi);
                if t.as_str().unicode_len() > 0 {
                    push_term(&mut terms, SearchTerm::Tag(t));
                }
                pos = next;
            } else if starts_scoped_term(&chars, pos, "is:") {
                flush_pending(&mut terms, &mut plain);
                let (lo, hi, next) = value(&chars, pos + 3);
                let t = trimmed_string(&chars, lo, hi);
                let folded = fold_chars(t.as_str());
                if chars_equal(&folded, &pinned) {
                    push_term(&mut terms, SearchTerm::IsPinned);
                }
                pos = next;
            } else if chars[pos] == '"' {
                let (lo, hi, next) = quoted(&chars, pos);
                extend_range(&mut plain, &chars, lo, hi);
                pos = next;
            } else {
                plain.push(chars[pos]);
                pos = pos + 1;
            }
        }
        flush_pending(&mut terms, &mut plain);
        SearchQuery { terms }
    }

    /// Whether the search has no terms (every note matches).
    pub fn is_empty(&self) -> (r: bool)
        ensures
            r == (self@.len() == 0),
    {
        self.terms.len() == 0
    }

    /// Whether the note satisfies every term.
    pub fn matches(&self, note: &Note) -> (r: bool)
        ensures
            r == all_terms_match(self@, note@),
    {
        let mut i: usize = 0;
        while i < self.terms.len()
            invariant
                i <= self.terms.len(),
                forall|k: int| 0 <= k < i ==> term_matches(#[trigger] self@[k], note@),
            decreases self.terms.len() - i,
        {
            if !self.terms[i].matches(note) {
                assert(self@[i as int] == self.terms@[i as int].spec_view());
                return false;
            }
            assert(self@[i as int] == self.terms@[i as int].spec_view());
            i += 1;
        }
        true
    }

    /// The texts to highlight in note titles: those of text and title terms.
    pub fn title_highlight_terms(&self) -> (r: Vec<String>)
        ensures
            r.deep_view() == title_terms(self@),
    {
        let mut r: Vec<String> = Vec::new();
        let mut i: usize = 0;
        while i < self.terms.len()
            invariant
                i <= self.terms.len(),
                r.deep_view() == title_terms(self@.take(i as int)),
            decreases self.terms.len() - i,
        {
            assert(self@.take(i as int + 1).drop_last() =~= self@.take(i as int));
            match &self.terms[i] {
                SearchTerm::AnyText(p) => r.push(p.original.clone()),
                SearchTerm::Title(p) => r.push(p.original.clone()),
                _ => {},
            }
            i += 1;
            assert(r.deep_view() =~= title_terms(self@.take(i as int)));
        }
        assert(self@.take(i as int) =~= self@);
        r
    }

    /// The texts to highlight in previews: those of text terms.
    pub fn preview_highlight_terms(&self) -> (r: Vec<String>)
        ensures
            r.deep_view() == preview_terms(self@),
    {
        let mut r: Vec<String> = Vec::new();
        let mut i: usize = 0;
        while i < self.terms.len()
            invariant
                i <= self.terms.len(),
                r.deep_view() == preview_terms(self@.take(i as int)),
            decreases self.terms.len() - i,
        {
            assert(self@.take(i as int + 1).drop_last() =~= self@.take(i as int));
            match &self.terms[i] {
                SearchTerm::AnyText(p) => r.push(p.original.clone()),
                _ => {},
            }
            i += 1;
            assert(r.deep_view() =~= preview_terms(self@.take(i as int)));
        }
        assert(self@.take(i as int) =~= self@);
        r
    }

    /// The texts to highlight in tags: those of text terms and tag terms.
    pub fn tag_highlight_terms(&self) -> (r: Vec<String>)
        ensures
            r.deep_view() == tag_terms(self@),
    {
        let mut r: Vec<String> = Vec::new();
        let mut i: usize = 0;
        while i < self.terms.len()
            invariant
                i <= self.terms.len(),
                r.deep_view() == tag_terms(self@.take(i as int)),
            decreases self.terms.len() - i,
        {
            assert(self@.take(i as int + 1).drop_last() =~= self@.take(i as int));
            match &self.terms[i] {
                SearchTerm::AnyText(p) => r.push(p.original.clone()),
                SearchTerm::Tag(t) => r.push(t.clone()),
                _ => {},
            }
            i += 1;
            assert(r.deep_view() =~= tag_terms(self@.take(i as int)));
        }
        assert(self@.take(i as int) =~= self@);
        r
    }
}

/// From `p` on, a text holding no double quote before `end`, with one at
/// `end`, has its first double quote at `end`.
proof fn lemma_first_quote_at(raw: Seq<char>, p: int, end: int)
    requires
        0 <= p <= end < raw.len(),
        raw[end] == '"',
        forall|k: int| p <= k < end ==> raw[k] != '"',
    ensures
        first_quote_from(raw, p) == end,
    decreases end - p,
{
    if p < end {
        lemma_first_quote_at(raw, p + 1, end);
    }
}

/// A quoted `title:` value runs to the closing quote, spaces included: for
/// any text `v` without double quotes, the search `title:"v"` holds exactly
/// one title term, the trimmed `v`, when that is not blank, and no term
/// otherwise.
pub proof fn lemma_quoted_title_value(v: Seq<char>)
    requires
        forall|k: int| 0 <= k < v.len() ==> v[k] != '"',
    ensures
        trim_seq(v).len() > 0 ==> parse_terms("title:"@ + seq!['"'] + v + seq!['"'])
            == seq![TermSpec::Title(trim_seq(v))],
        trim_seq(v).len() == 0 ==> parse_terms("title:"@ + seq!['"'] + v + seq!['"'])
            == Seq::<TermSpec>::empty(),
{
    reveal_strlit("title:");
    let raw = "title:"@ + seq!['"'] + v + seq!['"'];
    let n = v.len() as int;
    assert(raw.len() == n + 8);
    assert(forall|k: int| 0 <= k < n ==> raw[7 + k] == v[k]);
    assert(raw[6] == '"');
    assert(raw[n + 7] == '"');
    assert(raw.subrange(0, 6) =~= "title:"@);
    assert(scoped_at(raw, 0, "title:"@));
    assert forall|k: int| 7 <= k < n + 7 implies raw[k] != '"' by {
        assert(raw[k] == v[k - 7]);
    }
    lemma_first_quote_at(raw, 7, n + 7);
    assert(raw.subrange(7, n + 7) =~= v);
    assert(value_at(raw, 6) == (v, n + 8));
    let e = Seq::<char>::empty();
    assert(trim_start_seq(e) == e);
    assert(trim_end_seq(e) == e);
    assert(flush_plain(e, Seq::<TermSpec>::empty()) == Seq::<TermSpec>::empty());
    let after = if trim_seq(v).len() > 0 {
        Seq::<TermSpec>::empty().push(TermSpec::Title(trim_seq(v)))
    } else {
        Seq::<TermSpec>::empty()
    };
    assert(parse_from(raw, 0, e, Seq::empty()) == parse_from(raw, n + 8, e, after));
    assert(parse_from(raw, n + 8, e, after) == after);
    assert(after =~= (if trim_seq(v).len() > 0 {
        seq![TermSpec::Title(trim_seq(v))]
    } else {
        Seq::<TermSpec>::empty()
    }));
}


/// A quoted `tag:` value runs to the closing quote, spaces included: for any
/// text `v` without double quotes, the search `tag:"v"` holds exactly one tag
/// term, the trimmed `v`, when that is not blank, and no term otherwise.
pub proof fn lemma_quoted_tag_value(v: Seq<char>)
    requires
        forall|k: int| 0 <= k < v.len() ==> v[k] != '"',
    ensures
        trim_seq(v).len() > 0 ==> parse_terms("tag:"@ + seq!['"'] + v + seq!['"'])
            == seq![TermSpec::Tag(trim_seq(v))],
        trim_seq(v).len() == 0 ==> parse_terms("tag:"@ + seq!['"'] + v + seq!['"'])
            == Seq::<TermSpec>::empty(),
{
    reveal_strlit("tag:");
    reveal_strlit("title:");
    let raw = "tag:"@ + seq!['"'] + v + seq!['"'];
    let n = v.len() as int;
    assert(raw.len() == n + 6);
    assert(forall|k: int| 0 <= k < n ==> raw[5 + k] == v[k]);
    assert(raw[4] == '"');
    assert(raw[n + 5] == '"');
    assert(raw.subrange(0, 4) =~= "tag:"@);
    assert(raw[2] != "title:"@[2]);
    assert(!scoped_at(raw, 0, "title:"@));
    assert(scoped_at(raw, 0, "tag:"@));
    assert forall|k: int| 5 <= k < n + 5 implies raw[k] != '"' by {
        assert(raw[k] == v[k - 5]);
    }
    lemma_first_quote_at(raw, 5, n + 5);
    assert(raw.subrange(5, n + 5) =~= v);
    assert(value_at(raw, 4) == (v, n + 6));
    let e = Seq::<char>::empty();
    assert(trim_start_seq(e) == e);
    assert(trim_end_seq(e) == e);
    assert(flush_plain(e, Seq::<TermSpec>::empty()) == Seq::<TermSpec>::empty());
    let after = if trim_seq(v).len() > 0 {
        Seq::<TermSpec>::empty().push(TermSpec::Tag(trim_seq(v)))
    } else {
        Seq::<TermSpec>::empty()
    };
    assert(parse_from(raw, 0, e, Seq::empty()) == parse_from(raw, n + 6, e, after));
    assert(parse_from(raw, n + 6, e, after) == after);
    assert(after =~= (if trim_seq(v).len() > 0 {
        seq![TermSpec::Tag(trim_seq(v))]
    } else {
        Seq::<TermSpec>::empty()
    }));
}

/// A quoted phrase is one text term: for any text `v` without double quotes,
/// the search `"v"` holds exactly one text term, the trimmed `v`, when that
/// is not blank, and no term otherwise.
pub proof fn lemma_quoted_phrase(v: Seq<char>)
    requires
        forall|k: int| 0 <= k < v.len() ==> v[k] != '"',
    ensures
        trim_seq(v).len() > 0 ==> parse_terms(seq!['"'] + v + seq!['"'])
            == seq![TermSpec::AnyText(trim_seq(v))],
        trim_seq(v).len() == 0 ==> parse_terms(seq!['"'] + v + seq!['"'])
            == Seq::<TermSpec>::empty(),
{
    reveal_strlit("tag:");
    reveal_strlit("title:");
    reveal_strlit("is:");
    let raw = seq!['"'] + v + seq!['"'];
    let n = v.len() as int;
    assert(raw.len() == n + 2);
    assert(forall|k: int| 0 <= k < n ==> raw[1 + k] == v[k]);
    assert(raw[0] == '"');
    assert(raw[n + 1] == '"');
    assert(!occurs_at(raw, "title:"@, 0)) by {
        if occurs_at(raw, "title:"@, 0) {
            assert(raw.subrange(0, 6)[0] == raw[0]);
        }
    }
    assert(!occurs_at(raw, "tag:"@, 0)) by {
        if occurs_at(raw, "tag:"@, 0) {
            assert(raw.subrange(0, 4)[0] == raw[0]);
        }
    }
    assert(!occurs_at(raw, "is:"@, 0)) by {
        if occurs_at(raw, "is:"@, 0) {
            assert(raw.subrange(0, 3)[0] == raw[0]);
        }
    }
    assert forall|k: int| 1 <= k < n + 1 implies raw[k] != '"' by {
        assert(raw[k] == v[k - 1]);
    }
    lemma_first_quote_at(raw, 1, n + 1);
    assert(raw.subrange(1, n + 1) =~= v);
    assert(quoted_at(raw, 0) == (v, n + 2));
    let e = Seq::<char>::empty();
    assert(e + v =~= v);
    assert(parse_from(raw, 0, e, Seq::empty()) == parse_from(raw, n + 2, v, Seq::empty()));
    assert(parse_from(raw, n + 2, v, Seq::empty()) == flush_plain(v, Seq::empty()));
    assert(flush_plain(v, Seq::empty()) =~= (if trim_seq(v).len() > 0 {
        seq![TermSpec::AnyText(trim_seq(v))]
    } else {
        Seq::<TermSpec>::empty()
    }));
}


/// Each kind of term reads only its part of a note: a `title:` term only the
/// title, a `tag:` term only the tags, `is:pinned` only the pin; and a plain
/// text term matches whenever a `title:` term with the same text does, or a
/// tag contains its text.
pub proof fn lemma_terms_read_their_part(a: NoteView, b: NoteView, p: Seq<char>)
    ensures
        a.title == b.title ==> term_matches(TermSpec::Title(p), a) == term_matches(
            TermSpec::Title(p),
            b,
        ),
        a.tags == b.tags ==> term_matches(TermSpec::Tag(p), a) == term_matches(
            TermSpec::Tag(p),
            b,
        ),
        a.is_pinned == b.is_pinned ==> term_matches(TermSpec::IsPinned, a) == term_matches(
            TermSpec::IsPinned,
            b,
        ),
        term_matches(TermSpec::IsPinned, a) == a.is_pinned,
        term_matches(TermSpec::Title(p), a) ==> term_matches(TermSpec::AnyText(p), a),
        contains_folded(a.content, p) ==> term_matches(TermSpec::AnyText(p), a),
        (exists|j: int| 0 <= j < a.tags.len() && contains_folded(a.tags[j], p)) ==> term_matches(
            TermSpec::AnyText(p),
            a,
        ),
        !contains_folded(a.title, p) ==> !term_matches(TermSpec::Title(p), a),
{
}

} // verus!
