//! Notes and the points in time they record.
use vstd::prelude::*;
use crate::text::{
    chars_of, first_line, first_line_seq, string_from, string_of, trim, trim_seq, words, words_seq,
};

verus! {

broadcast use vstd::string::group_string_axioms;

/// Earliest second that a UTC date-time can hold (January 1, 262144 BCE).
pub const MIN_TIMESTAMP_SECS: i64 = -8334601315200i64;

/// Latest second that a UTC date-time can hold (December 31, 262142 CE).
pub const MAX_TIMESTAMP_SECS: i64 = 8210266876799i64;

/// Seconds and sub-second nanoseconds that denote a representable UTC instant.
pub open spec fn timestamp_parts_valid(secs: i64, nanos: u32) -> bool {
    MIN_TIMESTAMP_SECS <= secs <= MAX_TIMESTAMP_SECS && nanos < 1_000_000_000
}

/// An instant in UTC: whole seconds since the Unix epoch plus nanoseconds.
#[derive(Debug, Clone, Copy, PartialEq, Eq, Hash, Structural)]
pub struct Timestamp {
    secs: i64,
    nanos: u32,
}

/// What formatting an instant with a `strftime`-style pattern gives.
pub uninterp spec fn utc_format(secs: i64, nanos: u32, pattern: Seq<char>) -> Seq<char>;

/// The patterns used to show dates in this library.
pub open spec fn is_date_pattern(pattern: Seq<char>) -> bool {
    pattern == "%d/%m/%Y"@ || pattern == "%Y-%m-%d"@
}

/// Formats an instant with a `strftime`-style pattern
/// (`chrono::DateTime::from_timestamp` followed by `format`). The result is
/// named by `utc_format`; the call is only made for representable instants
/// and for the date patterns used here, for which it neither fails nor
/// panics.
#[verifier::external_body]
fn utc_format_parts(secs: i64, nanos: u32, pattern: &str) -> (r: String)
    requires
        timestamp_parts_valid(secs, nanos),
        is_date_pattern(pattern@),
    ensures
        r@ == utc_format(secs, nanos, pattern@),
{
    match chrono::DateTime::from_timestamp(secs, nanos) {
        Some(at) => at.format(pattern).to_string(),
        None => String::new(),
    }
}

impl Timestamp {
    #[verifier::type_invariant]
    spec fn representable(self) -> bool {
        timestamp_parts_valid(self.secs, self.nanos)
    }

    pub closed spec fn spec_secs(self) -> i64 {
        self.secs
    }

    pub closed spec fn spec_nanos(self) -> u32 {
        self.nanos
    }

    /// The instant with the given parts, where they are representable.
    pub fn from_parts(secs: i64, nanos: u32) -> (r: Option<Timestamp>)
        ensures
            r is Some <==> timestamp_parts_valid(secs, nanos),
            r matches Some(t) ==> t.spec_secs() == secs && t.spec_nanos() == nanos,
    {
        if MIN_TIMESTAMP_SECS <= secs && secs <= MAX_TIMESTAMP_SECS && nanos < 1_000_000_000 {
            Some(Timestamp { secs, nanos })
        } else {
            None
        }
    }

    /// Whole seconds since the Unix epoch.
    pub fn secs(&self) -> (s: i64)
        ensures
            s == self.spec_secs(),
            timestamp_parts_valid(self.spec_secs(), self.spec_nanos()),
    {
        proof {
            use_type_invariant(self);
        }
        self.secs
    }

    /// Nanoseconds past the whole second.
    pub fn subsec_nanos(&self) -> (n: u32)
        ensures
            n == self.spec_nanos(),
            timestamp_parts_valid(self.spec_secs(), self.spec_nanos()),
    {
        proof {
            use_type_invariant(self);
        }
        self.nanos
    }

    /// This instant shifted by a whole number of seconds, where the result
    /// stays representable.
    pub fn plus_seconds(&self, delta: i64) -> (r: Option<Timestamp>)
        ensures
            r is Some <==> timestamp_parts_valid(
                (self.spec_secs() + delta) as i64,
                self.spec_nanos(),
            ) && MIN_TIMESTAMP_SECS <= self.spec_secs() + delta <= MAX_TIMESTAMP_SECS,
            r matches Some(t) ==> t.spec_secs() == self.spec_secs() + delta && t.spec_nanos()
                == self.spec_nanos(),
    {
        let secs = self.secs();
        let nanos = self.subsec_nanos();
        if delta >= 0 {
            if secs > MAX_TIMESTAMP_SECS - delta {
                return None;
            }
        } else {
            if secs < MIN_TIMESTAMP_SECS - delta {
                return None;
            }
        }
        Timestamp::from_parts(secs + delta, nanos)
    }

    /// The date of this instant in the given pattern.
    pub fn format_date(&self, pattern: &str) -> (r: String)
        requires
            is_date_pattern(pattern@),
        ensures
            r@ == utc_format(self.spec_secs(), self.spec_nanos(), pattern@),
    {
        let secs = self.secs();
        let nanos = self.subsec_nanos();
        utc_format_parts(secs, nanos, pattern)
    }
}

/// `a` is strictly earlier than `b`.
pub open spec fn earlier(a: Timestamp, b: Timestamp) -> bool {
    a.spec_secs() < b.spec_secs() || (a.spec_secs() == b.spec_secs() && a.spec_nanos()
        < b.spec_nanos())
}

pub fn is_earlier(a: &Timestamp, b: &Timestamp) -> (r: bool)
    ensures
        r == earlier(*a, *b),
{
    let (sa, sb) = (a.secs(), b.secs());
    sa < sb || (sa == sb && a.subsec_nanos() < b.subsec_nanos())
}

pub fn same_instant(a: &Timestamp, b: &Timestamp) -> (r: bool)
    ensures
        r == (a.spec_secs() == b.spec_secs() && a.spec_nanos() == b.spec_nanos()),
{
    a.secs() == b.secs() && a.subsec_nanos() == b.subsec_nanos()
}

/// A fresh random identifier (`uuid::Uuid::new_v4().as_u128()`). Of every
/// value it returns, the version nibble reads 4 and the variant bits read
/// `10`.
#[verifier::external_body]
fn random_note_id() -> (id: u128)
    ensures
        id & 0xF000_C000_0000_0000_0000u128 == 0x4000_8000_0000_0000_0000u128,
{
    uuid::Uuid::new_v4().as_u128()
}

/// A note: a title, Markdown content, tags and a pin.
#[derive(Debug, Clone, PartialEq, Eq)]
pub struct Note {
    pub id: u128,
    pub title: String,
    pub content: String,
    pub created: Timestamp,
    pub last_modified: Timestamp,
    pub tags: Vec<String>,
    pub is_pinned: bool,
}

/// The content of a note, as mathematical values.
pub struct NoteView {
    pub id: u128,
    pub title: Seq<char>,
    pub content: Seq<char>,
    pub created: Timestamp,
    pub last_modified: Timestamp,
    pub tags: Seq<Seq<char>>,
    pub is_pinned: bool,
}

impl View for Note {
    type V = NoteView;

    open spec fn view(&self) -> NoteView {
        NoteView {
            id: self.id,
            title: self.title@,
            content: self.content@,
            created: self.created,
            last_modified: self.last_modified,
            tags: self.tags.deep_view(),
            is_pinned: self.is_pinned,
        }
    }
}

/// The views of a sequence of notes.
pub open spec fn notes_view(notes: Seq<Note>) -> Seq<NoteView> {
    notes.map_values(|n: Note| n@)
}

/// The title shown for a note: its trimmed title, or "New Note" when blank.
pub open spec fn display_title_seq(title: Seq<char>) -> Seq<char> {
    if trim_seq(title).len() == 0 {
        "New Note"@
    } else {
        trim_seq(title)
    }
}

/// The one-line preview of a note's content: its first line, cut to 47
/// characters and an ellipsis when longer than 50 characters.
pub open spec fn preview_seq(content: Seq<char>) -> Seq<char> {
    let line = match first_line_seq(content) {
        Some(l) => l,
        None => "No additional text"@,
    };
    if line.len() > 50 {
        line.take(47) + "..."@
    } else {
        line
    }
}

/// A copy of a list of strings.
pub fn copy_strings(v: &[String]) -> (r: Vec<String>)
    ensures
        r.deep_view() == v.deep_view(),
        r@ == v@,
{
    let mut r: Vec<String> = Vec::new();
    let mut i: usize = 0;
    while i < v.len()
        invariant
            i <= v.len(),
            r@ == v@.take(i as int),
        decreases v.len() - i,
    {
        r.push(v[i].clone());
        i += 1;
        assert(r@ =~= v@.take(i as int));
    }
    assert(v@.take(v.len() as int) =~= v@);
    assert(r.deep_view() =~= v.deep_view());
    r
}

impl Note {
    /// A fresh unpinned, untagged note created and modified at `now`.
    pub fn new(title: String, content: String, now: Timestamp) -> (r: Note)
        ensures
            r.created == now,
            r.title@ == title@,
            r.content@ == content@,
            r.tags@.len() == 0,
            !r.is_pinned,
            r.created == r.last_modified,
            r.id & 0xF000_C000_0000_0000_0000u128 == 0x4000_8000_0000_0000_0000u128,
    {
        Note {
            id: random_note_id(),
            title,
            content,
            created: now,
            last_modified: now,
            tags: Vec::new(),
            is_pinned: false,
        }
    }

    /// A field-by-field copy of this note.
    pub fn duplicate(&self) -> (r: Note)
        ensures
            r@ == self@,
            r.tags@ == self.tags@,
    {
        let tags = copy_strings(&self.tags);
        assert(tags@ =~= self.tags@);
        Note {
            id: self.id,
            title: self.title.clone(),
            content: self.content.clone(),
            created: self.created,
            last_modified: self.last_modified,
            tags,
            is_pinned: self.is_pinned,
        }
    }

    /// The trimmed title, or "New Note" for a blank one.
    pub fn display_title(&self) -> (r: String)
        ensures
            r@ == display_title_seq(self.title@),
    {
        let t = trim(self.title.as_str());
        if t.as_str().is_empty() {
            String::from_str("New Note")
        } else {
            t
        }
    }

    /// The day of the last modification, as `DD/MM/YYYY`.
    pub fn display_date(&self) -> (r: String)
        ensures
            r@ == utc_format(
                self.last_modified.spec_secs(),
                self.last_modified.spec_nanos(),
                "%d/%m/%Y"@,
            ),
    {
        self.last_modified.format_date("%d/%m/%Y")
    }

    /// The first line of the content, shortened to at most 50 characters.
    pub fn preview(&self) -> (r: String)
        ensures
            r@ == preview_seq(self.content@),
    {
        let content = chars_of(self.content.as_str());
        let line = match first_line(&content) {
            Some(l) => l,
            None => chars_of("No additional text"),
        };
        if line.len() > 50 {
            let mut r = string_of(&line, 0, 47);
            r.append("...");
            r
        } else {
            string_from(&line)
        }
    }

    /// The number of whitespace-separated words in the content.
    pub fn word_count(&self) -> (n: usize)
        ensures
            n == words_seq(self.content@).len(),
    {
        let content = chars_of(self.content.as_str());
        let w = words(&content);
        w.len()
    }

    /// The number of characters in the content.
    pub fn character_count(&self) -> (n: usize)
        ensures
            n == self.content@.len(),
    {
        let content = chars_of(self.content.as_str());
        content.len()
    }
}

/// A copy of every note, in order.
pub fn copy_notes(notes: &[Note]) -> (r: Vec<Note>)
    ensures
        notes_view(r@) == notes_view(notes@),
{
    let mut copy: Vec<Note> = Vec::new();
    let mut i: usize = 0;
    while i < notes.len()
        invariant
            i <= notes.len(),
            notes_view(copy@) == notes_view(notes@).take(i as int),
        decreases notes.len() - i,
    {
        let n = notes[i].duplicate();
        let ghost before = notes_view(copy@);
        copy.push(n);
        assert(notes_view(copy@) =~= before.push(notes@[i as int]@));
        i += 1;
        assert(notes_view(copy@) =~= notes_view(notes@).take(i as int));
    }
    assert(notes_view(notes@).take(i as int) =~= notes_view(notes@));
    copy
}

/// Position of the first note with the given identifier.
pub open spec fn index_of_id(notes: Seq<NoteView>, id: u128) -> Option<int> {
    if exists|i: int| 0 <= i < notes.len() && notes[i].id == id {
        Some(
            choose|i: int|
                0 <= i < notes.len() && notes[i].id == id && forall|k: int|
                    0 <= k < i ==> (#[trigger] notes[k]).id != id,
        )
    } else {
        None
    }
}

/// Position of the first note with the given identifier.
pub fn find_note_index(notes: &[Note], id: u128) -> (r: Option<usize>)
    ensures
        match r {
            Some(i) => index_of_id(notes_view(notes@), id) == Some(i as int) && i < notes.len()
                && notes@[i as int].id == id,
            None => index_of_id(notes_view(notes@), id) is None,
        },
{
    let ghost nv = notes_view(notes@);
    let mut i: usize = 0;
    while i < notes.len()
        invariant
            i <= notes.len(),
            nv == notes_view(notes@),
            forall|k: int| 0 <= k < i ==> (#[trigger] nv[k]).id != id,
        decreases notes.len() - i,
    {
        assert(nv[i as int] == notes@[i as int]@);
        if notes[i].id == id {
            proof {
                let w = choose|w: int|
                    0 <= w < nv.len() && nv[w].id == id && forall|k: int|
                        0 <= k < w ==> (#[trigger] nv[k]).id != id;
                if w < i {
                } else if w > i {
                    assert(nv[i as int].id != id);
                }
            }
            return Some(i);
        }
        i += 1;
    }
    None
}

pub proof fn lemma_notes_view_update(notes: Seq<Note>, k: int, n: Note)
    requires
        0 <= k < notes.len(),
    ensures
        notes_view(notes.update(k, n)) == notes_view(notes).update(k, n@),
{
    assert(notes_view(notes.update(k, n)) =~= notes_view(notes).update(k, n@));
}

} // verus!
