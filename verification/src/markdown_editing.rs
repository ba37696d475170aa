//! Markdown formatting commands applied to a browser text selection.
//!
//! Browsers count selection offsets in UTF-16 code units; strings are
//! sliced at UTF-8 character boundaries. An offset that falls inside a
//! character is moved back to the start of that character.
use vstd::prelude::*;
use crate::text::{
    char_utf16_len, char_utf8_len, chars_of, len_utf16, len_utf8, lemma_encode_utf8_len,
    lemma_utf16_len_mono, lemma_utf8_len_mono, push_range, utf16_len, utf8_len,
};

verus! {

broadcast use vstd::string::group_string_axioms;

/// A formatting command of the editor's toolbar.
#[derive(Debug, Clone, Copy, PartialEq, Eq, Structural)]
pub enum MarkdownCommand {
    Bold,
    Italic,
    Strikethrough,
    TaskList,
    Table,
}

/// The text a command inserts before and after the selection.
pub open spec fn command_affixes(command: MarkdownCommand) -> (Seq<char>, Seq<char>) {
    match command {
        MarkdownCommand::Bold => ("**"@, "**"@),
        MarkdownCommand::Italic => ("*"@, "*"@),
        MarkdownCommand::Strikethrough => ("~~"@, "~~"@),
        MarkdownCommand::TaskList => ("- [ ] "@, ""@),
        MarkdownCommand::Table => (
            "\n| Column 1 | Column 2 |\n| --- | --- |\n| Value 1 | Value 2 |\n"@,
            ""@,
        ),
    }
}

impl MarkdownCommand {
    fn affixes(self) -> (r: (&'static str, &'static str))
        ensures
            (r.0@, r.1@) == command_affixes(self),
    {
        match self {
            MarkdownCommand::Bold => ("**", "**"),
            MarkdownCommand::Italic => ("*", "*"),
            MarkdownCommand::Strikethrough => ("~~", "~~"),
            MarkdownCommand::TaskList => ("- [ ] ", ""),
            MarkdownCommand::Table => (
                "\n| Column 1 | Column 2 |\n| --- | --- |\n| Value 1 | Value 2 |\n",
                "",
            ),
        }
    }
}

/// A section of the Markdown cheatsheet: a title and example lines.
#[derive(Debug, Clone, PartialEq, Eq)]
pub struct MarkdownCheatsheetSection {
    pub title: &'static str,
    pub items: Vec<&'static str>,
}

/// The sections of the Markdown cheatsheet, as titles and example lines.
pub open spec fn cheatsheet() -> Seq<(Seq<char>, Seq<Seq<char>>)> {
    seq![
        ("Headings"@, seq!["# Heading 1"@, "## Heading 2"@, "### Heading 3"@, "#### Heading 4"@, "##### Heading 5"@, "###### Heading 6"@]),
        ("Emphasis"@, seq!["**bold** or __bold__"@, "*italic* or _italic_"@, "***bold italic***"@, "~~strikethrough~~"@]),
        ("Lists"@, seq!["- Unordered item"@, "* Also unordered"@, "1. Ordered item"@, "   - Nested item"@]),
        ("Task Lists"@, seq!["- [ ] To do"@, "- [x] Done"@]),
        ("Links & Images"@, seq!["[Link text](https://example.com)"@, "<https://example.com>"@, "![Alt text](https://example.com/image.png)"@]),
        ("Code"@, seq!["`inline code`"@, "```rust"@, "fn main() { println!(\"hi\"); }"@, "```"@]),
        ("Quotes & Rules"@, seq!["> Blockquote"@, "> Nested quote"@, "--- (horizontal rule)"@]),
        ("Tables"@, seq!["| Name | Value |"@, "| --- | --- |"@, "| Foo | Bar |"@]),
        ("Footnotes"@, seq!["Reference[^1]"@, "[^1]: Footnote text"@]),
        ("Line Breaks"@, seq!["End line with two spaces  "@, "or use a blank line between paragraphs"@]),
        ("Escaping"@, seq!["\\*literal asterisks\\*"@, "\\# literal heading marker"@]),
        ("Safety"@, seq!["Raw HTML is displayed as text for safety."@]),
    ]
}

pub open spec fn section_view(s: MarkdownCheatsheetSection) -> (Seq<char>, Seq<Seq<char>>) {
    (s.title@, s.items@.map_values(|i: &'static str| i@))
}

/// The titles of the cheatsheet's core sections: the formats most used while
/// writing; the other sections are extended syntax.
pub open spec fn core_section_titles() -> Seq<Seq<char>> {
    seq!["Headings"@, "Emphasis"@, "Lists"@, "Links & Images"@, "Code"@, "Quotes & Rules"@]
}

/// Whether a cheatsheet section belongs to the core syntax.
pub fn is_core_section(section: &MarkdownCheatsheetSection) -> (r: bool)
    ensures
        r == core_section_titles().contains(section.title@),
{
    let t = section.title;
    let r = crate::text::str_equal(t, "Headings") || crate::text::str_equal(t, "Emphasis")
        || crate::text::str_equal(t, "Lists") || crate::text::str_equal(t, "Links & Images")
        || crate::text::str_equal(t, "Code") || crate::text::str_equal(t, "Quotes & Rules");
    proof {
        let titles = core_section_titles();
        if titles.contains(t@) {
            let i = choose|i: int| 0 <= i < titles.len() && titles[i] == t@;
            assert(i == 0 || i == 1 || i == 2 || i == 3 || i == 4 || i == 5);
        }
        if r {
            if t@ == "Headings"@ { assert(titles[0] == t@); }
            if t@ == "Emphasis"@ { assert(titles[1] == t@); }
            if t@ == "Lists"@ { assert(titles[2] == t@); }
            if t@ == "Links & Images"@ { assert(titles[3] == t@); }
            if t@ == "Code"@ { assert(titles[4] == t@); }
            if t@ == "Quotes & Rules"@ { assert(titles[5] == t@); }
        }
    }
    r
}

/// The sections of the Markdown cheatsheet shown in the editor.
pub fn markdown_cheatsheet_sections() -> (r: Vec<MarkdownCheatsheetSection>)
    ensures
        r@.map_values(|s: MarkdownCheatsheetSection| section_view(s)) == cheatsheet(),
{
    let mut r: Vec<MarkdownCheatsheetSection> = Vec::new();
    r.push(MarkdownCheatsheetSection {
        title: "Headings",
        items: vec!["# Heading 1", "## Heading 2", "### Heading 3", "#### Heading 4", "##### Heading 5", "###### Heading 6"],
    });
    r.push(MarkdownCheatsheetSection {
        title: "Emphasis",
        items: vec!["**bold** or __bold__", "*italic* or _italic_", "***bold italic***", "~~strikethrough~~"],
    });
    r.push(MarkdownCheatsheetSection {
        title: "Lists",
        items: vec!["- Unordered item", "* Also unordered", "1. Ordered item", "   - Nested item"],
    });
    r.push(MarkdownCheatsheetSection {
        title: "Task Lists",
        items: vec!["- [ ] To do", "- [x] Done"],
    });
    r.push(MarkdownCheatsheetSection {
        title: "Links & Images",
        items: vec!["[Link text](https://example.com)", "<https://example.com>", "![Alt text](https://example.com/image.png)"],
    });
    r.push(MarkdownCheatsheetSection {
        title: "Code",
        items: vec!["`inline code`", "```rust", "fn main() { println!(\"hi\"); }", "```"],
    });
    r.push(MarkdownCheatsheetSection {
        title: "Quotes & Rules",
        items: vec!["> Blockquote", "> Nested quote", "--- (horizontal rule)"],
    });
    r.push(MarkdownCheatsheetSection {
        title: "Tables",
        items: vec!["| Name | Value |", "| --- | --- |", "| Foo | Bar |"],
    });
    r.push(MarkdownCheatsheetSection {
        title: "Footnotes",
        items: vec!["Reference[^1]", "[^1]: Footnote text"],
    });
    r.push(MarkdownCheatsheetSection {
        title: "Line Breaks",
        items: vec!["End line with two spaces  ", "or use a blank line between paragraphs"],
    });
    r.push(MarkdownCheatsheetSection {
        title: "Escaping",
        items: vec!["\\*literal asterisks\\*", "\\# literal heading marker"],
    });
    r.push(MarkdownCheatsheetSection {
        title: "Safety",
        items: vec!["Raw HTML is displayed as text for safety."],
    });
    proof {
        let c = cheatsheet();
        assert forall|k: int| 0 <= k < 12 implies section_view(#[trigger] r@[k]) == c[k] by {
            assert(r@[k].items@.map_values(|i: &'static str| i@) =~= c[k].1);
        }
    }
    assert(r@.map_values(|s: MarkdownCheatsheetSection| section_view(s)) =~= cheatsheet());
    r
}

/// A selection as the browser reports it, in UTF-16 code units.
#[derive(Debug, Clone, Copy, PartialEq, Eq, Structural)]
pub struct BrowserSelection {
    pub start_utf16: usize,
    pub end_utf16: usize,
}

/// The formatted text and where the caret goes, in UTF-16 code units.
#[derive(Debug, Clone, PartialEq, Eq)]
pub struct FormattingResult {
    pub content: String,
    pub caret_utf16: usize,
}

// ---------------------------------------------------------------------------
// Offsets
// ---------------------------------------------------------------------------

/// From position `k` on, the number of characters whose UTF-16 length fits
/// in `idx` units.
pub open spec fn utf16_floor_from(s: Seq<char>, idx: int, k: int) -> int
    decreases s.len() - k,
{
    if 0 <= k < s.len() && utf16_len(s.take(k + 1)) <= idx {
        utf16_floor_from(s, idx, k + 1)
    } else {
        k
    }
}

/// The number of leading characters that fit in `idx` UTF-16 units.
pub open spec fn utf16_floor(s: Seq<char>, idx: int) -> int {
    utf16_floor_from(s, idx, 0)
}

/// The byte offset of the character boundary at or before UTF-16 offset `idx`.
pub open spec fn utf16_to_byte(s: Seq<char>, idx: int) -> nat {
    utf8_len(s.take(utf16_floor(s, idx)))
}

/// From position `k` on, the number of characters whose UTF-8 length fits
/// in `b` bytes.
pub open spec fn utf8_floor_from(s: Seq<char>, b: int, k: int) -> int
    decreases s.len() - k,
{
    if 0 <= k < s.len() && utf8_len(s.take(k + 1)) <= b {
        utf8_floor_from(s, b, k + 1)
    } else {
        k
    }
}

/// The number of leading characters that fit in `b` bytes: the character
/// boundary at or before byte `b`, clamped to the text.
pub open spec fn utf8_floor(s: Seq<char>, b: int) -> int {
    utf8_floor_from(s, b, 0)
}

pub proof fn lemma_utf16_floor_from(s: Seq<char>, idx: int, k: int)
    requires
        0 <= k <= s.len(),
    ensures
        k <= utf16_floor_from(s, idx, k) <= s.len(),
    decreases s.len() - k,
{
    if k < s.len() && utf16_len(s.take(k + 1)) <= idx {
        lemma_utf16_floor_from(s, idx, k + 1);
    }
}

pub proof fn lemma_utf8_floor_from(s: Seq<char>, b: int, k: int)
    requires
        0 <= k <= s.len(),
    ensures
        k <= utf8_floor_from(s, b, k) <= s.len(),
    decreases s.len() - k,
{
    if k < s.len() && utf8_len(s.take(k + 1)) <= b {
        lemma_utf8_floor_from(s, b, k + 1);
    }
}

/// The byte length of a string is the UTF-8 length of its characters.
fn byte_len(s: &str) -> (n: usize)
    ensures
        n == utf8_len(s@),
{
    proof {
        lemma_encode_utf8_len(s@);
    }
    let b = s.as_bytes();
    b.len()
}

/// The byte offset of the character boundary at or before the UTF-16
/// offset `utf16_index` (the end of the text when past it).
pub fn utf16_index_to_byte_index(content: &str, utf16_index: usize) -> (r: usize)
    ensures
        r == utf16_to_byte(content@, utf16_index as int),
{
    let total = byte_len(content);
    let v = chars_of(content);
    let mut k: usize = 0;
    let mut units: usize = 0;
    let mut bytes: usize = 0;
    while k < v.len()
        invariant
            k <= v.len(),
            v@ == content@,
            total == utf8_len(v@),
            units == utf16_len(v@.take(k as int)),
            units <= utf16_index,
            bytes == utf8_len(v@.take(k as int)),
            utf16_floor(v@, utf16_index as int) == utf16_floor_from(v@, utf16_index as int, k as int),
        decreases v.len() - k,
    {
        proof {
            assert(v@.take(k + 1).drop_last() =~= v@.take(k as int));
            assert(v@.take(k + 1).last() == v@[k as int]);
            lemma_utf8_len_mono(v@, k + 1, v@.len() as int);
            assert(v@.take(v@.len() as int) =~= v@);
        }
        let l = len_utf16(v[k]);
        if l > utf16_index - units {
            return bytes;
        }
        units = units + l;
        bytes = bytes + len_utf8(v[k]);
        k += 1;
    }
    assert(v@.take(k as int) =~= v@);
    bytes
}

/// Both UTF-16 offsets as byte offsets, the smaller first.
pub fn utf16_range_to_byte_range(content: &str, start_utf16: usize, end_utf16: usize) -> (r: (
    usize,
    usize,
))
    ensures
        ({
            let (a, b) = (
                utf16_to_byte(content@, start_utf16 as int),
                utf16_to_byte(content@, end_utf16 as int),
            );
            if a <= b {
                r.0 == a && r.1 == b
            } else {
                r.0 == b && r.1 == a
            }
        }),
{
    let start_byte = utf16_index_to_byte_index(content, start_utf16);
    let end_byte = utf16_index_to_byte_index(content, end_utf16);
    if start_byte <= end_byte {
        (start_byte, end_byte)
    } else {
        (end_byte, start_byte)
    }
}

/// The number of leading characters of `v` that fit in `b` bytes.
fn char_floor(v: &Vec<char>, b: usize) -> (k: usize)
    ensures
        k == utf8_floor(v@, b as int),
        k <= v.len(),
{
    proof {
        lemma_utf8_floor_from(v@, b as int, 0);
    }
    let mut k: usize = 0;
    let mut bytes: usize = 0;
    while k < v.len()
        invariant
            k <= v.len(),
            bytes == utf8_len(v@.take(k as int)),
            bytes <= b,
            utf8_floor(v@, b as int) == utf8_floor_from(v@, b as int, k as int),
        decreases v.len() - k,
    {
        proof {
            assert(v@.take(k + 1).drop_last() =~= v@.take(k as int));
            assert(v@.take(k + 1).last() == v@[k as int]);
        }
        let l = len_utf8(v[k]);
        if l > b - bytes {
            return k;
        }
        bytes = bytes + l;
        k += 1;
    }
    k
}

// ---------------------------------------------------------------------------
// Formatting
// ---------------------------------------------------------------------------

/// The text with `prefix` and `suffix` put around the characters between the
/// byte offsets `start` and `end` (either order), each first moved back to a
/// character boundary and clamped to the text.
pub open spec fn format_text_spec(
    content: Seq<char>,
    start: int,
    end: int,
    prefix: Seq<char>,
    suffix: Seq<char>,
) -> Seq<char> {
    let a = utf8_floor(content, start);
    let b = utf8_floor(content, end);
    let (lo, hi) = if a <= b {
        (a, b)
    } else {
        (b, a)
    };
    content.take(lo) + prefix + content.subrange(lo, hi) + suffix + content.skip(hi)
}

/// Puts `prefix` and `suffix` around the text between two byte offsets.
pub fn format_text(content: &str, start: usize, end: usize, prefix: &str, suffix: &str) -> (r:
    String)
    ensures
        r@ == format_text_spec(content@, start as int, end as int, prefix@, suffix@),
{
    let v = chars_of(content);
    let a = char_floor(&v, start);
    let b = char_floor(&v, end);
    let (lo, hi) = if a <= b {
        (a, b)
    } else {
        (b, a)
    };
    let mut result = String::new();
    push_range(&mut result, &v, 0, lo);
    result.append(prefix);
    push_range(&mut result, &v, lo, hi);
    result.append(suffix);
    push_range(&mut result, &v, hi, v.len());
    proof {
        assert(v@.subrange(0, lo as int) =~= v@.take(lo as int));
        assert(v@.subrange(hi as int, v@.len() as int) =~= v@.skip(hi as int));
    }
    result
}

/// The UTF-16 length of a string.
fn utf16_count(s: &str, limit: usize) -> (n: usize)
    requires
        utf16_len(s@) <= limit,
    ensures
        n == utf16_len(s@),
{
    let v = chars_of(s);
    let mut n: usize = 0;
    let mut k: usize = 0;
    while k < v.len()
        invariant
            k <= v.len(),
            v@ == s@,
            utf16_len(v@) <= limit,
            n == utf16_len(v@.take(k as int)),
        decreases v.len() - k,
    {
        proof {
            assert(v@.take(k + 1).drop_last() =~= v@.take(k as int));
            assert(v@.take(k + 1).last() == v@[k as int]);
            lemma_utf16_len_mono(v@, k + 1, v@.len() as int);
            assert(v@.take(v@.len() as int) =~= v@);
        }
        n = n + len_utf16(v[k]);
        k += 1;
    }
    assert(v@.take(k as int) =~= v@);
    n
}

/// The selection offsets, the smaller first.
pub open spec fn ordered(selection: BrowserSelection) -> (int, int) {
    if selection.start_utf16 <= selection.end_utf16 {
        (selection.start_utf16 as int, selection.end_utf16 as int)
    } else {
        (selection.end_utf16 as int, selection.start_utf16 as int)
    }
}

/// The caret after formatting: after the suffix that closes the selection.
pub open spec fn caret_after(selection: BrowserSelection, prefix: Seq<char>, suffix: Seq<char>) -> int {
    let (lo, hi) = ordered(selection);
    lo + utf16_len(prefix) + (hi - lo) + utf16_len(suffix)
}

/// The formatted text for a browser selection.
pub open spec fn formatted_content(
    content: Seq<char>,
    selection: BrowserSelection,
    prefix: Seq<char>,
    suffix: Seq<char>,
) -> Seq<char> {
    let (lo, hi) = ordered(selection);
    let (a, b) = (utf16_to_byte(content, lo), utf16_to_byte(content, hi));
    let (sb, eb) = if a <= b {
        (a, b)
    } else {
        (b, a)
    };
    format_text_spec(content, sb as int, eb as int, prefix, suffix)
}

/// Puts `prefix` and `suffix` around the selected text, and puts the caret
/// after the suffix.
pub fn apply_markdown_format(
    content: &str,
    selection: BrowserSelection,
    prefix: &str,
    suffix: &str,
) -> (r: FormattingResult)
    requires
        caret_after(selection, prefix@, suffix@) <= usize::MAX,
    ensures
        r.content@ == formatted_content(content@, selection, prefix@, suffix@),
        r.caret_utf16 == caret_after(selection, prefix@, suffix@),
{
    let (lo, hi) = if selection.start_utf16 <= selection.end_utf16 {
        (selection.start_utf16, selection.end_utf16)
    } else {
        (selection.end_utf16, selection.start_utf16)
    };
    let (start, end) = utf16_range_to_byte_range(content, lo, hi);
    let formatted = format_text(content, start, end, prefix, suffix);
    let p = utf16_count(prefix, usize::MAX);
    let s = utf16_count(suffix, usize::MAX);
    FormattingResult { content: formatted, caret_utf16: lo + p + (hi - lo) + s }
}

/// Applies a toolbar command to the selected text.
pub fn apply_markdown_command(
    content: &str,
    selection: BrowserSelection,
    command: MarkdownCommand,
) -> (r: FormattingResult)
    requires
        caret_after(selection, command_affixes(command).0, command_affixes(command).1)
            <= usize::MAX,
    ensures
        r.content@ == formatted_content(
            content@,
            selection,
            command_affixes(command).0,
            command_affixes(command).1,
        ),
        r.caret_utf16 == caret_after(
            selection,
            command_affixes(command).0,
            command_affixes(command).1,
        ),
{
    let (prefix, suffix) = command.affixes();
    apply_markdown_format(content, selection, prefix, suffix)
}


/// In ASCII text every character is one byte and one UTF-16 unit.
proof fn lemma_ascii_lengths(s: Seq<char>, k: int)
    requires
        0 <= k <= s.len(),
        forall|j: int| 0 <= j < s.len() ==> (s[j] as u32) < 0x80,
    ensures
        utf8_len(s.take(k)) == k,
        utf16_len(s.take(k)) == k,
    decreases k,
{
    if k > 0 {
        lemma_ascii_lengths(s, k - 1);
        assert(s.take(k).drop_last() =~= s.take(k - 1));
        assert(s.take(k).last() == s[k - 1]);
    } else {
        assert(s.take(0) =~= Seq::<char>::empty());
    }
}

/// In ASCII text, the boundary at or before UTF-16 offset `idx` is `idx`,
/// clamped to the text.
proof fn lemma_ascii_utf16_floor(s: Seq<char>, idx: int, k: int)
    requires
        0 <= k <= s.len(),
        k <= idx,
        forall|j: int| 0 <= j < s.len() ==> (s[j] as u32) < 0x80,
    ensures
        utf16_floor_from(s, idx, k) == if idx < s.len() {
            idx
        } else {
            s.len() as int
        },
    decreases s.len() - k,
{
    if k < s.len() {
        lemma_ascii_lengths(s, k + 1);
        if k + 1 <= idx {
            lemma_ascii_utf16_floor(s, idx, k + 1);
        }
    }
}

/// In ASCII text, the boundary at or before byte `b` is `b`, clamped to the
/// text.
proof fn lemma_ascii_utf8_floor(s: Seq<char>, b: int, k: int)
    requires
        0 <= k <= s.len(),
        k <= b,
        forall|j: int| 0 <= j < s.len() ==> (s[j] as u32) < 0x80,
    ensures
        utf8_floor_from(s, b, k) == if b < s.len() {
            b
        } else {
            s.len() as int
        },
    decreases s.len() - k,
{
    if k < s.len() {
        lemma_ascii_lengths(s, k + 1);
        if k + 1 <= b {
            lemma_ascii_utf8_floor(s, b, k + 1);
        }
    }
}

/// Formatting wraps exactly the selected text: in ASCII text, with the
/// selection (in either direction) inside the text, the result is the text
/// before the selection, the prefix, the selected text, the suffix and the
/// text after it; so removing the inserted prefix and suffix gives the text
/// back.
pub proof fn lemma_format_wraps_selection(
    content: Seq<char>,
    selection: BrowserSelection,
    prefix: Seq<char>,
    suffix: Seq<char>,
)
    requires
        forall|j: int| 0 <= j < content.len() ==> (content[j] as u32) < 0x80,
        selection.start_utf16 <= content.len(),
        selection.end_utf16 <= content.len(),
    ensures
        ({
            let (lo, hi) = ordered(selection);
            &&& lo <= hi
            &&& formatted_content(content, selection, prefix, suffix) == content.take(lo) + prefix
                + content.subrange(lo, hi) + suffix + content.skip(hi)
            &&& lo == (if selection.start_utf16 <= selection.end_utf16 {
                selection.start_utf16
            } else {
                selection.end_utf16
            })
            &&& hi == (if selection.start_utf16 <= selection.end_utf16 {
                selection.end_utf16
            } else {
                selection.start_utf16
            })
        }),
        (forall|j: int| 0 <= j < prefix.len() ==> (prefix[j] as u32) < 0x80) && (forall|j: int|
            0 <= j < suffix.len() ==> (suffix[j] as u32) < 0x80) ==> caret_after(
            selection,
            prefix,
            suffix,
        ) == (content.take(ordered(selection).0) + prefix + content.subrange(
            ordered(selection).0,
            ordered(selection).1,
        ) + suffix).len(),
{
    if (forall|j: int| 0 <= j < prefix.len() ==> (prefix[j] as u32) < 0x80) && (forall|j: int|
        0 <= j < suffix.len() ==> (suffix[j] as u32) < 0x80) {
        lemma_ascii_lengths(prefix, prefix.len() as int);
        lemma_ascii_lengths(suffix, suffix.len() as int);
        assert(prefix.take(prefix.len() as int) =~= prefix);
        assert(suffix.take(suffix.len() as int) =~= suffix);
    }
    let (lo, hi) = ordered(selection);
    lemma_ascii_utf16_floor(content, lo, 0);
    lemma_ascii_utf16_floor(content, hi, 0);
    lemma_ascii_lengths(content, lo);
    lemma_ascii_lengths(content, hi);
    assert(utf16_to_byte(content, lo) == lo);
    assert(utf16_to_byte(content, hi) == hi);
    lemma_ascii_utf8_floor(content, lo, 0);
    lemma_ascii_utf8_floor(content, hi, 0);
}

} // verus!
