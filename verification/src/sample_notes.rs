//! The starter notes shown in a fresh development collection: a pinned
//! checklist, a Markdown tour and a long-titled responsive note.
use vstd::prelude::*;
use crate::model::{Note, Timestamp};

verus! {

broadcast use vstd::string::group_string_axioms;

fn instant(secs: i64) -> (t: Timestamp)
    requires
        crate::model::timestamp_parts_valid(secs, 0),
    ensures
        t.spec_secs() == secs,
        t.spec_nanos() == 0,
{
    Timestamp::from_parts(secs, 0).unwrap()
}

fn tags_of(a: &str, b: &str) -> (r: Vec<String>)
    ensures
        r.deep_view() == seq![a@, b@],
{
    let r = vec![String::from_str(a), String::from_str(b)];
    assert(r.deep_view() =~= seq![a@, b@]);
    r
}

/// The starter notes of a fresh collection.
pub fn debug_starter_notes() -> (r: Vec<Note>)
    ensures
        r@.len() == 3,
        r@[0].id == 0x11111111_1111_4111_8111_111111111111u128,
        r@[0].title@ == "Pinned launch checklist"@,
        r@[0].content@ == "# Pinned launch checklist\n\nKeep this note pinned while testing note ordering, note actions, and task-list rendering.\n\n- [x] Verify **bold** toolbar output\n- [x] Verify _italic_ toolbar output\n- [ ] Try ~~strikethrough~~ on completed details\n- [ ] Toggle the sidebar and confirm this title stays selected\n\nRelated link: [Nota repository](https://repos.astrazds.net/astrazds/nota)"@,
        r@[0].created.spec_secs() == 1777622400 && r@[0].created.spec_nanos() == 0,
        r@[0].last_modified.spec_secs() == 1777803300 && r@[0].last_modified.spec_nanos() == 0,
        r@[0].tags.deep_view() == seq!["Work"@, "UX"@],
        r@[0].is_pinned == true,
        r@[1].id == 0x22222222_2222_4222_8222_222222222222u128,
        r@[1].title@ == "Markdown preview tour"@,
        r@[1].content@ == "# Markdown preview tour\n\nUse this note to compare Write, Preview, and Split modes with richer Markdown.\n\n| Feature | Expected result |\n| --- | --- |\n| Table | Aligned rows in preview |\n| `inline code` | Monospace text |\n| Footnote[^1] | Linked footnote section |\n\n```rust\nfn preview_mode() -> &'static str {\n    \"consistent padding\"\n}\n```\n\n[^1]: Footnotes should render at the bottom without unsafe HTML."@,
        r@[1].created.spec_secs() == 1777626000 && r@[1].created.spec_nanos() == 0,
        r@[1].last_modified.spec_secs() == 1777732200 && r@[1].last_modified.spec_nanos() == 0,
        r@[1].tags.deep_view() == seq!["Markdown"@, "Reference"@],
        r@[1].is_pinned == false,
        r@[2].id == 0x33333333_3333_4333_8333_333333333333u128,
        r@[2].title@ == "Responsive editing regression note with a deliberately long title"@,
        r@[2].content@ == "This first line is intentionally long so the note list preview truncates cleanly while search, tags, and responsive layouts stay readable.\n\n## Mobile checks\n\n1. Open the note list.\n2. Filter by the `Mobile` tag.\n3. Edit the title, body, and tags without losing focus.\n\nHTML should stay escaped: <script>alert(\"noter\")</script>"@,
        r@[2].created.spec_secs() == 1777629600 && r@[2].created.spec_nanos() == 0,
        r@[2].last_modified.spec_secs() == 1777653900 && r@[2].last_modified.spec_nanos() == 0,
        r@[2].tags.deep_view() == seq!["Personal"@, "Mobile"@],
        r@[2].is_pinned == false,
{
    let mut r: Vec<Note> = Vec::new();
    r.push(Note {
        id: 0x11111111_1111_4111_8111_111111111111u128,
        title: String::from_str("Pinned launch checklist"),
        content: String::from_str("# Pinned launch checklist\n\nKeep this note pinned while testing note ordering, note actions, and task-list rendering.\n\n- [x] Verify **bold** toolbar output\n- [x] Verify _italic_ toolbar output\n- [ ] Try ~~strikethrough~~ on completed details\n- [ ] Toggle the sidebar and confirm this title stays selected\n\nRelated link: [Nota repository](https://repos.astrazds.net/astrazds/nota)"),
        created: instant(1777622400),
        last_modified: instant(1777803300),
        tags: tags_of("Work", "UX"),
        is_pinned: true,
    });
    r.push(Note {
        id: 0x22222222_2222_4222_8222_222222222222u128,
        title: String::from_str("Markdown preview tour"),
        content: String::from_str("# Markdown preview tour\n\nUse this note to compare Write, Preview, and Split modes with richer Markdown.\n\n| Feature | Expected result |\n| --- | --- |\n| Table | Aligned rows in preview |\n| `inline code` | Monospace text |\n| Footnote[^1] | Linked footnote section |\n\n```rust\nfn preview_mode() -> &'static str {\n    \"consistent padding\"\n}\n```\n\n[^1]: Footnotes should render at the bottom without unsafe HTML."),
        created: instant(1777626000),
        last_modified: instant(1777732200),
        tags: tags_of("Markdown", "Reference"),
        is_pinned: false,
    });
    r.push(Note {
        id: 0x33333333_3333_4333_8333_333333333333u128,
        title: String::from_str("Responsive editing regression note with a deliberately long title"),
        content: String::from_str("This first line is intentionally long so the note list preview truncates cleanly while search, tags, and responsive layouts stay readable.\n\n## Mobile checks\n\n1. Open the note list.\n2. Filter by the `Mobile` tag.\n3. Edit the title, body, and tags without losing focus.\n\nHTML should stay escaped: <script>alert(\"noter\")</script>"),
        created: instant(1777629600),
        last_modified: instant(1777653900),
        tags: tags_of("Personal", "Mobile"),
        is_pinned: false,
    });
    r
}

} // verus!
