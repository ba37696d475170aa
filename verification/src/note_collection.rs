//! Changes to the flat collection of notes: creating, editing, tagging,
//! pinning and deleting. Every edit that changes a note stamps its
//! modification time with the current time.
use vstd::prelude::*;
use crate::model::{Note, NoteView, Timestamp, find_note_index, index_of_id, notes_view};
use crate::tag_rules::{
    TagCleanupPlan, apply_tag_cleanup_plan, changes_view, cleanup_applied, existing_spellings,
    normalize_tags_for_update, normalized, normalized_with, tag_lists_equal, without_tag,
};
use crate::model::copy_strings;

verus! {

broadcast use vstd::string::group_string_axioms;

/// What creating a note selects, and whether its title takes the focus.
#[derive(Debug, Clone, Copy, PartialEq, Eq, Structural)]
pub struct NoteCreation {
    pub selected_id: Option<u128>,
    pub should_focus_title: bool,
}

/// The operations on the collection.
#[derive(Debug, Default, Clone, Copy)]
pub struct NoteCollection;

/// The note with a new title and modification time.
pub open spec fn retitled(n: NoteView, title: Seq<char>, at: Timestamp) -> NoteView {
    NoteView {
        id: n.id,
        title,
        content: n.content,
        created: n.created,
        last_modified: at,
        tags: n.tags,
        is_pinned: n.is_pinned,
    }
}

/// The note with new content and modification time.
pub open spec fn rewritten(n: NoteView, content: Seq<char>, at: Timestamp) -> NoteView {
    NoteView {
        id: n.id,
        title: n.title,
        content,
        created: n.created,
        last_modified: at,
        tags: n.tags,
        is_pinned: n.is_pinned,
    }
}

/// The note with new tags and modification time.
pub open spec fn retagged(n: NoteView, tags: Seq<Seq<char>>, at: Timestamp) -> NoteView {
    NoteView {
        id: n.id,
        title: n.title,
        content: n.content,
        created: n.created,
        last_modified: at,
        tags,
        is_pinned: n.is_pinned,
    }
}

/// The note with its pin flipped and a new modification time.
pub open spec fn repinned(n: NoteView, at: Timestamp) -> NoteView {
    NoteView {
        id: n.id,
        title: n.title,
        content: n.content,
        created: n.created,
        last_modified: at,
        tags: n.tags,
        is_pinned: !n.is_pinned,
    }
}

/// The note with a new modification time.
pub open spec fn touched(n: NoteView, at: Timestamp) -> NoteView {
    NoteView {
        id: n.id,
        title: n.title,
        content: n.content,
        created: n.created,
        last_modified: at,
        tags: n.tags,
        is_pinned: n.is_pinned,
    }
}

/// The tags a note ends with when the entry `tags` is saved for it.
pub open spec fn tags_for_update(existing: Seq<Seq<char>>, tags: Seq<Seq<char>>) -> Seq<Seq<char>> {
    normalized_with(tags, existing_spellings(existing))
}

/// The tags a note ends with when `tag` is removed from it.
pub open spec fn tags_after_removal(existing: Seq<Seq<char>>, tag: Seq<char>) -> Seq<Seq<char>> {
    tags_for_update(existing, normalized(without_tag(existing, tag)))
}

/// The notes without those with the identifier, in order.
pub open spec fn without_id(notes: Seq<NoteView>, id: u128) -> Seq<NoteView>
    decreases notes.len(),
{
    if notes.len() == 0 {
        Seq::empty()
    } else {
        let rest = without_id(notes.drop_last(), id);
        if notes.last().id == id {
            rest
        } else {
            rest.push(notes.last())
        }
    }
}

/// The notes with the modification time of those whose identifier is listed
/// set to `at`.
pub open spec fn touch_listed(notes: Seq<NoteView>, ids: Seq<u128>, at: Timestamp) -> Seq<NoteView> {
    notes.map_values(|n: NoteView| if ids.contains(n.id) { touched(n, at) } else { n })
}

/// `after` is `before` with the title of the first note with the identifier
/// changed and stamped `at` (and `r`), or unchanged (and not `r`) when there is none.
pub open spec fn title_edit(before: Seq<NoteView>, after: Seq<NoteView>, id: u128, title: Seq<char>, r: bool, at: Timestamp) -> bool {
    match index_of_id(before, id) {
        Some(k) => r && after == before.update(k, retitled(before[k], title, at)),
        None => !r && after == before,
    }
}

/// Likewise for the content.
pub open spec fn content_edit(before: Seq<NoteView>, after: Seq<NoteView>, id: u128, content: Seq<char>, r: bool, at: Timestamp) -> bool {
    match index_of_id(before, id) {
        Some(k) => r && after == before.update(k, rewritten(before[k], content, at)),
        None => !r && after == before,
    }
}

/// Likewise for the pin.
pub open spec fn pin_edit(before: Seq<NoteView>, after: Seq<NoteView>, id: u128, r: bool, at: Timestamp) -> bool {
    match index_of_id(before, id) {
        Some(k) => r && after == before.update(k, repinned(before[k], at)),
        None => !r && after == before,
    }
}

/// The first note with the identifier gets the tags `new_tags(its tags)`
/// when they differ from its tags (and `r`); otherwise nothing changes.
pub open spec fn tag_edit(before: Seq<NoteView>, after: Seq<NoteView>, id: u128, new_tags: spec_fn(Seq<Seq<char>>) -> Seq<Seq<char>>, r: bool, at: Timestamp) -> bool {
    match index_of_id(before, id) {
        Some(k) => {
            let t = new_tags(before[k].tags);
            if t == before[k].tags {
                !r && after == before
            } else {
                r && after == before.update(k, retagged(before[k], t, at))
            }
        },
        None => !r && after == before,
    }
}

/// Saving the entry `tags`.
pub open spec fn entry_update(tags: Seq<Seq<char>>) -> spec_fn(Seq<Seq<char>>) -> Seq<Seq<char>> {
    |existing: Seq<Seq<char>>| tags_for_update(existing, tags)
}

/// Removing `tag`.
pub open spec fn tag_removal(tag: Seq<char>) -> spec_fn(Seq<Seq<char>>) -> Seq<Seq<char>> {
    |existing: Seq<Seq<char>>| tags_after_removal(existing, tag)
}

/// The note with its view changed to `n` at position `k`.
fn replace_note(notes: &mut Vec<Note>, k: usize, note: Note)
    requires
        k < old(notes).len(),
    ensures
        notes_view(final(notes)@) == notes_view(old(notes)@).update(k as int, note@),
{
    let ghost before = notes@;
    notes.set(k, note);
    proof {
        assert(notes_view(notes@) =~= notes_view(before).update(k as int, note@));
    }
}

impl NoteCollection {
    /// Puts a new empty note, created `now`, first, selects it and asks for
    /// its title to be focused.
    pub fn create_note(notes: &mut Vec<Note>, now: Timestamp) -> (r: NoteCreation)
        ensures
            final(notes)@[0].created == now,
            final(notes)@.len() == old(notes)@.len() + 1,
            notes_view(final(notes)@).skip(1) == notes_view(old(notes)@),
            final(notes)@[0].title@ == Seq::<char>::empty(),
            final(notes)@[0].content@ == Seq::<char>::empty(),
            final(notes)@[0].tags@.len() == 0,
            !final(notes)@[0].is_pinned,
            final(notes)@[0].created == final(notes)@[0].last_modified,
            r.selected_id == Some(final(notes)@[0].id),
            r.should_focus_title,
    {
        let note = Note::new(String::new(), String::new(), now);
        let selected_id = Some(note.id);
        let ghost before = notes@;
        notes.insert(0, note);
        proof {
            assert(notes_view(notes@).skip(1) =~= notes_view(before));
        }
        NoteCreation { selected_id, should_focus_title: true }
    }

    /// Sets the title of the first note with the identifier, modified `now`;
    /// false when there is none.
    pub fn update_title(notes: &mut Vec<Note>, id: u128, title: String, now: Timestamp) -> (r: bool)
        ensures
            title_edit(notes_view(old(notes)@), notes_view(final(notes)@), id, title@, r, now),
            !r ==> final(notes)@ == old(notes)@,
    {
        match find_note_index(notes, id) {
            Some(k) => {
                let n = &notes[k];
                let updated = Note {
                    id: n.id,
                    title,
                    content: n.content.clone(),
                    created: n.created,
                    last_modified: now,
                    tags: copy_strings(&n.tags),
                    is_pinned: n.is_pinned,
                };
                replace_note(notes, k, updated);
                true
            },
            None => false,
        }
    }

    /// Sets the content of the first note with the identifier, modified
    /// `now`; false when there is none.
    pub fn update_content(notes: &mut Vec<Note>, id: u128, content: String, now: Timestamp) -> (r: bool)
        ensures
            content_edit(notes_view(old(notes)@), notes_view(final(notes)@), id, content@, r, now),
            !r ==> final(notes)@ == old(notes)@,
    {
        match find_note_index(notes, id) {
            Some(k) => {
                let n = &notes[k];
                let updated = Note {
                    id: n.id,
                    title: n.title.clone(),
                    content,
                    created: n.created,
                    last_modified: now,
                    tags: copy_strings(&n.tags),
                    is_pinned: n.is_pinned,
                };
                replace_note(notes, k, updated);
                true
            },
            None => false,
        }
    }

    /// Saves a tag entry for the first note with the identifier: the entry is
    /// normalised against the note's spellings, and the note only changes
    /// when its tags do. Returns whether it changed.
    pub fn update_tags(notes: &mut Vec<Note>, id: u128, tags: Vec<String>, now: Timestamp) -> (r: bool)
        ensures
            tag_edit(
                notes_view(old(notes)@),
                notes_view(final(notes)@),
                id,
                entry_update(tags.deep_view()),
                r, now,
            ),
            !r ==> final(notes)@ == old(notes)@,
    {
        match find_note_index(notes, id) {
            Some(k) => {
                let normalized = normalize_tags_for_update(&notes[k].tags, tags);
                assert(notes_view(notes@)[k as int] == notes@[k as int]@);
                if tag_lists_equal(&notes[k].tags, &normalized) {
                    return false;
                }
                let n = &notes[k];
                let updated = Note {
                    id: n.id,
                    title: n.title.clone(),
                    content: n.content.clone(),
                    created: n.created,
                    last_modified: now,
                    tags: normalized,
                    is_pinned: n.is_pinned,
                };
                replace_note(notes, k, updated);
                true
            },
            None => false,
        }
    }

    /// Removes a tag from the first note with the identifier, saving the
    /// remaining tags as an entry. Returns whether the note changed.
    pub fn remove_tag(notes: &mut Vec<Note>, id: u128, tag: &str, now: Timestamp) -> (r: bool)
        ensures
            tag_edit(
                notes_view(old(notes)@),
                notes_view(final(notes)@),
                id,
                tag_removal(tag@),
                r, now,
            ),
            !r ==> final(notes)@ == old(notes)@,
    {
        match find_note_index(notes, id) {
            Some(k) => {
                assert(notes_view(notes@)[k as int] == notes@[k as int]@);
                let remaining = crate::tag_rules::remove_tag(&notes[k].tags, tag);
                Self::update_tags(notes, id, remaining, now)
            },
            None => false,
        }
    }

    /// Applies a tag cleanup plan and stamps the changed notes with the
    /// time `now`. Returns whether any note changed.
    pub fn apply_tag_cleanup(notes: &mut Vec<Note>, plan: &TagCleanupPlan, now: Timestamp) -> (r: bool)
        ensures
            ({
                let (cleaned, ids) = cleanup_applied(
                    notes_view(old(notes)@),
                    changes_view(plan.changes@),
                );
                if ids.len() == 0 {
                    !r && notes_view(final(notes)@) == cleaned
                } else {
                    r && notes_view(final(notes)@) == touch_listed(cleaned, ids, now)
                }
            }),
    {
        let changed = apply_tag_cleanup_plan(notes, plan);
        if changed.len() == 0 {
            return false;
        }
        let ghost cleaned = notes_view(notes@);
        let mut i: usize = 0;
        while i < notes.len()
            invariant
                i <= notes.len(),
                cleaned.len() == notes@.len(),
                forall|j: int| 0 <= j < i ==> #[trigger] notes_view(notes@)[j] == (if changed@.contains(cleaned[j].id) {
                    touched(cleaned[j], now)
                } else {
                    cleaned[j]
                }),
                forall|j: int| i <= j < notes@.len() ==> #[trigger] notes_view(notes@)[j] == cleaned[j],
            decreases notes.len() - i,
        {
            assert(notes_view(notes@)[i as int] == notes@[i as int]@);
            if contains_id(&changed, notes[i].id) {
                let updated = {
                    let n = &notes[i];
                    Note {
                        id: n.id,
                        title: n.title.clone(),
                        content: n.content.clone(),
                        created: n.created,
                        last_modified: now,
                        tags: copy_strings(&n.tags),
                        is_pinned: n.is_pinned,
                    }
                };
                let ghost before = notes_view(notes@);
                replace_note(notes, i, updated);
                assert(notes_view(notes@) == before.update(i as int, touched(cleaned[i as int], now)));
            }
            i += 1;
        }
        proof {
            assert(notes_view(notes@) =~= touch_listed(cleaned, changed@, now));
        }
        true
    }

    /// Flips the pin of the first note with the identifier, modified `now`;
    /// false when there is none.
    pub fn toggle_pin(notes: &mut Vec<Note>, id: u128, now: Timestamp) -> (r: bool)
        ensures
            pin_edit(notes_view(old(notes)@), notes_view(final(notes)@), id, r, now),
            !r ==> final(notes)@ == old(notes)@,
    {
        match find_note_index(notes, id) {
            Some(k) => {
                let n = &notes[k];
                let updated = Note {
                    id: n.id,
                    title: n.title.clone(),
                    content: n.content.clone(),
                    created: n.created,
                    last_modified: now,
                    tags: copy_strings(&n.tags),
                    is_pinned: !n.is_pinned,
                };
                replace_note(notes, k, updated);
                true
            },
            None => false,
        }
    }

    /// Removes every note with the identifier; the first remaining note is
    /// the next selection.
    pub fn delete_note(notes: &mut Vec<Note>, id: u128) -> (r: Option<u128>)
        ensures
            notes_view(final(notes)@) == without_id(notes_view(old(notes)@), id),
            r == if final(notes)@.len() > 0 {
                Some(final(notes)@[0].id)
            } else {
                None
            },
    {
        let ghost orig = notes_view(notes@);
        let mut i: usize = 0;
        let ghost mut j: int = 0;
        while i < notes.len()
            invariant
                0 <= j <= orig.len(),
                i <= notes.len(),
                i == without_id(orig.take(j), id).len(),
                notes_view(notes@) == without_id(orig.take(j), id) + orig.skip(j),
            decreases notes.len() - i,
        {
            proof {
                assert(orig.take(j + 1).drop_last() =~= orig.take(j));
                assert(orig.take(j + 1).last() == orig[j]);
                assert(notes_view(notes@)[i as int] == orig[j]);
                assert(notes_view(notes@)[i as int] == notes@[i as int]@);
            }
            if notes[i].id == id {
                let ghost before = notes_view(notes@);
                let ghost raw = notes@;
                notes.remove(i);
                proof {
                    assert(notes@ == raw.remove(i as int));
                    assert(notes_view(notes@) =~= before.remove(i as int));
                    assert(without_id(orig.take(j + 1), id) == without_id(orig.take(j), id));
                    assert(notes_view(notes@) =~= without_id(orig.take(j + 1), id) + orig.skip(
                        j + 1,
                    ));
                    j = j + 1;
                }
            } else {
                proof {
                    assert(notes_view(notes@) =~= without_id(orig.take(j + 1), id) + orig.skip(
                        j + 1,
                    ));
                    j = j + 1;
                }
                i += 1;
            }
        }
        proof {
            assert(orig.skip(j).len() == 0);
            assert(orig.take(j) =~= orig);
            assert(notes_view(notes@) =~= without_id(orig, id));
        }
        if notes.len() > 0 {
            Some(notes[0].id)
        } else {
            None
        }
    }
}

/// Whether the identifier is listed.
pub fn contains_id(ids: &Vec<u128>, id: u128) -> (r: bool)
    ensures
        r == ids@.contains(id),
{
    let mut k: usize = 0;
    while k < ids.len()
        invariant
            k <= ids.len(),
            forall|j: int| 0 <= j < k ==> ids@[j] != id,
        decreases ids.len() - k,
    {
        if ids[k] == id {
            assert(ids@[k as int] == id);
            return true;
        }
        k += 1;
    }
    false
}


/// An accepted title edit lands on the first note with the identifier: it
/// holds the new title and was last modified at the time of the edit, keeps
/// its identifier, content, creation time, tags and pin, and every other note
/// is unchanged. A refused edit means that no note has the identifier, and
/// nothing changed.
pub proof fn lemma_title_edit_stamps_note(
    before: Seq<NoteView>,
    after: Seq<NoteView>,
    id: u128,
    title: Seq<char>,
    r: bool,
    at: Timestamp,
)
    requires
        title_edit(before, after, id, title, r, at),
    ensures
        r ==> (index_of_id(before, id) matches Some(k) && 0 <= k < before.len()
            && before[k].id == id && after.len() == before.len()
            && after[k].id == id && after[k].title == title && after[k].last_modified == at
            && after[k].content == before[k].content && after[k].created == before[k].created
            && after[k].tags == before[k].tags && after[k].is_pinned == before[k].is_pinned
            && forall|j: int| 0 <= j < before.len() && j != k ==> after[j] == before[j]),
        !r ==> after == before && forall|j: int| 0 <= j < before.len() ==> before[j].id != id,
{
    lemma_index_of_id(before, id);
}

/// An accepted content edit lands on the first note with the identifier: it
/// holds the new content and was last modified at the time of the edit, keeps
/// its identifier, title, creation time, tags and pin, and every other note
/// is unchanged. A refused edit means that no note has the identifier, and
/// nothing changed.
pub proof fn lemma_content_edit_stamps_note(
    before: Seq<NoteView>,
    after: Seq<NoteView>,
    id: u128,
    content: Seq<char>,
    r: bool,
    at: Timestamp,
)
    requires
        content_edit(before, after, id, content, r, at),
    ensures
        r ==> (index_of_id(before, id) matches Some(k) && 0 <= k < before.len()
            && before[k].id == id && after.len() == before.len()
            && after[k].id == id && after[k].content == content && after[k].last_modified == at
            && after[k].title == before[k].title && after[k].created == before[k].created
            && after[k].tags == before[k].tags && after[k].is_pinned == before[k].is_pinned
            && forall|j: int| 0 <= j < before.len() && j != k ==> after[j] == before[j]),
        !r ==> after == before && forall|j: int| 0 <= j < before.len() ==> before[j].id != id,
{
    lemma_index_of_id(before, id);
}

/// An accepted pin toggle lands on the first note with the identifier: its
/// pin is flipped and it was last modified at the time of the toggle, the rest
/// of it is kept, and every other note is unchanged. A refused toggle means
/// that no note has the identifier, and nothing changed.
pub proof fn lemma_pin_edit_stamps_note(
    before: Seq<NoteView>,
    after: Seq<NoteView>,
    id: u128,
    r: bool,
    at: Timestamp,
)
    requires
        pin_edit(before, after, id, r, at),
    ensures
        r ==> (index_of_id(before, id) matches Some(k) && 0 <= k < before.len()
            && before[k].id == id && after.len() == before.len()
            && after[k].id == id && after[k].is_pinned == !before[k].is_pinned
            && after[k].last_modified == at && after[k].title == before[k].title
            && after[k].content == before[k].content && after[k].created == before[k].created
            && after[k].tags == before[k].tags
            && forall|j: int| 0 <= j < before.len() && j != k ==> after[j] == before[j]),
        !r ==> after == before && forall|j: int| 0 <= j < before.len() ==> before[j].id != id,
{
    lemma_index_of_id(before, id);
}

/// `index_of_id` is the first position holding the identifier, and is absent
/// exactly when no note holds it.
proof fn lemma_index_of_id(notes: Seq<NoteView>, id: u128)
    ensures
        index_of_id(notes, id) matches Some(k) ==> 0 <= k < notes.len() && notes[k].id == id
            && forall|j: int| 0 <= j < k ==> notes[j].id != id,
        index_of_id(notes, id) is None ==> forall|j: int| 0 <= j < notes.len() ==> notes[j].id != id,
{
    if exists|i: int| 0 <= i < notes.len() && notes[i].id == id {
        let i = choose|i: int| 0 <= i < notes.len() && notes[i].id == id;
        lemma_first_of_id(notes, id, i);
    }
}

/// Where some note holds the identifier, a first one does.
proof fn lemma_first_of_id(notes: Seq<NoteView>, id: u128, i: int)
    requires
        0 <= i < notes.len(),
        notes[i].id == id,
    ensures
        exists|w: int|
            0 <= w < notes.len() && notes[w].id == id && forall|k: int|
                0 <= k < w ==> (#[trigger] notes[k]).id != id,
    decreases i,
{
    if exists|k: int| 0 <= k < i && notes[k].id == id {
        let k = choose|k: int| 0 <= k < i && notes[k].id == id;
        lemma_first_of_id(notes, id, k);
    } else {
        assert(forall|k: int| 0 <= k < i ==> (#[trigger] notes[k]).id != id);
    }
}


/// An accepted tag change lands on the first note with the identifier: it
/// holds the new tags, which differ from its old ones, and was last modified
/// at the time of the change; the rest of it and every other note is kept. A
/// refused change leaves everything as it was.
pub proof fn lemma_tag_edit_stamps_note(
    before: Seq<NoteView>,
    after: Seq<NoteView>,
    id: u128,
    new_tags: spec_fn(Seq<Seq<char>>) -> Seq<Seq<char>>,
    r: bool,
    at: Timestamp,
)
    requires
        tag_edit(before, after, id, new_tags, r, at),
    ensures
        r ==> (index_of_id(before, id) matches Some(k) && 0 <= k < before.len()
            && before[k].id == id && after.len() == before.len()
            && after[k].id == id && after[k].tags == new_tags(before[k].tags)
            && after[k].tags != before[k].tags && after[k].last_modified == at
            && after[k].title == before[k].title && after[k].content == before[k].content
            && after[k].created == before[k].created && after[k].is_pinned == before[k].is_pinned
            && forall|j: int| 0 <= j < before.len() && j != k ==> after[j] == before[j]),
        !r ==> after == before,
{
    lemma_index_of_id(before, id);
}

/// Deleting keeps, in order, exactly the notes with another identifier.
pub proof fn lemma_delete_keeps_other_notes(notes: Seq<NoteView>, id: u128)
    ensures
        without_id(notes, id) == notes.filter(|n: NoteView| n.id != id),
        forall|j: int| 0 <= j < without_id(notes, id).len() ==> (#[trigger] without_id(notes, id)[j]).id != id,
    decreases notes.len(),
{
    reveal_with_fuel(Seq::filter, 2);
    if notes.len() > 0 {
        lemma_delete_keeps_other_notes(notes.drop_last(), id);
        assert(notes.drop_last().filter(|n: NoteView| n.id != id) == without_id(notes.drop_last(), id));
    } else {
        assert(notes.filter(|n: NoteView| n.id != id) =~= Seq::<NoteView>::empty());
    }
    let f = notes.filter(|n: NoteView| n.id != id);
    assert forall|j: int| 0 <= j < f.len() implies (#[trigger] f[j]).id != id by {
        notes.lemma_filter_pred(|n: NoteView| n.id != id, j);
    }
}

} // verus!
