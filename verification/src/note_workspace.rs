//! The notes being edited, which one is selected, a pending delete
//! confirmation and where the focus should go.
use vstd::prelude::*;
use crate::backup::{
    BackupError, BackupImport, FlatCollectionBackup, check_outcome, first_id, has_id, merged,
};
use crate::model::{Note, NoteView, display_title_seq, find_note_index, index_of_id, notes_view};
use crate::note_collection::{
    NoteCollection, content_edit, entry_update, pin_edit, tag_edit, tag_removal, title_edit,
    without_id,
};
use crate::note_discovery::{NoteListProjection, opt_str_view, project_note_list, projection};
use crate::tag_rules::{
    TagCleanupPlan, canonical_tags, changes_view, cleanup_applied, cleanup_changes,
    plan_collection_tag_cleanup,
};
use crate::tag_cleanup_proofs::lemma_applied_ids;

verus! {

broadcast use vstd::string::group_string_axioms;

/// Where the keyboard focus should go next.
#[derive(Debug, Clone, Copy, PartialEq, Eq, Structural)]
pub enum FocusIntent {
    NoFocus,
    NoteTitle,
}

#[derive(Debug, Clone, PartialEq, Eq)]
struct DeleteConfirmation {
    id: u128,
    title: String,
}

/// What the main area shows.
#[derive(Debug, Clone, PartialEq, Eq, Structural)]
pub enum WorkspaceDisplayState {
    EmptyCollection,
    NoNoteSelected,
    NoteSelected,
}

/// The notes, the selection, the focus intent and a pending delete.
#[derive(Debug, Clone, PartialEq, Eq)]
pub struct NoteWorkspace {
    notes: Vec<Note>,
    selected_id: Option<u128>,
    focus_intent: FocusIntent,
    delete_confirmation: Option<DeleteConfirmation>,
}

/// The workspace as mathematical values; a pending delete is the note's
/// identifier and the title shown in the confirmation.
pub struct WorkspaceView {
    pub notes: Seq<NoteView>,
    pub selected_id: Option<u128>,
    pub focus_intent: FocusIntent,
    pub delete_confirmation: Option<(u128, Seq<char>)>,
}

impl View for NoteWorkspace {
    type V = WorkspaceView;

    closed spec fn view(&self) -> WorkspaceView {
        WorkspaceView {
            notes: notes_view(self.notes@),
            selected_id: self.selected_id,
            focus_intent: self.focus_intent,
            delete_confirmation: match self.delete_confirmation {
                Some(c) => Some((c.id, c.title@)),
                None => None,
            },
        }
    }
}

/// The position of the selected note, if it exists.
pub open spec fn selected_position(w: WorkspaceView) -> Option<int> {
    match w.selected_id {
        Some(id) => index_of_id(w.notes, id),
        None => None,
    }
}

/// The workspace with other notes, everything else kept.
pub open spec fn with_notes(w: WorkspaceView, notes: Seq<NoteView>) -> WorkspaceView {
    WorkspaceView {
        notes,
        selected_id: w.selected_id,
        focus_intent: w.focus_intent,
        delete_confirmation: w.delete_confirmation,
    }
}

/// `after` is `before` with only the notes changed, as `edit` relates them,
/// when a note is selected; otherwise nothing changes and the result is false.
pub open spec fn selected_edit(
    before: WorkspaceView,
    after: WorkspaceView,
    r: bool,
    edit: spec_fn(u128, Seq<NoteView>) -> bool,
) -> bool {
    match before.selected_id {
        None => !r && after == before,
        Some(id) => after == with_notes(before, after.notes) && edit(id, after.notes),
    }
}

/// The selection, when there is one, names a note of the collection.
pub open spec fn selection_is_valid(w: WorkspaceView) -> bool {
    w.selected_id matches Some(id) ==> has_id(w.notes, id)
}

/// Two collections hold the same identities at the same positions.
pub open spec fn same_ids(a: Seq<NoteView>, b: Seq<NoteView>) -> bool {
    a.len() == b.len() && forall|i: int| 0 <= i < a.len() ==> (#[trigger] a[i]).id == b[i].id
}

proof fn lemma_same_ids_has(a: Seq<NoteView>, b: Seq<NoteView>, id: u128)
    requires
        same_ids(a, b),
    ensures
        has_id(a, id) == has_id(b, id),
{
    if has_id(a, id) {
        let w = choose|w: int| 0 <= w < a.len() && (#[trigger] a[w]).id == id;
        assert(b[w].id == id);
    }
    if has_id(b, id) {
        let w = choose|w: int| 0 <= w < b.len() && (#[trigger] b[w]).id == id;
        assert(a[w].id == id);
    }
}

/// What the workspace shows: an empty collection, a selected note, or
/// neither.
pub open spec fn display_state_of(w: WorkspaceView) -> WorkspaceDisplayState {
    if w.notes.len() == 0 {
        WorkspaceDisplayState::EmptyCollection
    } else if selected_position(w) is Some {
        WorkspaceDisplayState::NoteSelected
    } else {
        WorkspaceDisplayState::NoNoteSelected
    }
}

/// Editing the selected note's content never changes what the workspace
/// shows: a selected note stays selected and shown.
pub proof fn lemma_content_edit_keeps_display_state(
    before: WorkspaceView,
    after: WorkspaceView,
    content: Seq<char>,
    r: bool,
    at: crate::model::Timestamp,
)
    requires
        selected_edit(
            before,
            after,
            r,
            |id: u128, a: Seq<NoteView>| content_edit(before.notes, a, id, content, r, at),
        ),
    ensures
        display_state_of(after) == display_state_of(before),
{
    if let Some(id) = before.selected_id {
        crate::backup::lemma_index_of_id(before.notes, id);
        assert(same_ids(before.notes, after.notes));
        lemma_same_ids_has(before.notes, after.notes, id);
        crate::backup::lemma_index_of_id(after.notes, id);
    }
}

impl NoteWorkspace {
    /// The notes themselves (their views are `self@.notes`).
    pub closed spec fn raw_notes(&self) -> Seq<Note> {
        self.notes@
    }

    /// A workspace on the notes, with the first note selected.
    pub fn new(notes: Vec<Note>) -> (r: Self)
        ensures
            r@.notes == notes_view(notes@),
            r@.selected_id == (if notes@.len() > 0 {
                Some(notes@[0].id)
            } else {
                None
            }),
            r@.focus_intent == FocusIntent::NoFocus,
            r@.delete_confirmation is None,
            selection_is_valid(r@),
    {
        let selected_id = if notes.len() > 0 {
            Some(notes[0].id)
        } else {
            None
        };
        proof {
            if notes@.len() > 0 {
                assert(notes_view(notes@)[0].id == notes@[0].id);
            }
        }
        NoteWorkspace {
            notes,
            selected_id,
            focus_intent: FocusIntent::NoFocus,
            delete_confirmation: None,
        }
    }

    pub fn notes(&self) -> (r: &[Note])
        ensures
            notes_view(r@) == self@.notes,
            r@ == self.raw_notes(),
    {
        self.notes.as_slice()
    }

    pub fn selected_id(&self) -> (r: Option<u128>)
        ensures
            r == self@.selected_id,
    {
        self.selected_id
    }

    fn selected_position_exec(&self) -> (r: Option<usize>)
        ensures
            match r {
                Some(k) => selected_position(self@) == Some(k as int) && k < self@.notes.len(),
                None => selected_position(self@) is None,
            },
    {
        match self.selected_id {
            Some(id) => find_note_index(&self.notes, id),
            None => None,
        }
    }

    /// A copy of the selected note, when it exists.
    pub fn selected_note(&self) -> (r: Option<Note>)
        ensures
            match selected_position(self@) {
                Some(k) => r matches Some(n) && n@ == self@.notes[k],
                None => r is None,
            },
    {
        match self.selected_position_exec() {
            Some(k) => {
                assert(notes_view(self.notes@)[k as int] == self.notes@[k as int]@);
                Some(self.notes[k].duplicate())
            },
            None => None,
        }
    }

    /// An empty collection, a selected note, or neither.
    pub fn display_state(&self) -> (r: WorkspaceDisplayState)
        ensures
            r == display_state_of(self@),
    {
        if self.notes.len() == 0 {
            return WorkspaceDisplayState::EmptyCollection;
        }
        match self.selected_position_exec() {
            Some(_) => WorkspaceDisplayState::NoteSelected,
            None => WorkspaceDisplayState::NoNoteSelected,
        }
    }

    /// Creates an empty note first, selects it and asks for title focus.
    pub fn create_note(&mut self, now: crate::model::Timestamp)
        ensures
            final(self)@.notes.len() == old(self)@.notes.len() + 1,
            final(self)@.notes.skip(1) == old(self)@.notes,
            final(self)@.notes[0].title == Seq::<char>::empty(),
            final(self)@.notes[0].content == Seq::<char>::empty(),
            final(self)@.notes[0].tags.len() == 0,
            !final(self)@.notes[0].is_pinned,
            final(self)@.notes[0].created == now,
            final(self)@.notes[0].last_modified == now,
            final(self)@.selected_id == Some(final(self)@.notes[0].id),
            final(self)@.focus_intent == FocusIntent::NoteTitle,
            final(self)@.delete_confirmation == old(self)@.delete_confirmation,
            selection_is_valid(final(self)@),
    {
        let created = NoteCollection::create_note(&mut self.notes, now);
        proof {
            assert(notes_view(self.notes@)[0] == self.notes@[0]@);
            assert(self.notes@[0].tags.deep_view().len() == self.notes@[0].tags@.len());
        }
        self.selected_id = created.selected_id;
        self.focus_intent = if created.should_focus_title {
            FocusIntent::NoteTitle
        } else {
            FocusIntent::NoFocus
        };
    }

    /// Selects the note with the identifier, when there is one.
    pub fn select_note(&mut self, id: u128) -> (r: bool)
        ensures
            r == crate::backup::has_id(old(self)@.notes, id),
            r ==> final(self)@ == (WorkspaceView {
                notes: old(self)@.notes,
                selected_id: Some(id),
                focus_intent: old(self)@.focus_intent,
                delete_confirmation: old(self)@.delete_confirmation,
            }),
            !r ==> final(self)@ == old(self)@,
            selection_is_valid(old(self)@) ==> selection_is_valid(final(self)@),
    {
        proof {
            crate::backup::lemma_index_of_id(notes_view(self.notes@), id);
        }
        match find_note_index(&self.notes, id) {
            Some(_) => {
                self.selected_id = Some(id);
                true
            },
            None => false,
        }
    }

    /// Sets the title of the selected note.
    pub fn update_selected_title(&mut self, title: String, now: crate::model::Timestamp) -> (r: bool)
        ensures
            selected_edit(
                old(self)@,
                final(self)@,
                r,
                |id: u128, after: Seq<NoteView>| title_edit(old(self)@.notes, after, id, title@, r, now),
            ),
            selection_is_valid(old(self)@) ==> selection_is_valid(final(self)@),
    {
        match self.selected_id {
            Some(id) => {
                let ghost before = self@.notes;
                let r = NoteCollection::update_title(&mut self.notes, id, title, now);
                proof {
                    crate::backup::lemma_index_of_id(before, id);
                    assert(same_ids(before, self@.notes));
                    lemma_same_ids_has(before, self@.notes, id);
                }
                r
            },
            None => false,
        }
    }

    /// Sets the content of the selected note.
    pub fn update_selected_content(&mut self, content: String, now: crate::model::Timestamp) -> (r: bool)
        ensures
            selected_edit(
                old(self)@,
                final(self)@,
                r,
                |id: u128, after: Seq<NoteView>|
                    content_edit(old(self)@.notes, after, id, content@, r, now),
            ),
            selection_is_valid(old(self)@) ==> selection_is_valid(final(self)@),
    {
        match self.selected_id {
            Some(id) => {
                let ghost before = self@.notes;
                let r = NoteCollection::update_content(&mut self.notes, id, content, now);
                proof {
                    crate::backup::lemma_index_of_id(before, id);
                    assert(same_ids(before, self@.notes));
                    lemma_same_ids_has(before, self@.notes, id);
                }
                r
            },
            None => false,
        }
    }

    /// Saves a tag entry for the selected note.
    pub fn update_selected_tags(&mut self, tags: Vec<String>, now: crate::model::Timestamp) -> (r: bool)
        ensures
            selected_edit(
                old(self)@,
                final(self)@,
                r,
                |id: u128, after: Seq<NoteView>|
                    tag_edit(old(self)@.notes, after, id, entry_update(tags.deep_view()), r, now),
            ),
            selection_is_valid(old(self)@) ==> selection_is_valid(final(self)@),
    {
        match self.selected_id {
            Some(id) => {
                let ghost before = self@.notes;
                let r = NoteCollection::update_tags(&mut self.notes, id, tags, now);
                proof {
                    crate::backup::lemma_index_of_id(before, id);
                    assert(same_ids(before, self@.notes));
                    lemma_same_ids_has(before, self@.notes, id);
                }
                r
            },
            None => false,
        }
    }

    /// Removes a tag from the selected note.
    pub fn remove_selected_tag(&mut self, tag: &str, now: crate::model::Timestamp) -> (r: bool)
        ensures
            selected_edit(
                old(self)@,
                final(self)@,
                r,
                |id: u128, after: Seq<NoteView>|
                    tag_edit(old(self)@.notes, after, id, tag_removal(tag@), r, now),
            ),
            selection_is_valid(old(self)@) ==> selection_is_valid(final(self)@),
    {
        match self.selected_id {
            Some(id) => {
                let ghost before = self@.notes;
                let r = NoteCollection::remove_tag(&mut self.notes, id, tag, now);
                proof {
                    crate::backup::lemma_index_of_id(before, id);
                    assert(same_ids(before, self@.notes));
                    lemma_same_ids_has(before, self@.notes, id);
                }
                r
            },
            None => false,
        }
    }

    /// The tag cleanup the collection needs.
    pub fn tag_cleanup_plan(&self) -> (r: TagCleanupPlan)
        ensures
            changes_view(r.changes@) == cleanup_changes(self@.notes, canonical_tags(self.raw_notes())),
    {
        plan_collection_tag_cleanup(&self.notes)
    }

    /// Applies a tag cleanup plan to the collection.
    pub fn apply_tag_cleanup(&mut self, plan: &TagCleanupPlan, now: crate::model::Timestamp) -> (r: bool)
        ensures
            final(self)@ == with_notes(old(self)@, final(self)@.notes),
            r == (cleanup_applied(old(self)@.notes, changes_view(plan.changes@)).1.len() > 0),
            !r ==> final(self)@.notes == cleanup_applied(
                old(self)@.notes,
                changes_view(plan.changes@),
            ).0,
            r ==> final(self)@.notes == crate::note_collection::touch_listed(
                cleanup_applied(old(self)@.notes, changes_view(plan.changes@)).0,
                cleanup_applied(old(self)@.notes, changes_view(plan.changes@)).1,
                now,
            ),
            selection_is_valid(old(self)@) ==> selection_is_valid(final(self)@),
    {
        let ghost before = self@.notes;
        let r = NoteCollection::apply_tag_cleanup(&mut self.notes, plan, now);
        proof {
            let cs = changes_view(plan.changes@);
            lemma_applied_ids(before, cs);
            let cleaned = cleanup_applied(before, cs).0;
            assert(same_ids(before, cleaned));
            if r {
                assert(same_ids(cleaned, self@.notes));
            }
            assert(same_ids(before, self@.notes));
            if let Some(sel) = self@.selected_id {
                lemma_same_ids_has(before, self@.notes, sel);
            }
        }
        r
    }

    /// Merges a read backup into the collection and selects its first note
    /// (or keeps the first note selected); nothing changes when the backup is
    /// refused.
    pub fn import_flat_collection_backup(
        &mut self,
        read: Result<FlatCollectionBackup, serde_json::Error>,
    ) -> (r: Result<BackupImport, BackupError>)
        ensures
            match read {
                Err(e) => r == Err::<BackupImport, BackupError>(BackupError::Deserialize(e))
                    && final(self)@ == old(self)@,
                Ok(b) => match r {
                    Ok(i) => {
                        let notes = merged(old(self)@.notes, notes_view(b.notes@));
                        &&& check_outcome(b, Ok(()))
                        &&& i.selected_id == first_id(notes_view(b.notes@))
                        &&& final(self)@ == (WorkspaceView {
                            notes,
                            selected_id: match i.selected_id {
                                Some(id) => Some(id),
                                None => first_id(notes),
                            },
                            focus_intent: old(self)@.focus_intent,
                            delete_confirmation: old(self)@.delete_confirmation,
                        })
                    },
                    Err(err) => check_outcome(b, Err(err)) && final(self)@ == old(self)@,
                },
            },
            selection_is_valid(old(self)@) ==> selection_is_valid(final(self)@),
    {
        let ghost before = self@.notes;
        let ghost read_backup = read;
        let imported = crate::backup::import_flat_collection_backup(&mut self.notes, read);
        match imported {
            Ok(i) => {
                proof {
                    if let (Some(id), Ok(b)) = (i.selected_id, read_backup) {
                        let incoming = notes_view(b.notes@);
                        assert(incoming[0].id == id);
                        assert(has_id(incoming, id));
                        crate::backup::lemma_merged_ids(before, incoming, id);
                    }
                    if self@.notes.len() > 0 {
                        assert(has_id(self@.notes, self@.notes[0].id));
                    }
                }
                self.selected_id = match i.selected_id {
                    Some(id) => Some(id),
                    None => if self.notes.len() > 0 {
                        assert(notes_view(self.notes@)[0] == self.notes@[0]@);
                        Some(self.notes[0].id)
                    } else {
                        None
                    },
                };
                Ok(i)
            },
            Err(e) => Err(e),
        }
    }

    /// Asks to confirm deleting the note with the identifier, selecting it.
    pub fn request_delete(&mut self, id: u128) -> (r: bool)
        ensures
            match index_of_id(old(self)@.notes, id) {
                Some(k) => r && final(self)@ == (WorkspaceView {
                    notes: old(self)@.notes,
                    selected_id: Some(id),
                    focus_intent: old(self)@.focus_intent,
                    delete_confirmation: Some(
                        (id, display_title_seq(old(self)@.notes[k].title)),
                    ),
                }),
                None => !r && final(self)@ == old(self)@,
            },
            selection_is_valid(old(self)@) ==> selection_is_valid(final(self)@),
    {
        match find_note_index(&self.notes, id) {
            Some(k) => {
                assert(notes_view(self.notes@)[k as int] == self.notes@[k as int]@);
                let title = self.notes[k].display_title();
                self.selected_id = Some(id);
                self.delete_confirmation = Some(DeleteConfirmation { id, title });
                true
            },
            None => false,
        }
    }

    /// Closes the delete confirmation without deleting.
    pub fn cancel_delete(&mut self)
        ensures
            final(self)@ == (WorkspaceView {
                notes: old(self)@.notes,
                selected_id: old(self)@.selected_id,
                focus_intent: old(self)@.focus_intent,
                delete_confirmation: None,
            }),
            selection_is_valid(old(self)@) ==> selection_is_valid(final(self)@),
    {
        self.delete_confirmation = None;
    }

    pub fn is_delete_confirmation_open(&self) -> (r: bool)
        ensures
            r == self@.delete_confirmation is Some,
    {
        self.delete_confirmation.is_some()
    }

    /// The title shown in the delete confirmation.
    /// The identifier of the note the open confirmation names.
    pub(crate) fn delete_confirmation_id(&self) -> (r: Option<u128>)
        ensures
            r == match self@.delete_confirmation {
                Some(c) => Some(c.0),
                None => None::<u128>,
            },
    {
        match &self.delete_confirmation {
            Some(c) => Some(c.id),
            None => None,
        }
    }

    pub fn delete_confirmation_title(&self) -> (r: Option<&str>)
        ensures
            match self@.delete_confirmation {
                Some(c) => r matches Some(t) && t@ == c.1,
                None => r is None,
            },
    {
        match &self.delete_confirmation {
            Some(c) => Some(c.title.as_str()),
            None => None,
        }
    }

    /// Puts a note back at the top of the collection and selects it.
    pub fn restore_note(&mut self, note: Note)
        ensures
            final(self)@ == (WorkspaceView {
                notes: seq![note@] + old(self)@.notes,
                selected_id: Some(note.id),
                ..old(self)@
            }),
            selection_is_valid(final(self)@),
    {
        let ghost restored = note@;
        let id = note.id;
        self.notes.insert(0, note);
        self.selected_id = Some(id);
        proof {
            assert(notes_view(self.notes@) =~= seq![restored] + notes_view(old(self).notes@));
            assert(notes_view(self.notes@)[0].id == id);
        }
    }

    /// Deletes the note the confirmation names, when it still exists, and
    /// selects the first remaining note. The confirmation closes either way.
    pub fn confirm_delete(&mut self) -> (r: bool)
        ensures
            match old(self)@.delete_confirmation {
                None => !r && final(self)@ == old(self)@,
                Some(c) => {
                    let remaining = without_id(old(self)@.notes, c.0);
                    if crate::backup::has_id(old(self)@.notes, c.0) {
                        r && final(self)@ == (WorkspaceView {
                            notes: remaining,
                            selected_id: first_id(remaining),
                            focus_intent: old(self)@.focus_intent,
                            delete_confirmation: None,
                        })
                    } else {
                        !r && final(self)@ == (WorkspaceView {
                            notes: old(self)@.notes,
                            selected_id: old(self)@.selected_id,
                            focus_intent: old(self)@.focus_intent,
                            delete_confirmation: None,
                        })
                    }
                },
            },
            selection_is_valid(old(self)@) ==> selection_is_valid(final(self)@),
    {
        let confirmation = self.delete_confirmation.take();
        match confirmation {
            None => false,
            Some(c) => {
                proof {
                    crate::backup::lemma_index_of_id(notes_view(self.notes@), c.id);
                }
                match find_note_index(&self.notes, c.id) {
                    Some(_) => {
                        self.selected_id = NoteCollection::delete_note(&mut self.notes, c.id);
                        proof {
                            if self.notes@.len() > 0 {
                                assert(notes_view(self.notes@)[0] == self.notes@[0]@);
                            }
                        }
                        true
                    },
                    None => false,
                }
            },
        }
    }

    /// Flips the pin of the note with the identifier.
    pub fn toggle_pin(&mut self, id: u128, now: crate::model::Timestamp) -> (r: bool)
        ensures
            final(self)@ == with_notes(old(self)@, final(self)@.notes),
            pin_edit(old(self)@.notes, final(self)@.notes, id, r, now),
            selection_is_valid(old(self)@) ==> selection_is_valid(final(self)@),
    {
        let ghost before = self@.notes;
        let r = NoteCollection::toggle_pin(&mut self.notes, id, now);
        proof {
            crate::backup::lemma_index_of_id(before, id);
            assert(same_ids(before, self@.notes));
            if let Some(sel) = self@.selected_id {
                lemma_same_ids_has(before, self@.notes, sel);
            }
        }
        r
    }

    pub fn focus_intent(&self) -> (r: FocusIntent)
        ensures
            r == self@.focus_intent,
    {
        self.focus_intent
    }

    /// The focus intent, which is consumed.
    pub fn take_focus_intent(&mut self) -> (r: FocusIntent)
        ensures
            r == old(self)@.focus_intent,
            final(self)@ == (WorkspaceView {
                notes: old(self)@.notes,
                selected_id: old(self)@.selected_id,
                focus_intent: FocusIntent::NoFocus,
                delete_confirmation: old(self)@.delete_confirmation,
            }),
            selection_is_valid(old(self)@) ==> selection_is_valid(final(self)@),
    {
        let intent = self.focus_intent;
        self.focus_intent = FocusIntent::NoFocus;
        intent
    }

    /// The note list for a search and an active tag, with the selection.
    pub fn note_list_projection(&self, query: &str, active_tag: Option<&str>) -> (r:
        NoteListProjection)
        ensures
            r@ == projection(self@.notes, self@.selected_id, query@, opt_str_view(active_tag)),
    {
        project_note_list(self.notes.as_slice(), self.selected_id, query, active_tag)
    }
}

impl Default for NoteWorkspace {
    /// An empty workspace.
    fn default() -> (r: Self)
        ensures
            r@.notes.len() == 0,
            r@.selected_id is None,
            r@.focus_intent == FocusIntent::NoFocus,
            r@.delete_confirmation is None,
    {
        NoteWorkspace {
            notes: Vec::new(),
            selected_id: None,
            focus_intent: FocusIntent::NoFocus,
            delete_confirmation: None,
        }
    }
}

} // verus!
