//! The app's state as one value: the workspace, the note list's search and
//! tag, the window class and note-list visibility, the view mode, the save
//! status, backup health, notifications and storage recovery, with the
//! decisions each user action takes. The browser holds one such value and
//! performs the storage and timing around it.
use vstd::prelude::*;
use crate::backup::{
    BackupError, BackupHealth, BackupHealthRecord, BackupImportPreview, FlatCollectionBackup,
    assess_backup_health,
    backup_health, backup_health_summary, footer_date,
};
use crate::editor_view::EditorViewMode;
use crate::model::{Note, NoteView, Timestamp, notes_view};
use crate::note_discovery::{
    NoteListItem, NoteListProjection, SelectedNoteVisibility, opt_str_view, projection,
};
use crate::note_list_interaction::{
    InteractionView, NoteActionControls, NoteListCommand, NoteListDisplayState, NoteListInteraction,
    display_state_of, selected_tag,
};
use crate::note_workspace::{
    FocusIntent, NoteWorkspace, WorkspaceDisplayState, WorkspaceView, selection_is_valid,
};
use crate::notifications::{
    GlobalNotification, NotificationCenter, NotificationCenterView, NotificationTone,
};
use crate::storage::SaveStatus;
use crate::storage_recovery::StorageRecoveryState;
use crate::tag_rules::{TagCleanupPlan, TagSuggestion, collect_note_tags, suggest_existing_tags};
use crate::ui::responsive_navigation::{
    NoteListPersistence, ResponsiveNavigation, StoredNoteListState, ViewportClass,
    normalize_view_mode, normalized_view_mode, persistence_for, stored_state,
};

verus! {

broadcast use vstd::string::group_string_axioms;

/// What the app starts from.
#[derive(Debug, Clone)]
pub struct AppRuntimeStartup {
    pub notes: Vec<Note>,
    pub recently_deleted_notes: Vec<Note>,
    pub is_dark_mode: bool,
    pub viewport_class: ViewportClass,
    pub stored_note_list_state: StoredNoteListState,
    pub backup_health_record: Option<BackupHealthRecord>,
    pub storage_recovery: Option<StorageRecoveryState>,
}

/// What the app persists, taken at one moment.
#[derive(Debug, Clone, PartialEq, Eq)]
pub struct RuntimePersistenceSnapshot {
    pub is_dark_mode: bool,
    pub viewport_class: ViewportClass,
    pub note_list_state_to_persist: Option<StoredNoteListState>,
    pub notes_save_revision: u64,
    pub notes: Vec<Note>,
    pub recently_deleted_notes: Vec<Note>,
    pub editor_view_mode: EditorViewMode,
    pub backup_health_record: Option<BackupHealthRecord>,
    pub save_status: SaveStatus,
}

/// The app's state.
#[derive(Debug, Clone)]
pub struct AppState {
    workspace: NoteWorkspace,
    recently_deleted_notes: Vec<Note>,
    clear_all_recently_deleted_pending: bool,
    storage_recovery: Option<StorageRecoveryState>,
    notes_save_revision: u64,
    is_dark_mode: bool,
    viewport_class: ViewportClass,
    is_sidebar_open: bool,
    note_list_interaction: NoteListInteraction,
    editor_view_mode: EditorViewMode,
    save_status: SaveStatus,
    backup_health_record: Option<BackupHealthRecord>,
    notifications: NotificationCenter,
}

/// The app's state as mathematical values.
pub struct AppStateView {
    pub workspace: WorkspaceView,
    pub recently_deleted: Seq<NoteView>,
    pub clear_all_pending: bool,
    pub storage_recovery: Option<StorageRecoveryState>,
    pub revision: u64,
    pub is_dark_mode: bool,
    pub viewport: ViewportClass,
    pub is_sidebar_open: bool,
    pub interaction: InteractionView,
    pub view_mode: EditorViewMode,
    pub save_status: SaveStatus,
    pub backup_record: Option<BackupHealthRecord>,
    pub notifications: NotificationCenterView,
}

impl View for AppState {
    type V = AppStateView;

    closed spec fn view(&self) -> AppStateView {
        AppStateView {
            workspace: self.workspace@,
            recently_deleted: notes_view(self.recently_deleted_notes@),
            clear_all_pending: self.clear_all_recently_deleted_pending,
            storage_recovery: self.storage_recovery,
            revision: self.notes_save_revision,
            is_dark_mode: self.is_dark_mode,
            viewport: self.viewport_class,
            is_sidebar_open: self.is_sidebar_open,
            interaction: self.note_list_interaction@,
            view_mode: self.editor_view_mode,
            save_status: self.save_status,
            backup_record: self.backup_health_record,
            notifications: self.notifications@,
        }
    }
}

/// The revision after a change of the notes, wrapping past the largest.
pub open spec fn next_revision(revision: u64) -> u64 {
    if revision == u64::MAX {
        0
    } else {
        (revision + 1) as u64
    }
}

/// The revision after an operation that says whether it changed the notes.
pub open spec fn revision_after(revision: u64, changed: bool) -> u64 {
    if changed {
        next_revision(revision)
    } else {
        revision
    }
}

/// Whether the note list stays visible once a note is selected: only in a
/// wide window, and only when it was visible.
pub open spec fn visible_after_selection(s: AppStateView) -> bool {
    s.is_sidebar_open && s.viewport == ViewportClass::Wide
}

/// The state with another workspace, revision and note-list visibility.
pub open spec fn after_workspace(s: AppStateView, w: WorkspaceView, revision: u64, sidebar: bool) -> AppStateView {
    AppStateView { workspace: w, revision, is_sidebar_open: sidebar, ..s }
}

/// A workspace freshly made on notes: the first note selected, nothing
/// pending.
pub open spec fn fresh_workspace(notes: Seq<NoteView>) -> WorkspaceView {
    WorkspaceView {
        notes,
        selected_id: crate::backup::first_id(notes),
        focus_intent: FocusIntent::NoFocus,
        delete_confirmation: None,
    }
}

/// The notifications after one more is shown.
pub open spec fn notified(n: NotificationCenterView, message: Seq<char>, tone: NotificationTone) -> NotificationCenterView {
    NotificationCenterView {
        current: Some((crate::notifications::next_id(n.sequence), message, tone)),
        sequence: crate::notifications::next_id(n.sequence),
    }
}

/// The state after a backup's notes were merged into the collection: the
/// backup's first note is selected (or the collection's first, for an empty
/// backup), and the notes changed.
pub open spec fn imported_state(s: AppStateView, incoming: Seq<NoteView>) -> AppStateView {
    let notes = crate::backup::merged(s.workspace.notes, incoming);
    AppStateView {
        workspace: WorkspaceView {
            notes,
            selected_id: match crate::backup::first_id(incoming) {
                Some(id) => Some(id),
                None => crate::backup::first_id(notes),
            },
            ..s.workspace
        },
        revision: next_revision(s.revision),
        ..s
    }
}

/// The state after the open delete confirmation is accepted: the note it
/// names, when it still exists, leaves the collection for the top of
/// Recently Deleted and the first remaining note is selected; the
/// confirmation closes either way.
pub open spec fn after_confirmed_delete(s: AppStateView) -> AppStateView {
    match s.workspace.delete_confirmation {
        None => s,
        Some(c) => match crate::model::index_of_id(s.workspace.notes, c.0) {
            Some(k) => {
                let remaining = crate::note_collection::without_id(s.workspace.notes, c.0);
                AppStateView {
                    workspace: WorkspaceView {
                        notes: remaining,
                        selected_id: crate::backup::first_id(remaining),
                        delete_confirmation: None,
                        ..s.workspace
                    },
                    recently_deleted: seq![s.workspace.notes[k]] + s.recently_deleted,
                    revision: next_revision(s.revision),
                    ..s
                }
            },
            None => AppStateView {
                workspace: WorkspaceView { delete_confirmation: None, ..s.workspace },
                ..s
            },
        },
    }
}

/// The state after a note of Recently Deleted is restored: the first note
/// there with the identifier goes back to the top of the collection and is
/// selected, as after any selection, and the notes changed. Nothing changes
/// for an unknown identifier.
pub open spec fn after_restored(s: AppStateView, id: u128) -> AppStateView {
    match crate::model::index_of_id(s.recently_deleted, id) {
        Some(k) => AppStateView {
            workspace: WorkspaceView {
                notes: seq![s.recently_deleted[k]] + s.workspace.notes,
                selected_id: Some(id),
                ..s.workspace
            },
            recently_deleted: s.recently_deleted.remove(k),
            revision: next_revision(s.revision),
            is_sidebar_open: visible_after_selection(s),
            ..s
        },
        None => s,
    }
}

/// Deleting a note and then restoring it puts the note back at the top of
/// the collection, selected, and leaves Recently Deleted as it was before
/// the delete.
pub proof fn lemma_delete_then_restore(s: AppStateView, id: u128)
    requires
        s.workspace.delete_confirmation matches Some(c) && c.0 == id,
        crate::model::index_of_id(s.workspace.notes, id) is Some,
    ensures
        ({
            let k = crate::model::index_of_id(s.workspace.notes, id)->0;
            let back = after_restored(after_confirmed_delete(s), id);
            &&& back.recently_deleted == s.recently_deleted
            &&& back.workspace.notes == seq![s.workspace.notes[k]]
                + crate::note_collection::without_id(s.workspace.notes, id)
            &&& back.workspace.selected_id == Some(id)
        }),
{
    crate::backup::lemma_index_of_id(s.workspace.notes, id);
    let k = crate::model::index_of_id(s.workspace.notes, id)->0;
    let d = after_confirmed_delete(s);
    let n = s.workspace.notes[k];
    assert(d.recently_deleted[0] == n);
    assert(n.id == id);
    assert(crate::model::index_of_id(d.recently_deleted, id) == Some(0int));
    assert(d.recently_deleted.remove(0) =~= s.recently_deleted);
}

/// The note list ready to draw: its rows and what the list shows.
#[derive(Debug, Clone, PartialEq, Eq)]
pub struct NoteListRenderModel {
    pub projection: NoteListProjection,
    pub display_state: NoteListDisplayState,
}

/// How an export of the backup ended.
#[derive(Debug, Clone, PartialEq, Eq)]
pub enum BackupExportOutcome {
    /// The backup was written and offered as a download.
    Downloaded,
    /// The download could not be offered; the reason is shown as given.
    DownloadFailed(String),
    /// The backup could not be written.
    ExportFailed,
}

/// A backup that was read and checked, waiting for its import to be
/// confirmed.
#[derive(Debug, Clone, PartialEq, Eq)]
pub struct PendingBackupImport {
    pub backup_json: String,
    pub preview: BackupImportPreview,
}

impl AppState {
    /// The notes themselves (their views are `self@.workspace.notes`).
    pub closed spec fn raw_notes(&self) -> Seq<Note> {
        self.workspace.raw_notes()
    }

    /// The state the app starts in: the collections given, with the first
    /// note selected; the note list as the window and the stored state say.
    pub fn from_startup(startup: AppRuntimeStartup) -> (r: Self)
        ensures
            r@.workspace == fresh_workspace(notes_view(startup.notes@)),
            r@.recently_deleted == notes_view(startup.recently_deleted_notes@),
            !r@.clear_all_pending,
            r@.storage_recovery == startup.storage_recovery,
            r@.revision == 0,
            r@.is_dark_mode == startup.is_dark_mode,
            r@.viewport == startup.viewport_class,
            r@.is_sidebar_open == (startup.viewport_class == ViewportClass::Wide
                || startup.stored_note_list_state == StoredNoteListState::Open),
            r@.interaction.search_input.len() == 0,
            r@.interaction.committed_search.len() == 0,
            r@.interaction.active_tag is None,
            r@.view_mode == EditorViewMode::Write,
            r@.save_status == SaveStatus::Saved,
            r@.backup_record == startup.backup_health_record,
            r@.notifications.current is None,
            r@.notifications.sequence == 0,
    {
        let navigation = ResponsiveNavigation::initial(
            startup.viewport_class,
            startup.stored_note_list_state,
        );
        proof {
            if startup.notes@.len() > 0 {
                assert(notes_view(startup.notes@)[0].id == startup.notes@[0].id);
            }
        }
        AppState {
            workspace: NoteWorkspace::new(startup.notes),
            recently_deleted_notes: startup.recently_deleted_notes,
            clear_all_recently_deleted_pending: false,
            storage_recovery: startup.storage_recovery,
            notes_save_revision: 0,
            is_dark_mode: startup.is_dark_mode,
            viewport_class: startup.viewport_class,
            is_sidebar_open: navigation.is_note_list_visible(),
            note_list_interaction: NoteListInteraction::default(),
            editor_view_mode: EditorViewMode::Write,
            save_status: SaveStatus::Saved,
            backup_health_record: startup.backup_health_record,
            notifications: NotificationCenter::new(),
        }
    }

    // -----------------------------------------------------------------------
    // Reading the state
    // -----------------------------------------------------------------------

    /// The notes of the collection.
    pub fn notes_untracked(&self) -> (r: &[Note])
        ensures
            notes_view(r@) == self@.workspace.notes,
    {
        self.workspace.notes()
    }

    pub fn recently_deleted_notes(&self) -> (r: &[Note])
        ensures
            notes_view(r@) == self@.recently_deleted,
    {
        self.recently_deleted_notes.as_slice()
    }

    pub fn selected_id(&self) -> (r: Option<u128>)
        ensures
            r == self@.workspace.selected_id,
    {
        self.workspace.selected_id()
    }

    pub fn selected_note(&self) -> (r: Option<Note>)
        ensures
            match crate::note_workspace::selected_position(self@.workspace) {
                Some(k) => r matches Some(n) && n@ == self@.workspace.notes[k],
                None => r is None,
            },
    {
        self.workspace.selected_note()
    }

    pub fn workspace_display_state(&self) -> (r: WorkspaceDisplayState)
        ensures
            r == crate::note_workspace::display_state_of(self@.workspace),
    {
        self.workspace.display_state()
    }

    pub fn storage_recovery(&self) -> (r: Option<&StorageRecoveryState>)
        ensures
            match self@.storage_recovery {
                Some(s) => r == Some(&s),
                None => r is None,
            },
    {
        self.storage_recovery.as_ref()
    }

    /// Whether recovery can offer the previous snapshot.
    pub fn has_previous_snapshot(&self) -> (r: bool)
        ensures
            r == (self@.storage_recovery matches Some(s) && s.previous_snapshot is Some),
    {
        match &self.storage_recovery {
            Some(recovery) => recovery.previous_snapshot.is_some(),
            None => false,
        }
    }

    pub fn notes_save_revision(&self) -> (r: u64)
        ensures
            r == self@.revision,
    {
        self.notes_save_revision
    }

    pub fn is_dark_mode(&self) -> (r: bool)
        ensures
            r == self@.is_dark_mode,
    {
        self.is_dark_mode
    }

    pub fn viewport_class(&self) -> (r: ViewportClass)
        ensures
            r == self@.viewport,
    {
        self.viewport_class
    }

    pub fn is_sidebar_open(&self) -> (r: bool)
        ensures
            r == self@.is_sidebar_open,
    {
        self.is_sidebar_open
    }

    pub fn editor_view_mode(&self) -> (r: EditorViewMode)
        ensures
            r == self@.view_mode,
    {
        self.editor_view_mode
    }

    pub fn save_status(&self) -> (r: SaveStatus)
        ensures
            r == self@.save_status,
    {
        self.save_status
    }

    pub fn backup_health_record(&self) -> (r: Option<BackupHealthRecord>)
        ensures
            r == self@.backup_record,
    {
        self.backup_health_record
    }

    /// The note list for the committed search and the active tag, with what
    /// it shows: rows, the empty collection, or an empty filter result.
    pub fn note_list_render_model(&self) -> (r: NoteListRenderModel)
        ensures
            r.projection@ == projection(
                self@.workspace.notes,
                self@.workspace.selected_id,
                self@.interaction.committed_search,
                self@.interaction.active_tag,
            ),
            r.display_state == display_state_of(
                self@.workspace.notes.len() as int,
                r.projection.rows@.len() as int,
                r.projection.has_active_filter,
            ),
    {
        let projection = self.note_list_interaction.project_notes(
            self.workspace.notes(),
            self.workspace.selected_id(),
        );
        let display_state = self.note_list_interaction.display_state(
            self.workspace.notes().len(),
            &projection,
        );
        NoteListRenderModel { projection, display_state }
    }

    /// Whether the list's filter hides the selected note.
    pub fn selected_note_is_hidden_by_filter(&self) -> (r: bool)
        ensures
            r == (projection(
                self@.workspace.notes,
                self@.workspace.selected_id,
                self@.interaction.committed_search,
                self@.interaction.active_tag,
            ).selected_note_visibility == SelectedNoteVisibility::HiddenByFilter),
    {
        let p = self.note_list_render_model().projection;
        match p.selected_note_visibility {
            SelectedNoteVisibility::HiddenByFilter => true,
            _ => false,
        }
    }

    pub fn note_search_input(&self) -> (r: &str)
        ensures
            r@ == self@.interaction.search_input,
    {
        self.note_list_interaction.search_input()
    }

    pub fn active_tag(&self) -> (r: Option<&str>)
        ensures
            opt_str_view(r) == self@.interaction.active_tag,
    {
        self.note_list_interaction.active_tag()
    }

    /// The pin and delete controls of a row.
    pub fn note_actions(&self, row: &NoteListItem) -> (r: NoteActionControls)
        ensures
            r.pin_command == NoteListCommand::TogglePin(row.id),
            r.delete_command == NoteListCommand::RequestDelete(row.id),
            r.pin_label@ == (if row.is_pinned {
                "Unpin"@
            } else {
                "Pin"@
            }),
    {
        self.note_list_interaction.note_actions(row)
    }

    /// The distinct tags of the collection, in listing order.
    pub fn available_tags(&self) -> (r: Vec<String>)
        ensures
            r.deep_view() == crate::tag_rules::collection_tags(self.raw_notes()),
    {
        collect_note_tags(self.workspace.notes())
    }

    /// Tag suggestions for the selected note's tag entry.
    pub fn tag_suggestions(&self, input: &str) -> (r: Vec<TagSuggestion>)
        ensures
            crate::tag_rules::suggestion_views(r@) == crate::tag_rules::suggestions_from(
                crate::tag_rules::collection_tags(self.raw_notes()),
                match crate::note_workspace::selected_position(self@.workspace) {
                    Some(k) => Some(self@.workspace.notes[k]),
                    None => None,
                },
                input@,
            ),
    {
        let selected = self.workspace.selected_note();
        match &selected {
            Some(n) => suggest_existing_tags(self.workspace.notes(), Some(n), input),
            None => suggest_existing_tags(self.workspace.notes(), None, input),
        }
    }

    /// The cleanup the collection's tags need.
    pub fn tag_cleanup_plan(&self) -> (r: TagCleanupPlan)
        ensures
            crate::tag_rules::changes_view(r.changes@) == crate::tag_rules::cleanup_changes(
                self@.workspace.notes,
                crate::tag_rules::canonical_tags(self.raw_notes()),
            ),
    {
        self.workspace.tag_cleanup_plan()
    }

    pub fn focus_intent(&self) -> (r: FocusIntent)
        ensures
            r == self@.workspace.focus_intent,
    {
        self.workspace.focus_intent()
    }

    pub fn is_delete_confirmation_open(&self) -> (r: bool)
        ensures
            r == self@.workspace.delete_confirmation is Some,
    {
        self.workspace.is_delete_confirmation_open()
    }

    pub fn delete_confirmation_title(&self) -> (r: Option<&str>)
        ensures
            match self@.workspace.delete_confirmation {
                Some(c) => r matches Some(t) && t@ == c.1,
                None => r is None,
            },
    {
        self.workspace.delete_confirmation_title()
    }

    /// What remembering the note list's state would store, if anything.
    pub fn note_list_state_to_persist(&self) -> (r: Option<StoredNoteListState>)
        ensures
            r == match persistence_for(self@.viewport, self@.is_sidebar_open) {
                NoteListPersistence::Persist(s) => Some(s),
                NoteListPersistence::Skip => None,
            },
    {
        match ResponsiveNavigation::current(self.viewport_class, self.is_sidebar_open).persistence() {
            NoteListPersistence::Persist(stored) => Some(stored),
            NoteListPersistence::Skip => None,
        }
    }

    /// Everything the app persists, at this moment.
    pub fn persistence_snapshot(&self) -> (r: RuntimePersistenceSnapshot)
        ensures
            r.is_dark_mode == self@.is_dark_mode,
            r.viewport_class == self@.viewport,
            r.note_list_state_to_persist == match persistence_for(
                self@.viewport,
                self@.is_sidebar_open,
            ) {
                NoteListPersistence::Persist(s) => Some(s),
                NoteListPersistence::Skip => None,
            },
            r.notes_save_revision == self@.revision,
            notes_view(r.notes@) == self@.workspace.notes,
            notes_view(r.recently_deleted_notes@) == self@.recently_deleted,
            r.editor_view_mode == self@.view_mode,
            r.backup_health_record == self@.backup_record,
            r.save_status == self@.save_status,
    {
        RuntimePersistenceSnapshot {
            is_dark_mode: self.is_dark_mode,
            viewport_class: self.viewport_class,
            note_list_state_to_persist: self.note_list_state_to_persist(),
            notes_save_revision: self.notes_save_revision,
            notes: crate::model::copy_notes(self.workspace.notes()),
            recently_deleted_notes: crate::model::copy_notes(
                self.recently_deleted_notes.as_slice(),
            ),
            editor_view_mode: self.editor_view_mode,
            backup_health_record: self.backup_health_record,
            save_status: self.save_status,
        }
    }

    /// The health of the backups at `now`.
    pub fn backup_health(&self, now: Timestamp) -> (r: BackupHealth)
        ensures
            r == backup_health(self@.backup_record, now),
    {
        assess_backup_health(self.backup_health_record, now)
    }

    /// What the backup footer says at `now`.
    pub fn backup_health_summary(&self, now: Timestamp) -> (r: String)
        ensures
            r@ == match backup_health(self@.backup_record, now) {
                BackupHealth::Missing => "No backup yet. Export now"@,
                BackupHealth::Recent { last_successful_export_at } => "Backed up "@ + footer_date(
                    last_successful_export_at,
                ),
                BackupHealth::Stale { last_successful_export_at } => "Backup stale "@
                    + footer_date(last_successful_export_at) + ". Export now"@,
            },
    {
        backup_health_summary(self.backup_health_record, now)
    }

    pub fn current_notification(&self) -> (r: Option<GlobalNotification>)
        ensures
            match self@.notifications.current {
                Some((id, message, tone)) => r matches Some(n) && n.id == id && n.message@
                    == message && n.tone == tone,
                None => r is None,
            },
    {
        self.notifications.current()
    }

    // -----------------------------------------------------------------------
    // Changing the state
    // -----------------------------------------------------------------------

    fn mark_notes_changed(&mut self)
        ensures
            final(self)@ == (AppStateView { revision: next_revision(old(self)@.revision), ..old(self)@ }),
    {
        self.notes_save_revision = self.notes_save_revision.wrapping_add(1);
    }

    fn note_selected(&mut self)
        ensures
            final(self)@ == (AppStateView { is_sidebar_open: visible_after_selection(old(self)@), ..old(self)@ }),
    {
        let mut navigation = ResponsiveNavigation::current(self.viewport_class, self.is_sidebar_open);
        navigation.note_selected();
        self.is_sidebar_open = navigation.is_note_list_visible();
    }

    pub fn edit_note_search(&mut self, input: String)
        ensures
            final(self)@ == (AppStateView {
                interaction: InteractionView { search_input: input@, ..old(self)@.interaction },
                ..old(self)@
            }),
    {
        self.note_list_interaction.edit_search(input);
    }

    pub fn commit_note_search(&mut self)
        ensures
            final(self)@ == (AppStateView {
                interaction: InteractionView {
                    committed_search: old(self)@.interaction.search_input,
                    ..old(self)@.interaction
                },
                ..old(self)@
            }),
    {
        self.note_list_interaction.commit_search();
    }

    pub fn select_active_tag(&mut self, tag: String)
        ensures
            final(self)@ == (AppStateView {
                interaction: InteractionView { active_tag: selected_tag(tag@), ..old(self)@.interaction },
                ..old(self)@
            }),
    {
        self.note_list_interaction.select_tag(tag);
    }

    pub fn clear_active_tag(&mut self)
        ensures
            final(self)@ == (AppStateView {
                interaction: InteractionView { active_tag: None, ..old(self)@.interaction },
                ..old(self)@
            }),
    {
        self.note_list_interaction.clear_tag();
    }

    /// Creates a note, selects it, asks for title focus and shows the writing
    /// surface on small screens.
    pub fn quick_capture_note(&mut self, now: Timestamp)
        ensures
            final(self)@.workspace.notes.skip(1) == old(self)@.workspace.notes,
            final(self)@.workspace.notes.len() == old(self)@.workspace.notes.len() + 1,
            final(self)@.workspace.notes[0].title.len() == 0,
            final(self)@.workspace.notes[0].content.len() == 0,
            final(self)@.workspace.notes[0].tags.len() == 0,
            !final(self)@.workspace.notes[0].is_pinned,
            final(self)@.workspace.notes[0].created == now,
            final(self)@.workspace.notes[0].last_modified == now,
            final(self)@.workspace.selected_id == Some(final(self)@.workspace.notes[0].id),
            final(self)@.workspace.focus_intent == FocusIntent::NoteTitle,
            final(self)@.workspace.delete_confirmation == old(self)@.workspace.delete_confirmation,
            final(self)@ == after_workspace(
                old(self)@,
                final(self)@.workspace,
                next_revision(old(self)@.revision),
                visible_after_selection(old(self)@),
            ),
    {
        self.workspace.create_note(now);
        self.note_selected();
        self.mark_notes_changed();
    }

    /// The note list's New button: the same as quick capture.
    pub fn create_note(&mut self, now: Timestamp)
        ensures
            final(self)@.workspace.notes.skip(1) == old(self)@.workspace.notes,
            final(self)@.workspace.notes.len() == old(self)@.workspace.notes.len() + 1,
            final(self)@.workspace.notes[0].title.len() == 0,
            final(self)@.workspace.notes[0].content.len() == 0,
            final(self)@.workspace.notes[0].tags.len() == 0,
            !final(self)@.workspace.notes[0].is_pinned,
            final(self)@.workspace.notes[0].created == now,
            final(self)@.workspace.notes[0].last_modified == now,
            final(self)@.workspace.selected_id == Some(final(self)@.workspace.notes[0].id),
            final(self)@.workspace.focus_intent == FocusIntent::NoteTitle,
            final(self)@.workspace.delete_confirmation == old(self)@.workspace.delete_confirmation,
            final(self)@ == after_workspace(
                old(self)@,
                final(self)@.workspace,
                next_revision(old(self)@.revision),
                visible_after_selection(old(self)@),
            ),
    {
        self.quick_capture_note(now);
    }

    /// Selects a note that exists, returning to the writing surface on small
    /// screens; nothing changes for an unknown identifier.
    pub fn select_note(&mut self, id: u128)
        ensures
            if crate::backup::has_id(old(self)@.workspace.notes, id) {
                final(self)@ == after_workspace(
                    old(self)@,
                    WorkspaceView { selected_id: Some(id), ..old(self)@.workspace },
                    old(self)@.revision,
                    visible_after_selection(old(self)@),
                )
            } else {
                final(self)@ == old(self)@
            },
    {
        let selected = self.workspace.select_note(id);
        if selected {
            self.note_selected();
        }
    }

    /// A row of the note list was chosen.
    pub fn select_note_list_row(&mut self, id: u128)
        ensures
            if crate::backup::has_id(old(self)@.workspace.notes, id) {
                final(self)@ == after_workspace(
                    old(self)@,
                    WorkspaceView { selected_id: Some(id), ..old(self)@.workspace },
                    old(self)@.revision,
                    visible_after_selection(old(self)@),
                )
            } else {
                final(self)@ == old(self)@
            },
    {
        self.select_note(id);
    }

    /// Asks to confirm deleting a note.
    pub fn request_delete_note(&mut self, id: u128)
        ensures
            match crate::model::index_of_id(old(self)@.workspace.notes, id) {
                Some(k) => final(self)@ == (AppStateView {
                    workspace: WorkspaceView {
                        selected_id: Some(id),
                        delete_confirmation: Some(
                            (id, crate::model::display_title_seq(old(self)@.workspace.notes[k].title)),
                        ),
                        ..old(self)@.workspace
                    },
                    ..old(self)@
                }),
                None => final(self)@ == old(self)@,
            },
    {
        self.workspace.request_delete(id);
    }

    /// Flips a note's pin; the notes changed when the note exists.
    pub fn toggle_note_pin(&mut self, id: u128, now: Timestamp)
        ensures
            crate::note_collection::pin_edit(
                old(self)@.workspace.notes,
                final(self)@.workspace.notes,
                id,
                crate::backup::has_id(old(self)@.workspace.notes, id), now,
            ),
            final(self)@ == (AppStateView {
                workspace: WorkspaceView { notes: final(self)@.workspace.notes, ..old(self)@.workspace },
                revision: revision_after(
                    old(self)@.revision,
                    crate::backup::has_id(old(self)@.workspace.notes, id),
                ),
                ..old(self)@
            }),
    {
        proof {
            crate::backup::lemma_index_of_id(self@.workspace.notes, id);
        }
        let updated = self.workspace.toggle_pin(id, now);
        if updated {
            self.mark_notes_changed();
        }
    }

    /// Carries out a command of the note list.
    pub fn apply_note_list_command(&mut self, command: NoteListCommand, now: Timestamp)
        ensures
            match command {
                NoteListCommand::SelectNote(id) => if crate::backup::has_id(
                    old(self)@.workspace.notes,
                    id,
                ) {
                    final(self)@ == after_workspace(
                        old(self)@,
                        WorkspaceView { selected_id: Some(id), ..old(self)@.workspace },
                        old(self)@.revision,
                        visible_after_selection(old(self)@),
                    )
                } else {
                    final(self)@ == old(self)@
                },
                NoteListCommand::TogglePin(id) => crate::note_collection::pin_edit(
                    old(self)@.workspace.notes,
                    final(self)@.workspace.notes,
                    id,
                    crate::backup::has_id(old(self)@.workspace.notes, id), now,
                ) && final(self)@ == (AppStateView {
                    workspace: WorkspaceView { notes: final(self)@.workspace.notes, ..old(self)@.workspace },
                    revision: revision_after(
                        old(self)@.revision,
                        crate::backup::has_id(old(self)@.workspace.notes, id),
                    ),
                    ..old(self)@
                }),
                NoteListCommand::RequestDelete(id) => match crate::model::index_of_id(
                    old(self)@.workspace.notes,
                    id,
                ) {
                    Some(k) => final(self)@ == (AppStateView {
                        workspace: WorkspaceView {
                            selected_id: Some(id),
                            delete_confirmation: Some(
                                (
                                    id,
                                    crate::model::display_title_seq(
                                        old(self)@.workspace.notes[k].title,
                                    ),
                                ),
                            ),
                            ..old(self)@.workspace
                        },
                        ..old(self)@
                    }),
                    None => final(self)@ == old(self)@,
                },
            },
    {
        match command {
            NoteListCommand::SelectNote(id) => self.select_note(id),
            NoteListCommand::TogglePin(id) => self.toggle_note_pin(id, now),
            NoteListCommand::RequestDelete(id) => self.request_delete_note(id),
        }
    }

    pub fn cancel_delete_note(&mut self)
        ensures
            final(self)@ == (AppStateView {
                workspace: WorkspaceView { delete_confirmation: None, ..old(self)@.workspace },
                ..old(self)@
            }),
    {
        self.workspace.cancel_delete();
    }

    /// Deletes the note the confirmation names, when it still exists: it
    /// leaves the collection and goes to the top of Recently Deleted, and the
    /// notes changed. The confirmation closes either way.
    #[verifier::spinoff_prover]
    #[verifier::rlimit(40)]
    pub fn confirm_delete_selected_note(&mut self)
        ensures
            final(self)@ == after_confirmed_delete(old(self)@),
    {
        let ghost old_s = self@;
        let found = match self.workspace.delete_confirmation_id() {
            Some(id) => crate::model::find_note_index(self.workspace.notes(), id),
            None => None,
        };
        let deleted_note = match found {
            Some(k) => Some(self.workspace.notes()[k].duplicate()),
            None => None,
        };
        proof {
            if let Some(c) = old_s.workspace.delete_confirmation {
                crate::backup::lemma_index_of_id(old_s.workspace.notes, c.0);
            }
            if let Some(k) = found {
                assert(notes_view(self.raw_notes())[k as int] == self.raw_notes()[k as int]@);
            }
        }
        assert(found matches Some(k) ==> (deleted_note matches Some(n) && n@
            == old_s.workspace.notes[k as int]));
        let deleted = self.workspace.confirm_delete();
        assert(deleted == found is Some);
        if let Some(note) = deleted_note {
            let ghost before = self.recently_deleted_notes@;
            self.recently_deleted_notes.insert(0, note);
            proof {
                assert(notes_view(self.recently_deleted_notes@) =~= seq![note@] + notes_view(
                    before,
                ));
            }
            self.mark_notes_changed();
        }
        assert(self@.workspace == after_confirmed_delete(old_s).workspace);
        assert(self@.recently_deleted == after_confirmed_delete(old_s).recently_deleted);
        assert(self@.revision == after_confirmed_delete(old_s).revision);
    }

    /// Restores a note from Recently Deleted to the top of the collection
    /// and selects it; the notes changed. Nothing happens for an unknown
    /// identifier. Says whether it restored.
    #[verifier::spinoff_prover]
    #[verifier::rlimit(40)]
    pub fn restore_recently_deleted_note(&mut self, id: u128) -> (restored: bool)
        ensures
            restored == crate::model::index_of_id(old(self)@.recently_deleted, id) is Some,
            final(self)@ == after_restored(old(self)@, id),
    {
        match crate::model::find_note_index(self.recently_deleted_notes.as_slice(), id) {
            Some(k) => {
                let ghost before = self.recently_deleted_notes@;
                let note = self.recently_deleted_notes.remove(k);
                proof {
                    assert(notes_view(self.recently_deleted_notes@) =~= notes_view(before).remove(
                        k as int,
                    ));
                    assert(notes_view(before)[k as int] == note@);
                }
                self.workspace.restore_note(note);
                self.note_selected();
                self.mark_notes_changed();
                true
            },
            None => false,
        }
    }

    /// Removes a note from Recently Deleted for good; the notes changed.
    /// Nothing happens for an unknown identifier. Says whether it removed.
    pub fn permanently_clear_recently_deleted_note(&mut self, id: u128) -> (cleared: bool)
        ensures
            cleared == crate::model::index_of_id(old(self)@.recently_deleted, id) is Some,
            match crate::model::index_of_id(old(self)@.recently_deleted, id) {
                Some(k) => final(self)@ == (AppStateView {
                    recently_deleted: old(self)@.recently_deleted.remove(k),
                    revision: next_revision(old(self)@.revision),
                    ..old(self)@
                }),
                None => final(self)@ == old(self)@,
            },
    {
        match crate::model::find_note_index(self.recently_deleted_notes.as_slice(), id) {
            Some(k) => {
                let ghost before = self.recently_deleted_notes@;
                self.recently_deleted_notes.remove(k);
                proof {
                    assert(notes_view(self.recently_deleted_notes@) =~= notes_view(before).remove(
                        k as int,
                    ));
                }
                self.mark_notes_changed();
                true
            },
            None => false,
        }
    }

    /// Asks to confirm clearing Recently Deleted, when it holds any note.
    pub fn request_clear_all_recently_deleted(&mut self)
        ensures
            final(self)@ == (AppStateView {
                clear_all_pending: old(self)@.recently_deleted.len() > 0,
                ..old(self)@
            }),
    {
        self.clear_all_recently_deleted_pending = self.recently_deleted_notes.len() > 0;
    }

    /// How many notes a confirmation of clearing Recently Deleted would
    /// remove, while one is asked for.
    pub fn clear_all_recently_deleted_confirmation_count(&self) -> (r: Option<usize>)
        ensures
            r == (if self@.clear_all_pending {
                Some(self@.recently_deleted.len() as usize)
            } else {
                None
            }),
    {
        if self.clear_all_recently_deleted_pending {
            Some(self.recently_deleted_notes.len())
        } else {
            None
        }
    }

    pub fn cancel_clear_all_recently_deleted(&mut self)
        ensures
            final(self)@ == (AppStateView { clear_all_pending: false, ..old(self)@ }),
    {
        self.clear_all_recently_deleted_pending = false;
    }

    /// Clears Recently Deleted when that was asked for, and says so; the
    /// notes changed when it held any. Says whether it cleared any.
    pub fn confirm_clear_all_recently_deleted_notes(&mut self) -> (cleared: bool)
        ensures
            cleared == (old(self)@.clear_all_pending && old(self)@.recently_deleted.len() > 0),
            !old(self)@.clear_all_pending ==> final(self)@ == old(self)@,
            old(self)@.clear_all_pending ==> final(self)@ == (AppStateView {
                recently_deleted: Seq::empty(),
                clear_all_pending: false,
                revision: revision_after(old(self)@.revision, cleared),
                notifications: if cleared {
                    notified(
                        old(self)@.notifications,
                        "Recently Deleted cleared"@,
                        NotificationTone::Success,
                    )
                } else {
                    old(self)@.notifications
                },
                ..old(self)@
            }),
    {
        if !self.clear_all_recently_deleted_pending {
            return false;
        }
        let cleared = self.recently_deleted_notes.len() > 0;
        let none: Vec<Note> = Vec::new();
        assert(notes_view(none@) =~= Seq::<NoteView>::empty());
        self.recently_deleted_notes = none;
        self.clear_all_recently_deleted_pending = false;
        if cleared {
            self.mark_notes_changed();
            self.notifications.show(
                String::from_str("Recently Deleted cleared"),
                NotificationTone::Success,
            );
        }
        cleared
    }

    /// Sets the selected note's title; the notes changed when a note is selected.
    pub fn update_selected_title(&mut self, title: String, now: Timestamp)
        ensures
            final(self)@ == (AppStateView {
                workspace: final(self)@.workspace,
                revision: revision_after(
                    old(self)@.revision,
                    crate::note_workspace::selected_position(old(self)@.workspace) is Some,
                ),
                ..old(self)@
            }),
            crate::note_workspace::selected_edit(
                old(self)@.workspace,
                final(self)@.workspace,
                crate::note_workspace::selected_position(old(self)@.workspace) is Some,
                |id: u128, after: Seq<NoteView>|
                    crate::note_collection::title_edit(
                        old(self)@.workspace.notes,
                        after,
                        id,
                        title@,
                        crate::note_workspace::selected_position(old(self)@.workspace) is Some, now,
                    ),
            ),
    {
        let ghost before = self@.workspace;
        proof {
            if let Some(id) = before.selected_id {
                crate::backup::lemma_index_of_id(before.notes, id);
            }
        }
        let updated = self.workspace.update_selected_title(title, now);
        if updated {
            self.mark_notes_changed();
        }
    }

    /// Sets the selected note's content; the notes changed when a note is selected.
    pub fn update_selected_content(&mut self, content: String, now: Timestamp)
        ensures
            final(self)@ == (AppStateView {
                workspace: final(self)@.workspace,
                revision: revision_after(
                    old(self)@.revision,
                    crate::note_workspace::selected_position(old(self)@.workspace) is Some,
                ),
                ..old(self)@
            }),
            crate::note_workspace::selected_edit(
                old(self)@.workspace,
                final(self)@.workspace,
                crate::note_workspace::selected_position(old(self)@.workspace) is Some,
                |id: u128, after: Seq<NoteView>|
                    crate::note_collection::content_edit(
                        old(self)@.workspace.notes,
                        after,
                        id,
                        content@,
                        crate::note_workspace::selected_position(old(self)@.workspace) is Some, now,
                    ),
            ),
    {
        let ghost before = self@.workspace;
        proof {
            if let Some(id) = before.selected_id {
                crate::backup::lemma_index_of_id(before.notes, id);
            }
        }
        let updated = self.workspace.update_selected_content(content, now);
        if updated {
            self.mark_notes_changed();
        }
    }

    /// Saves a tag entry for the selected note; the notes changed only when
    /// its tags change.
    pub fn update_selected_tags(&mut self, tags: Vec<String>, now: Timestamp)
        ensures
            exists|changed: bool|
                {
                    &&& crate::note_workspace::selected_edit(
                        old(self)@.workspace,
                        final(self)@.workspace,
                        changed,
                        |id: u128, after: Seq<NoteView>|
                            crate::note_collection::tag_edit(
                                old(self)@.workspace.notes,
                                after,
                                id,
                                crate::note_collection::entry_update(tags.deep_view()),
                                changed, now,
                            ),
                    )
                    &&& final(self)@ == (AppStateView {
                        workspace: final(self)@.workspace,
                        revision: #[trigger] revision_after(old(self)@.revision, changed),
                        ..old(self)@
                    })
                },
    {
        let updated = self.workspace.update_selected_tags(tags, now);
        if updated {
            self.mark_notes_changed();
        }
        assert(self@.revision == revision_after(old(self)@.revision, updated));
    }

    /// Applies a tag cleanup; the notes changed when some note's tags did.
    pub fn apply_tag_cleanup(&mut self, plan: &TagCleanupPlan, now: Timestamp)
        ensures
            final(self)@ == (AppStateView {
                workspace: WorkspaceView { notes: final(self)@.workspace.notes, ..old(self)@.workspace },
                revision: revision_after(
                    old(self)@.revision,
                    crate::tag_rules::cleanup_applied(
                        old(self)@.workspace.notes,
                        crate::tag_rules::changes_view(plan.changes@),
                    ).1.len() > 0,
                ),
                ..old(self)@
            }),
            crate::tag_rules::cleanup_applied(
                old(self)@.workspace.notes,
                crate::tag_rules::changes_view(plan.changes@),
            ).1.len() == 0 ==> final(self)@.workspace.notes == crate::tag_rules::cleanup_applied(
                old(self)@.workspace.notes,
                crate::tag_rules::changes_view(plan.changes@),
            ).0,
            crate::tag_rules::cleanup_applied(
                old(self)@.workspace.notes,
                crate::tag_rules::changes_view(plan.changes@),
            ).1.len() > 0 ==> final(self)@.workspace.notes == crate::note_collection::touch_listed(
                    crate::tag_rules::cleanup_applied(
                        old(self)@.workspace.notes,
                        crate::tag_rules::changes_view(plan.changes@),
                    ).0,
                    crate::tag_rules::cleanup_applied(
                        old(self)@.workspace.notes,
                        crate::tag_rules::changes_view(plan.changes@),
                    ).1,
                    now,
                ),
    {
        let updated = self.workspace.apply_tag_cleanup(plan, now);
        if updated {
            self.mark_notes_changed();
        }
    }

    /// Merges a read backup into the collection; the notes changed when it
    /// was accepted.
    pub fn import_backup(&mut self, read: Result<FlatCollectionBackup, serde_json::Error>) -> (r:
        Result<(), BackupError>)
        ensures
            match read {
                Err(e) => r == Err::<(), BackupError>(BackupError::Deserialize(e)) && final(self)@
                    == old(self)@,
                Ok(b) => match r {
                    Ok(()) => crate::backup::check_outcome(b, Ok(())) && final(self)@
                        == imported_state(old(self)@, notes_view(b.notes@)),
                    Err(err) => crate::backup::check_outcome(b, Err(err)) && final(self)@ == old(
                        self,
                    )@,
                },
            },
    {
        match self.workspace.import_flat_collection_backup(read) {
            Ok(_) => {
                self.mark_notes_changed();
                Ok(())
            },
            Err(e) => Err(e),
        }
    }

    /// Takes the focus intent, which is then spent.
    pub fn take_focus_intent(&mut self) -> (r: FocusIntent)
        ensures
            r == old(self)@.workspace.focus_intent,
            final(self)@ == (AppStateView {
                workspace: WorkspaceView { focus_intent: FocusIntent::NoFocus, ..old(self)@.workspace },
                ..old(self)@
            }),
    {
        self.workspace.take_focus_intent()
    }

    pub fn toggle_dark_mode(&mut self)
        ensures
            final(self)@ == (AppStateView { is_dark_mode: !old(self)@.is_dark_mode, ..old(self)@ }),
    {
        self.is_dark_mode = !self.is_dark_mode;
    }

    /// The top bar's button shows or hides the note list.
    pub fn toggle_sidebar(&mut self)
        ensures
            final(self)@ == (AppStateView { is_sidebar_open: !old(self)@.is_sidebar_open, ..old(self)@ }),
    {
        let mut navigation = ResponsiveNavigation::current(self.viewport_class, self.is_sidebar_open);
        navigation.toggle_note_list();
        self.is_sidebar_open = navigation.is_note_list_visible();
    }

    /// Switches the view mode, falling back to writing where the window is
    /// too narrow for it.
    pub fn set_editor_view_mode(&mut self, view_mode: EditorViewMode)
        ensures
            final(self)@ == (AppStateView {
                view_mode: normalized_view_mode(old(self)@.viewport, view_mode),
                ..old(self)@
            }),
    {
        self.editor_view_mode = normalize_view_mode(self.viewport_class, view_mode);
    }

    /// The window changed width class: the note list shows in wide windows,
    /// and a view mode the window cannot show falls back to writing. Says
    /// whether the class changed.
    pub fn reclassify_viewport(&mut self, next: ViewportClass) -> (changed: bool)
        ensures
            changed == (next != old(self)@.viewport),
            !changed ==> final(self)@ == old(self)@,
            changed ==> final(self)@ == (AppStateView {
                viewport: next,
                is_sidebar_open: old(self)@.is_sidebar_open || next == ViewportClass::Wide,
                view_mode: normalized_view_mode(next, old(self)@.view_mode),
                ..old(self)@
            }),
    {
        if self.viewport_class == next {
            return false;
        }
        let mut navigation = ResponsiveNavigation::current(self.viewport_class, self.is_sidebar_open);
        navigation.reclassify_viewport(next);
        self.viewport_class = next;
        self.is_sidebar_open = navigation.is_note_list_visible();
        self.editor_view_mode = normalize_view_mode(next, self.editor_view_mode);
        true
    }

    pub fn set_save_status(&mut self, status: SaveStatus)
        ensures
            final(self)@ == (AppStateView { save_status: status, ..old(self)@ }),
    {
        self.save_status = status;
    }

    /// Remembers a successful export.
    pub fn record_backup_exported_at(&mut self, at: Timestamp)
        ensures
            final(self)@ == (AppStateView {
                backup_record: Some(BackupHealthRecord { last_successful_export_at: at }),
                ..old(self)@
            }),
    {
        self.backup_health_record = Some(BackupHealthRecord { last_successful_export_at: at });
    }

    /// Shows a notification under a new identity, which it returns.
    pub fn show_notification(&mut self, message: String, tone: NotificationTone) -> (id: u64)
        ensures
            id == crate::notifications::next_id(old(self)@.notifications.sequence),
            final(self)@ == (AppStateView {
                notifications: NotificationCenterView {
                    current: Some((id, message@, tone)),
                    sequence: id,
                },
                ..old(self)@
            }),
    {
        self.notifications.show(message, tone)
    }

    /// Shows a save's own notification unless another kind is shown.
    pub fn show_save_notification(&mut self, message: String, tone: NotificationTone) -> (shown:
        bool)
        ensures
            shown == match old(self)@.notifications.current {
                None => true,
                Some((_, m, _)) => crate::notifications::is_save_message(m),
            },
            shown ==> final(self)@ == (AppStateView {
                notifications: NotificationCenterView {
                    current: Some(
                        (
                            crate::notifications::next_id(old(self)@.notifications.sequence),
                            message@,
                            tone,
                        ),
                    ),
                    sequence: crate::notifications::next_id(old(self)@.notifications.sequence),
                },
                ..old(self)@
            }),
            !shown ==> final(self)@ == old(self)@,
    {
        self.notifications.show_save(message, tone)
    }

    /// Hides the notification shown under `id`; a newer one stays.
    pub fn clear_notification(&mut self, id: u64)
        ensures
            final(self)@ == (AppStateView {
                notifications: NotificationCenterView {
                    current: match old(self)@.notifications.current {
                        Some(c) => if c.0 == id {
                            None
                        } else {
                            Some(c)
                        },
                        None => None::<(u64, Seq<char>, NotificationTone)>,
                    },
                    ..old(self)@.notifications
                },
                ..old(self)@
            }),
    {
        self.notifications.clear(id);
    }

    /// An export ended: a downloaded backup is remembered as the last
    /// successful export; each outcome is reported. Returns the report's
    /// identity.
    pub fn finish_backup_export(&mut self, outcome: BackupExportOutcome, exported_at: Timestamp) -> (id:
        u64)
        ensures
            id == crate::notifications::next_id(old(self)@.notifications.sequence),
            final(self)@ == match outcome {
                BackupExportOutcome::Downloaded => AppStateView {
                    backup_record: Some(BackupHealthRecord { last_successful_export_at: exported_at }),
                    notifications: notified(
                        old(self)@.notifications,
                        "Backup exported"@,
                        NotificationTone::Success,
                    ),
                    ..old(self)@
                },
                BackupExportOutcome::DownloadFailed(message) => AppStateView {
                    notifications: notified(old(self)@.notifications, message@, NotificationTone::Error),
                    ..old(self)@
                },
                BackupExportOutcome::ExportFailed => AppStateView {
                    notifications: notified(
                        old(self)@.notifications,
                        "Backup export failed"@,
                        NotificationTone::Error,
                    ),
                    ..old(self)@
                },
            },
    {
        match outcome {
            BackupExportOutcome::Downloaded => {
                self.record_backup_exported_at(exported_at);
                self.notifications.show(String::from_str("Backup exported"), NotificationTone::Success)
            },
            BackupExportOutcome::DownloadFailed(message) => {
                self.notifications.show(message, NotificationTone::Error)
            },
            BackupExportOutcome::ExportFailed => {
                self.notifications.show(
                    String::from_str("Backup export failed"),
                    NotificationTone::Error,
                )
            },
        }
    }

    /// A backup file is being read: says so. Returns the report's identity.
    pub fn begin_backup_read(&mut self) -> (id: u64)
        ensures
            id == crate::notifications::next_id(old(self)@.notifications.sequence),
            final(self)@ == (AppStateView {
                notifications: notified(
                    old(self)@.notifications,
                    "Reading backup..."@,
                    NotificationTone::Progress,
                ),
                ..old(self)@
            }),
    {
        self.notifications.show(String::from_str("Reading backup..."), NotificationTone::Progress)
    }

    /// A backup file was read (`None` when it could not be): a backup that
    /// can be imported waits for confirmation with what its import would do;
    /// anything else is reported as a failed import.
    pub fn read_backup_for_import(
        &mut self,
        loaded: Option<(String, Result<FlatCollectionBackup, serde_json::Error>)>,
    ) -> (r: Option<PendingBackupImport>)
        ensures
            r is Some <==> (loaded matches Some((_, read)) && read matches Ok(b)
                && crate::backup::check_outcome(b, Ok(()))),
            r matches Some(p) ==> (loaded matches Some((json, read)) && read matches Ok(b)
                && p.backup_json@ == json@ && p.preview == crate::backup::preview_of(
                old(self)@.workspace.notes,
                notes_view(b.notes@),
            )),
            final(self)@ == (AppStateView {
                notifications: if r is Some {
                    notified(old(self)@.notifications, "Backup ready"@, NotificationTone::Success)
                } else {
                    notified(
                        old(self)@.notifications,
                        "Backup import failed"@,
                        NotificationTone::Error,
                    )
                },
                ..old(self)@
            }),
    {
        let preview = match loaded {
            Some((backup_json, read)) => {
                match crate::backup::preview_flat_collection_backup(self.workspace.notes(), read) {
                    Ok(preview) => Some(PendingBackupImport { backup_json, preview }),
                    Err(_) => None,
                }
            },
            None => None,
        };
        match &preview {
            Some(_) => {
                self.notifications.show(String::from_str("Backup ready"), NotificationTone::Success);
            },
            None => {
                self.notifications.show(
                    String::from_str("Backup import failed"),
                    NotificationTone::Error,
                );
            },
        }
        preview
    }

    /// The pending import was confirmed with the backup read again: merges
    /// it when it is accepted, and reports how it went. Says whether it was
    /// imported.
    pub fn confirm_backup_import(&mut self, read: Result<FlatCollectionBackup, serde_json::Error>) -> (imported:
        bool)
        ensures
            imported == (read matches Ok(b) && crate::backup::check_outcome(b, Ok(()))),
            imported ==> (read matches Ok(b) && final(self)@ == (AppStateView {
                notifications: notified(
                    old(self)@.notifications,
                    "Backup imported"@,
                    NotificationTone::Success,
                ),
                ..imported_state(old(self)@, notes_view(b.notes@))
            })),
            !imported ==> final(self)@ == (AppStateView {
                notifications: notified(
                    old(self)@.notifications,
                    "Backup import failed"@,
                    NotificationTone::Error,
                ),
                ..old(self)@
            }),
    {
        match self.import_backup(read) {
            Ok(()) => {
                self.notifications.show(String::from_str("Backup imported"), NotificationTone::Success);
                true
            },
            Err(_) => {
                self.notifications.show(
                    String::from_str("Backup import failed"),
                    NotificationTone::Error,
                );
                false
            },
        }
    }

    /// The pending import was cancelled: says so. Returns the report's
    /// identity.
    pub fn cancel_backup_import(&mut self) -> (id: u64)
        ensures
            id == crate::notifications::next_id(old(self)@.notifications.sequence),
            final(self)@ == (AppStateView {
                notifications: notified(
                    old(self)@.notifications,
                    "Backup import cancelled"@,
                    NotificationTone::Progress,
                ),
                ..old(self)@
            }),
    {
        self.notifications.show(
            String::from_str("Backup import cancelled"),
            NotificationTone::Progress,
        )
    }

    /// Recovery: restores the previous snapshot, when there is one, as the
    /// collection, and says so. Says whether it did.
    pub fn restore_previous_snapshot(&mut self) -> (restored: bool)
        ensures
            restored == (old(self)@.storage_recovery matches Some(s) && s.previous_snapshot is Some),
            !restored ==> final(self)@ == old(self)@,
            restored ==> ({
                let snapshot = old(self)@.storage_recovery->0.previous_snapshot->0;
                final(self)@ == (AppStateView {
                    workspace: fresh_workspace(notes_view(snapshot.notes@)),
                    recently_deleted: notes_view(snapshot.recently_deleted_notes@),
                    storage_recovery: None,
                    revision: next_revision(old(self)@.revision),
                    is_sidebar_open: visible_after_selection(old(self)@),
                    notifications: notified(
                        old(self)@.notifications,
                        "Previous snapshot restored"@,
                        NotificationTone::Success,
                    ),
                    ..old(self)@
                })
            }),
    {
        let snapshot = match &self.storage_recovery {
            Some(recovery) => match &recovery.previous_snapshot {
                Some(snapshot) => crate::storage_recovery::PreviousSnapshot {
                    notes: crate::model::copy_notes(snapshot.notes.as_slice()),
                    recently_deleted_notes: crate::model::copy_notes(
                        snapshot.recently_deleted_notes.as_slice(),
                    ),
                },
                None => {
                    return false;
                },
            },
            None => {
                return false;
            },
        };
        proof {
            if snapshot.notes@.len() > 0 {
                assert(notes_view(snapshot.notes@)[0].id == snapshot.notes@[0].id);
            }
        }
        self.workspace = NoteWorkspace::new(snapshot.notes);
        self.recently_deleted_notes = snapshot.recently_deleted_notes;
        self.storage_recovery = None;
        self.note_selected();
        self.mark_notes_changed();
        self.notifications.show(
            String::from_str("Previous snapshot restored"),
            NotificationTone::Success,
        );
        true
    }

    /// Recovery: starts with an empty collection, and says so. Says whether
    /// the app was in recovery.
    pub fn start_empty_after_storage_recovery(&mut self) -> (started: bool)
        ensures
            started == old(self)@.storage_recovery is Some,
            !started ==> final(self)@ == old(self)@,
            started ==> final(self)@ == (AppStateView {
                workspace: fresh_workspace(Seq::empty()),
                recently_deleted: Seq::empty(),
                storage_recovery: None,
                revision: next_revision(old(self)@.revision),
                notifications: notified(
                    old(self)@.notifications,
                    "Started empty collection"@,
                    NotificationTone::Success,
                ),
                ..old(self)@
            }),
    {
        if self.storage_recovery.is_none() {
            return false;
        }
        let none: Vec<Note> = Vec::new();
        let none_deleted: Vec<Note> = Vec::new();
        assert(notes_view(none@) =~= Seq::<NoteView>::empty());
        assert(notes_view(none_deleted@) =~= Seq::<NoteView>::empty());
        self.workspace = NoteWorkspace::new(none);
        self.recently_deleted_notes = none_deleted;
        self.storage_recovery = None;
        self.mark_notes_changed();
        self.notifications.show(
            String::from_str("Started empty collection"),
            NotificationTone::Success,
        );
        true
    }
}

} // verus!
