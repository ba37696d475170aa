use chrono::TimeZone;
use nota_core::app_state::{AppRuntimeStartup, AppState, BackupExportOutcome};
use nota_core::backup::{BackupError, BackupHealthRecord, FlatCollectionBackup, backup_of};
use nota_core::editor_view::EditorViewMode;
use nota_core::model::{Note, Timestamp};
use nota_core::note_workspace::FocusIntent;
use nota_core::notifications::NotificationTone;
use nota_core::storage::SaveStatus;
use nota_core::storage_recovery::{PreviousSnapshot, StorageRecoveryState};
use nota_core::ui::responsive_navigation::{StoredNoteListState, ViewportClass};

fn clock() -> nota_core::model::Timestamp {
    let t = chrono::Utc::now();
    nota_core::model::Timestamp::from_parts(t.timestamp(), t.timestamp_subsec_nanos()).unwrap()
}


fn startup(notes: Vec<Note>, viewport_class: ViewportClass, is_sidebar_open: bool) -> AppRuntimeStartup {
    AppRuntimeStartup {
        notes,
        recently_deleted_notes: Vec::new(),
        is_dark_mode: false,
        viewport_class,
        stored_note_list_state: StoredNoteListState::from_is_open(is_sidebar_open),
        backup_health_record: None,
        storage_recovery: None,
    }
}

fn test_state(notes: Vec<Note>, viewport_class: ViewportClass, is_sidebar_open: bool) -> AppState {
    AppState::from_startup(startup(notes, viewport_class, is_sidebar_open))
}

fn read_json(text: &str) -> Result<FlatCollectionBackup, serde_json::Error> {
    Err(serde_json::from_str::<serde_json::Value>(text).unwrap_err())
}

#[test]
fn note_list_row_selection_selects_the_note_and_updates_responsive_navigation() {
    let first = Note::new("First".to_string(), String::new(), clock());
    let second = Note::new("Second".to_string(), String::new(), clock());
    let second_id = second.id;

    let mut state = test_state(vec![first, second], ViewportClass::Compact, true);
    state.select_note_list_row(second_id);

    assert_eq!(state.selected_id(), Some(second_id));
    assert!(!state.is_sidebar_open());
}

#[test]
fn quick_capture_creates_focuses_and_reveals_a_new_note() {
    let existing = Note::new("Existing".to_string(), String::new(), clock());
    let existing_id = existing.id;

    let mut state = test_state(vec![existing], ViewportClass::Compact, true);
    state.quick_capture_note(clock());

    let notes = state.notes_untracked();
    assert_eq!(notes.len(), 2);
    assert_ne!(notes[0].id, existing_id);
    assert_eq!(state.selected_id(), Some(notes[0].id));
    assert_eq!(state.focus_intent(), FocusIntent::NoteTitle);
    assert!(!state.is_sidebar_open());
    assert_eq!(notes[1].id, existing_id);
    assert_eq!(state.notes_save_revision(), 1);
}

#[test]
fn note_list_action_commands_pin_and_request_delete_notes() {
    let note = Note::new("Action target".to_string(), String::new(), clock());
    let note_id = note.id;

    let mut state = test_state(vec![note], ViewportClass::Wide, true);
    let row = state.note_list_render_model().projection.rows.remove(0);
    let actions = state.note_actions(&row);

    state.apply_note_list_command(actions.pin_command, clock());
    assert!(state.notes_untracked()[0].is_pinned);
    assert_eq!(state.notes_save_revision(), 1);

    state.apply_note_list_command(actions.delete_command, clock());
    assert_eq!(state.selected_id(), Some(note_id));
    assert!(state.is_delete_confirmation_open());
    assert_eq!(state.delete_confirmation_title(), Some("Action target"));
}

#[test]
fn search_input_and_active_tag_still_drive_note_list_render_model() {
    let mut mobile_note = Note::new(
        "Mobile layout".to_string(),
        "Responsive navigation".to_string(), clock(),
    );
    mobile_note.tags = vec!["Mobile".to_string()];
    let desktop_note = Note::new("Desktop writing".to_string(), "Wide workspace".to_string(), clock());

    let mut state = test_state(vec![mobile_note.clone(), desktop_note], ViewportClass::Wide, true);
    state.edit_note_search("layout".to_string());
    assert_eq!(state.note_search_input(), "layout");

    state.commit_note_search();
    state.select_active_tag("Mobile".to_string());

    let model = state.note_list_render_model();
    assert_eq!(model.projection.rows.len(), 1);
    assert_eq!(model.projection.rows[0].id, mobile_note.id);
    assert!(model.projection.rows[0].is_selected);
}

#[test]
fn tag_mutations_mark_notes_changed_only_when_metadata_changes() {
    let mut note = Note::new("Tagged".to_string(), String::new(), clock());
    note.tags = vec![" Work ".to_string(), "work".to_string()];

    let mut state = test_state(vec![note], ViewportClass::Wide, true);
    let plan = state.tag_cleanup_plan();
    assert_eq!(state.notes_save_revision(), 0);

    state.apply_tag_cleanup(&plan, clock());
    assert_eq!(state.notes_save_revision(), 1);
    assert_eq!(state.notes_untracked()[0].tags, vec!["Work".to_string()]);

    state.apply_tag_cleanup(&plan, clock());
    assert_eq!(state.notes_save_revision(), 1);

    state.update_selected_tags(Vec::new(), clock());
    assert_eq!(state.notes_save_revision(), 2);
    assert!(state.notes_untracked()[0].tags.is_empty());

    state.update_selected_tags(Vec::new(), clock());
    assert_eq!(state.notes_save_revision(), 2);
}

#[test]
fn backup_import_replaces_collection_through_app_state_and_marks_notes_changed() {
    let imported_note = Note::new("Imported".to_string(), "Backup content".to_string(), clock());
    let backup = backup_of(std::slice::from_ref(&imported_note));

    let mut state = test_state(Vec::new(), ViewportClass::Wide, true);
    state.import_backup(Ok(backup)).unwrap();

    assert_eq!(state.notes_untracked().to_vec(), vec![imported_note.clone()]);
    assert_eq!(state.selected_id(), Some(imported_note.id));
    assert_eq!(state.notes_save_revision(), 1);
}

#[test]
fn invalid_backup_import_does_not_mark_notes_changed() {
    let existing_note = Note::new("Existing".to_string(), String::new(), clock());

    let mut state = test_state(vec![existing_note.clone()], ViewportClass::Wide, true);
    assert!(state.import_backup(read_json("{not valid json")).is_err());

    assert_eq!(state.notes_untracked().to_vec(), vec![existing_note]);
    assert_eq!(state.notes_save_revision(), 0);
}

fn check_runtime_startup_exposes_persistence_snapshot() {
    let active_note = Note::new("Active".to_string(), "Keep writing".to_string(), clock());
    let deleted_note = Note::new("Deleted".to_string(), "Recover me".to_string(), clock());
    let backup_health_record = BackupHealthRecord {
        last_successful_export_at: clock(),
    };

    let state = AppState::from_startup(AppRuntimeStartup {
        notes: vec![active_note.clone()],
        recently_deleted_notes: vec![deleted_note.clone()],
        is_dark_mode: true,
        viewport_class: ViewportClass::Compact,
        stored_note_list_state: StoredNoteListState::Closed,
        backup_health_record: Some(backup_health_record),
        storage_recovery: None,
    });

    let snapshot = state.persistence_snapshot();

    assert!(snapshot.is_dark_mode);
    assert_eq!(
        snapshot.note_list_state_to_persist,
        Some(StoredNoteListState::Closed)
    );
    assert_eq!(snapshot.notes, vec![active_note]);
    assert_eq!(snapshot.recently_deleted_notes, vec![deleted_note]);
    assert_eq!(snapshot.backup_health_record, Some(backup_health_record));
    assert_eq!(snapshot.save_status, SaveStatus::Saved);
}

#[test]
fn state_runtime_startup_exposes_persistence_snapshot_without_raw_signal_access() {
    check_runtime_startup_exposes_persistence_snapshot();
}

#[test]
fn app_runtime_runtime_startup_exposes_persistence_snapshot_without_raw_signal_access() {
    check_runtime_startup_exposes_persistence_snapshot();
}

fn check_runtime_reclassifies_viewport_and_normalises_view_mode() {
    let mut state = AppState::from_startup(AppRuntimeStartup {
        notes: Vec::new(),
        recently_deleted_notes: Vec::new(),
        is_dark_mode: false,
        viewport_class: ViewportClass::Wide,
        stored_note_list_state: StoredNoteListState::Closed,
        backup_health_record: None,
        storage_recovery: None,
    });

    state.set_editor_view_mode(EditorViewMode::Split);

    assert!(state.reclassify_viewport(ViewportClass::Compact));

    let snapshot = state.persistence_snapshot();
    assert_eq!(snapshot.viewport_class, ViewportClass::Compact);
    assert_eq!(snapshot.editor_view_mode, EditorViewMode::Write);
    assert_eq!(
        snapshot.note_list_state_to_persist,
        Some(StoredNoteListState::Open)
    );

    assert!(!state.reclassify_viewport(ViewportClass::Compact));
}

#[test]
fn state_runtime_reclassifies_viewport_and_normalises_view_mode() {
    check_runtime_reclassifies_viewport_and_normalises_view_mode();
}

#[test]
fn app_runtime_runtime_reclassifies_viewport_and_normalises_view_mode() {
    check_runtime_reclassifies_viewport_and_normalises_view_mode();
}

// ---------------------------------------------------------------------------
// Further cases
// ---------------------------------------------------------------------------

#[test]
fn app_state_starts_with_the_first_note_selected_and_nothing_pending() {
    let first = Note::new("First".to_string(), String::new(), clock());
    let first_id = first.id;
    let state = test_state(
        vec![first, Note::new("Second".to_string(), String::new(), clock())],
        ViewportClass::Compact,
        false,
    );

    assert_eq!(state.selected_id(), Some(first_id));
    assert_eq!(state.notes_save_revision(), 0);
    assert_eq!(state.editor_view_mode(), EditorViewMode::Write);
    assert_eq!(state.save_status(), SaveStatus::Saved);
    assert!(!state.is_sidebar_open());
    assert!(!state.is_delete_confirmation_open());
    assert!(state.current_notification().is_none());
    assert_eq!(state.note_list_state_to_persist(), Some(StoredNoteListState::Closed));
}

#[test]
fn app_state_wide_window_always_shows_the_note_list() {
    let state = test_state(Vec::new(), ViewportClass::Wide, false);
    assert!(state.is_sidebar_open());
    assert_eq!(state.note_list_state_to_persist(), None);
}

#[test]
fn app_state_selecting_an_unknown_note_changes_nothing() {
    let note = Note::new("Only".to_string(), String::new(), clock());
    let note_id = note.id;
    let mut state = test_state(vec![note], ViewportClass::Compact, true);

    state.select_note(note_id.wrapping_add(1));

    assert_eq!(state.selected_id(), Some(note_id));
    assert!(state.is_sidebar_open());
}

#[test]
fn app_state_confirming_a_delete_removes_the_note_and_marks_a_change() {
    let first = Note::new("First".to_string(), String::new(), clock());
    let second = Note::new("Second".to_string(), String::new(), clock());
    let (first_id, second_id) = (first.id, second.id);
    let mut state = test_state(vec![first, second], ViewportClass::Wide, true);

    state.request_delete_note(first_id);
    state.cancel_delete_note();
    assert!(!state.is_delete_confirmation_open());
    assert_eq!(state.notes_untracked().len(), 2);
    assert_eq!(state.notes_save_revision(), 0);

    state.request_delete_note(first_id);
    state.confirm_delete_selected_note();
    assert_eq!(state.notes_untracked().len(), 1);
    assert_eq!(state.selected_id(), Some(second_id));
    assert_eq!(state.notes_save_revision(), 1);

    state.confirm_delete_selected_note();
    assert_eq!(state.notes_save_revision(), 1);
}

#[test]
fn app_state_title_and_content_edits_touch_only_the_selected_note() {
    let first = Note::new("First".to_string(), String::new(), clock());
    let second = Note::new("Second".to_string(), String::new(), clock());
    let mut state = test_state(vec![first, second], ViewportClass::Wide, true);

    state.update_selected_title("Renamed".to_string(), clock());
    state.update_selected_content("Body".to_string(), clock());

    assert_eq!(state.notes_untracked()[0].title, "Renamed");
    assert_eq!(state.notes_untracked()[0].content, "Body");
    assert_eq!(state.notes_untracked()[1].title, "Second");
    assert_eq!(state.notes_save_revision(), 2);

    let mut empty = test_state(Vec::new(), ViewportClass::Wide, true);
    empty.update_selected_title("Nothing selected".to_string(), clock());
    assert_eq!(empty.notes_save_revision(), 0);
}

#[test]
fn app_state_backup_import_of_a_foreign_kind_is_refused_unchanged() {
    let note = Note::new("Kept".to_string(), String::new(), clock());
    let mut state = test_state(vec![note.clone()], ViewportClass::Wide, true);
    let mut backup = backup_of(&[Note::new("Other".to_string(), String::new(), clock())]);
    backup.kind = "someone-else".to_string();

    assert!(matches!(
        state.import_backup(Ok(backup)),
        Err(BackupError::UnsupportedKind(_))
    ));
    assert_eq!(state.notes_untracked().to_vec(), vec![note]);
    assert_eq!(state.notes_save_revision(), 0);
}

#[test]
fn app_state_view_mode_falls_back_to_write_in_compact_windows() {
    let mut state = test_state(Vec::new(), ViewportClass::Compact, true);
    state.set_editor_view_mode(EditorViewMode::Split);
    assert_eq!(state.editor_view_mode(), EditorViewMode::Write);

    state.set_editor_view_mode(EditorViewMode::Preview);
    assert_eq!(state.editor_view_mode(), EditorViewMode::Preview);

    assert!(state.reclassify_viewport(ViewportClass::Wide));
    assert!(state.is_sidebar_open());
    assert_eq!(state.editor_view_mode(), EditorViewMode::Preview);
}

#[test]
fn app_state_toggles_dark_mode_and_the_note_list() {
    let mut state = test_state(Vec::new(), ViewportClass::Compact, false);
    state.toggle_dark_mode();
    assert!(state.is_dark_mode());
    state.toggle_dark_mode();
    assert!(!state.is_dark_mode());

    state.toggle_sidebar();
    assert!(state.is_sidebar_open());
    assert_eq!(state.note_list_state_to_persist(), Some(StoredNoteListState::Open));
}

#[test]
fn app_state_focus_intent_is_spent_once_taken() {
    let mut state = test_state(Vec::new(), ViewportClass::Wide, true);
    state.create_note(clock());
    assert_eq!(state.take_focus_intent(), FocusIntent::NoteTitle);
    assert_eq!(state.take_focus_intent(), FocusIntent::NoFocus);
}

#[test]
fn app_state_notifications_replace_and_clear_by_identity() {
    let mut state = test_state(Vec::new(), ViewportClass::Wide, true);

    assert!(state.show_save_notification("Saving...".to_string(), NotificationTone::Progress));
    let first = state.show_notification("Backup exported".to_string(), NotificationTone::Success);
    assert!(!state.show_save_notification("Saved".to_string(), NotificationTone::Success));
    assert_eq!(state.current_notification().unwrap().message, "Backup exported");

    state.clear_notification(first.wrapping_add(1));
    assert!(state.current_notification().is_some());
    state.clear_notification(first);
    assert!(state.current_notification().is_none());
}

#[test]
fn app_state_save_status_and_backup_export_are_recorded() {
    let mut state = test_state(Vec::new(), ViewportClass::Wide, true);
    state.set_save_status(SaveStatus::Saving);
    assert_eq!(state.save_status(), SaveStatus::Saving);

    let at = Timestamp::from_parts(1_700_000_000, 0).unwrap();
    state.record_backup_exported_at(at);
    assert_eq!(
        state.backup_health_record(),
        Some(BackupHealthRecord {
            last_successful_export_at: at
        })
    );
    assert_eq!(state.backup_health_summary(at), "Backed up 14/11/2023");
}

fn recovery_state(previous: Option<PreviousSnapshot>) -> AppState {
    AppState::from_startup(AppRuntimeStartup {
        notes: Vec::new(),
        recently_deleted_notes: Vec::new(),
        is_dark_mode: false,
        viewport_class: ViewportClass::Wide,
        stored_note_list_state: StoredNoteListState::Open,
        backup_health_record: None,
        storage_recovery: Some(StorageRecoveryState {
            corrupt_notes_json: Some("{broken".to_string()),
            corrupt_recently_deleted_notes_json: None,
            previous_snapshot: previous,
        }),
    })
}

#[test]
fn app_state_recovery_starts_empty_and_can_restore_the_previous_snapshot() {
    let kept = Note::new("Kept".to_string(), String::new(), clock());
    let mut state = recovery_state(Some(PreviousSnapshot {
        notes: vec![kept.clone()],
        recently_deleted_notes: Vec::new(),
    }));
    assert!(state.notes_untracked().is_empty());
    assert!(state.has_previous_snapshot());

    assert!(state.restore_previous_snapshot());
    assert_eq!(state.notes_untracked().to_vec(), vec![kept.clone()]);
    assert_eq!(state.selected_id(), Some(kept.id));
    assert!(state.storage_recovery().is_none());
    assert_eq!(state.notes_save_revision(), 1);
    assert_eq!(
        state.current_notification().unwrap().message,
        "Previous snapshot restored"
    );

    assert!(!state.restore_previous_snapshot());
    assert!(!state.start_empty_after_storage_recovery());
    assert_eq!(state.notes_save_revision(), 1);
}

#[test]
fn app_state_recovery_can_start_empty_without_a_snapshot() {
    let mut state = recovery_state(None);
    assert!(!state.has_previous_snapshot());
    assert!(!state.restore_previous_snapshot());

    assert!(state.start_empty_after_storage_recovery());
    assert!(state.notes_untracked().is_empty());
    assert!(state.storage_recovery().is_none());
    assert_eq!(state.notes_save_revision(), 1);
    assert_eq!(
        state.current_notification().unwrap().message,
        "Started empty collection"
    );
}

#[test]
fn app_state_backup_export_outcomes_are_recorded_and_reported() {
    let mut state = test_state(Vec::new(), ViewportClass::Wide, true);
    let at = Timestamp::from_parts(1_700_000_000, 0).unwrap();

    state.finish_backup_export(BackupExportOutcome::ExportFailed, at);
    assert_eq!(state.backup_health_record(), None);
    let report = state.current_notification().unwrap();
    assert_eq!(report.message, "Backup export failed");
    assert_eq!(report.tone, NotificationTone::Error);

    state.finish_backup_export(
        BackupExportOutcome::DownloadFailed("No window".to_string()),
        at,
    );
    assert_eq!(state.backup_health_record(), None);
    assert_eq!(state.current_notification().unwrap().message, "No window");

    let id = state.finish_backup_export(BackupExportOutcome::Downloaded, at);
    assert_eq!(
        state.backup_health_record(),
        Some(BackupHealthRecord {
            last_successful_export_at: at
        })
    );
    let report = state.current_notification().unwrap();
    assert_eq!(report.id, id);
    assert_eq!(report.message, "Backup exported");
    assert_eq!(report.tone, NotificationTone::Success);
}

#[test]
fn app_state_backup_read_waits_for_confirmation_with_a_preview() {
    let existing = Note::new("Existing".to_string(), String::new(), clock());
    let incoming = Note::new("Incoming".to_string(), String::new(), clock());
    let mut state = test_state(vec![existing.clone()], ViewportClass::Wide, true);

    state.begin_backup_read();
    assert_eq!(state.current_notification().unwrap().message, "Reading backup...");

    let backup = backup_of(&[incoming.clone(), existing.clone()]);
    let pending = state
        .read_backup_for_import(Some(("{...}".to_string(), Ok(backup.clone()))))
        .unwrap();
    assert_eq!(pending.backup_json, "{...}");
    assert_eq!(pending.preview.total_imported_notes, 2);
    assert_eq!(pending.preview.notes_to_add, 1);
    assert_eq!(pending.preview.notes_to_replace, 1);
    assert_eq!(state.current_notification().unwrap().message, "Backup ready");
    assert_eq!(state.notes_save_revision(), 0);

    assert!(state.confirm_backup_import(Ok(backup)));
    assert_eq!(state.notes_untracked().len(), 2);
    assert_eq!(state.selected_id(), Some(incoming.id));
    assert_eq!(state.notes_save_revision(), 1);
    assert_eq!(state.current_notification().unwrap().message, "Backup imported");
}

#[test]
fn app_state_unreadable_or_refused_backups_are_reported_as_failed() {
    let mut state = test_state(Vec::new(), ViewportClass::Wide, true);

    assert!(state.read_backup_for_import(None).is_none());
    let report = state.current_notification().unwrap();
    assert_eq!(report.message, "Backup import failed");
    assert_eq!(report.tone, NotificationTone::Error);

    assert!(state
        .read_backup_for_import(Some(("{not json".to_string(), read_json("{not json"))))
        .is_none());

    let mut foreign = backup_of(&[Note::new("Other".to_string(), String::new(), clock())]);
    foreign.version = 99;
    assert!(state
        .read_backup_for_import(Some(("{}".to_string(), Ok(foreign.clone()))))
        .is_none());
    assert!(!state.confirm_backup_import(Ok(foreign)));
    assert!(state.notes_untracked().is_empty());
    assert_eq!(state.notes_save_revision(), 0);
    assert_eq!(state.current_notification().unwrap().message, "Backup import failed");

    state.cancel_backup_import();
    let report = state.current_notification().unwrap();
    assert_eq!(report.message, "Backup import cancelled");
    assert_eq!(report.tone, NotificationTone::Progress);
}

fn state_with_notes(notes: Vec<Note>) -> AppState {
    AppState::from_startup(AppRuntimeStartup {
        notes,
        recently_deleted_notes: Vec::new(),
        is_dark_mode: false,
        viewport_class: ViewportClass::Wide,
        stored_note_list_state: StoredNoteListState::Open,
        backup_health_record: None,
        storage_recovery: None,
    })
}

fn utc(year: i32, month: u32, day: u32, hour: u32, minute: u32, second: u32) -> Timestamp {
    let instant = chrono::Utc
        .with_ymd_and_hms(year, month, day, hour, minute, second)
        .unwrap();
    Timestamp::from_parts(instant.timestamp(), 0).unwrap()
}

#[test]
fn backup_export_records_health_only_after_browser_download_succeeds() {
    let note = Note::new("Export me".to_string(), "Keep this".to_string(), clock());
    let mut state = state_with_notes(vec![note]);
    let exported_at = utc(2026, 5, 6, 9, 30, 0);

    assert_eq!(
        nota_core::backup::backup_file_name(exported_at),
        "noter-backup-2026-05-06.json"
    );
    state.finish_backup_export(BackupExportOutcome::Downloaded, exported_at);

    assert_eq!(
        state
            .backup_health_record()
            .unwrap()
            .last_successful_export_at,
        exported_at
    );
    let notification = state.current_notification().unwrap();
    assert_eq!(notification.message, "Backup exported");
    assert_eq!(notification.tone, NotificationTone::Success);
}

#[test]
fn failed_backup_download_does_not_record_backup_health() {
    let mut state = state_with_notes(vec![Note::new(
        "Export failure".to_string(),
        "Do not mark healthy".to_string(), clock(),
    )]);

    state.finish_backup_export(
        BackupExportOutcome::DownloadFailed("Cannot download backup".to_string()),
        clock(),
    );

    assert!(state.backup_health_record().is_none());
    let notification = state.current_notification().unwrap();
    assert_eq!(notification.message, "Cannot download backup");
    assert_eq!(notification.tone, NotificationTone::Error);
}

#[test]
fn valid_backup_read_creates_import_preview_and_ready_notification() {
    let mut state = state_with_notes(Vec::new());
    let imported = Note::new("Imported".to_string(), "From backup".to_string(), clock());
    let backup_json = "{\"version\": 1}".to_string();
    let backup = backup_of(std::slice::from_ref(&imported));

    let pending = state.read_backup_for_import(Some((backup_json.clone(), Ok(backup))));

    let pending_import = pending.unwrap();
    assert_eq!(pending_import.backup_json, backup_json);
    assert_eq!(pending_import.preview.notes_to_add, 1);
    assert_eq!(pending_import.preview.notes_to_replace, 0);
    assert_eq!(pending_import.preview.selected_id, Some(imported.id));
    let notification = state.current_notification().unwrap();
    assert_eq!(notification.message, "Backup ready");
    assert_eq!(notification.tone, NotificationTone::Success);
}

#[test]
fn invalid_backup_read_leaves_no_pending_import() {
    let mut state = state_with_notes(Vec::new());

    let pending = state.read_backup_for_import(Some((
        "{not valid json".to_string(),
        read_json("{not valid json"),
    )));

    assert!(pending.is_none());
    let notification = state.current_notification().unwrap();
    assert_eq!(notification.message, "Backup import failed");
    assert_eq!(notification.tone, NotificationTone::Error);
}

#[test]
fn confirming_pending_backup_import_merges_and_clears_preview() {
    let existing = Note::new("Existing".to_string(), "Will be replaced".to_string(), clock());
    let mut replacement = existing.clone();
    replacement.title = "Replacement".to_string();
    replacement.content = "Backup wins".to_string();
    let existing_only = Note::new("Keep".to_string(), "Not in backup".to_string(), clock());
    let imported = Note::new("Imported".to_string(), "New note".to_string(), clock());
    let backup = backup_of(&[replacement.clone(), imported.clone()]);
    let mut state = state_with_notes(vec![existing, existing_only.clone()]);
    let mut pending =
        state.read_backup_for_import(Some(("{}".to_string(), Ok(backup.clone()))));
    assert!(pending.is_some());

    if state.confirm_backup_import(Ok(backup)) {
        pending = None;
    }

    assert!(pending.is_none());
    assert_eq!(
        state.notes_untracked().to_vec(),
        vec![replacement, existing_only, imported]
    );
    let notification = state.current_notification().unwrap();
    assert_eq!(notification.message, "Backup imported");
    assert_eq!(notification.tone, NotificationTone::Success);
}

#[test]
fn cancelling_pending_backup_import_clears_preview_without_importing() {
    let mut state = state_with_notes(Vec::new());
    let imported = Note::new("Imported".to_string(), "Should not import".to_string(), clock());
    let backup = backup_of(std::slice::from_ref(&imported));
    let mut pending = state.read_backup_for_import(Some(("{}".to_string(), Ok(backup))));
    assert!(pending.is_some());

    pending = None;
    state.cancel_backup_import();

    assert!(pending.is_none());
    assert!(state.notes_untracked().is_empty());
    let notification = state.current_notification().unwrap();
    assert_eq!(notification.message, "Backup import cancelled");
    assert_eq!(notification.tone, NotificationTone::Progress);
}

#[test]
fn prepares_a_pending_backup_import_with_preview_counts() {
    let existing = Note::new("Existing".to_string(), "Stored".to_string(), clock());
    let mut replacement = existing.clone();
    replacement.content = "Backup content wins".to_string();
    let imported = Note::new("Imported only".to_string(), "New from backup".to_string(), clock());
    let backup_json = "{\"kind\": \"noter.flat_collection\"}".to_string();
    let backup = backup_of(&[replacement.clone(), imported.clone()]);
    let mut state = state_with_notes(vec![existing]);

    let pending = state
        .read_backup_for_import(Some((backup_json.clone(), Ok(backup))))
        .unwrap();

    assert_eq!(pending.backup_json, backup_json);
    assert_eq!(pending.preview.total_imported_notes, 2);
    assert_eq!(pending.preview.notes_to_add, 1);
    assert_eq!(pending.preview.notes_to_replace, 1);
    assert_eq!(pending.preview.selected_id, Some(replacement.id));
}

fn state_with_recently_deleted(notes: Vec<Note>, recently_deleted_notes: Vec<Note>) -> AppState {
    AppState::from_startup(AppRuntimeStartup {
        notes,
        recently_deleted_notes,
        is_dark_mode: false,
        viewport_class: ViewportClass::Wide,
        stored_note_list_state: StoredNoteListState::Open,
        backup_health_record: None,
        storage_recovery: None,
    })
}

#[test]
fn recently_deleted_restore_and_clear_mark_notes_changed() {
    let note = Note::new("Recoverable".to_string(), String::new(), clock());
    let note_id = note.id;

    let mut state = test_state(vec![note.clone()], ViewportClass::Wide, true);
    state.request_delete_note(note_id);
    state.confirm_delete_selected_note();

    assert!(state.notes_untracked().is_empty());
    assert_eq!(state.recently_deleted_notes().to_vec(), vec![note.clone()]);
    assert_eq!(state.notes_save_revision(), 1);

    state.restore_recently_deleted_note(note_id);

    assert_eq!(state.notes_untracked().to_vec(), vec![note.clone()]);
    assert!(state.recently_deleted_notes().is_empty());
    assert_eq!(state.selected_id(), Some(note_id));
    assert_eq!(state.notes_save_revision(), 2);

    state.request_delete_note(note_id);
    state.confirm_delete_selected_note();
    state.permanently_clear_recently_deleted_note(note_id);

    assert!(state.recently_deleted_notes().is_empty());
    assert_eq!(state.notes_save_revision(), 4);
}

#[test]
fn clear_all_recently_deleted_marks_notes_changed_after_confirmation() {
    let active_note = Note::new("Active".to_string(), String::new(), clock());
    let first_deleted = Note::new("First deleted".to_string(), String::new(), clock());
    let second_deleted = Note::new("Second deleted".to_string(), String::new(), clock());

    let mut state = state_with_recently_deleted(
        vec![active_note.clone()],
        vec![first_deleted, second_deleted],
    );
    assert_eq!(state.clear_all_recently_deleted_confirmation_count(), None);

    state.request_clear_all_recently_deleted();
    assert_eq!(state.clear_all_recently_deleted_confirmation_count(), Some(2));
    assert_eq!(state.notes_save_revision(), 0);

    state.cancel_clear_all_recently_deleted();
    assert_eq!(state.recently_deleted_notes().len(), 2);
    assert_eq!(state.notes_save_revision(), 0);

    state.request_clear_all_recently_deleted();
    state.confirm_clear_all_recently_deleted_notes();

    assert_eq!(state.notes_untracked().to_vec(), vec![active_note]);
    assert!(state.recently_deleted_notes().is_empty());
    assert_eq!(state.notes_save_revision(), 1);
}

#[test]
fn app_state_most_recently_deleted_note_comes_first() {
    let first = Note::new("First".to_string(), String::new(), clock());
    let second = Note::new("Second".to_string(), String::new(), clock());
    let mut state = test_state(vec![first.clone(), second.clone()], ViewportClass::Wide, true);

    state.request_delete_note(first.id);
    state.confirm_delete_selected_note();
    state.request_delete_note(second.id);
    state.confirm_delete_selected_note();

    assert_eq!(state.recently_deleted_notes().to_vec(), vec![second.clone(), first.clone()]);

    assert!(state.restore_recently_deleted_note(first.id));
    assert_eq!(state.notes_untracked().to_vec(), vec![first.clone()]);
    assert_eq!(state.recently_deleted_notes().to_vec(), vec![second]);
}

#[test]
fn app_state_unknown_recently_deleted_notes_change_nothing() {
    let kept = Note::new("Kept".to_string(), String::new(), clock());
    let mut state = state_with_recently_deleted(Vec::new(), vec![kept.clone()]);

    assert!(!state.restore_recently_deleted_note(kept.id.wrapping_add(1)));
    assert!(!state.permanently_clear_recently_deleted_note(kept.id.wrapping_add(1)));
    assert_eq!(state.recently_deleted_notes().to_vec(), vec![kept]);
    assert_eq!(state.notes_save_revision(), 0);

    assert!(!state.confirm_clear_all_recently_deleted_notes());
    assert_eq!(state.recently_deleted_notes().len(), 1);
}

#[test]
fn app_state_clearing_an_empty_recently_deleted_asks_nothing() {
    let mut state = test_state(Vec::new(), ViewportClass::Wide, true);
    state.request_clear_all_recently_deleted();
    assert_eq!(state.clear_all_recently_deleted_confirmation_count(), None);
    assert!(!state.confirm_clear_all_recently_deleted_notes());
    assert_eq!(state.notes_save_revision(), 0);
}

#[test]
fn app_state_clearing_recently_deleted_reports_it() {
    let gone = Note::new("Gone".to_string(), String::new(), clock());
    let mut state = state_with_recently_deleted(Vec::new(), vec![gone]);
    state.request_clear_all_recently_deleted();
    assert!(state.confirm_clear_all_recently_deleted_notes());
    let report = state.current_notification().unwrap();
    assert_eq!(report.message, "Recently Deleted cleared");
    assert_eq!(report.tone, NotificationTone::Success);
    assert_eq!(state.clear_all_recently_deleted_confirmation_count(), None);
}
