use nota_core::backup::{FlatCollectionBackup, backup_of};
use nota_core::model::Note;
use nota_core::note_workspace::{FocusIntent, NoteWorkspace, WorkspaceDisplayState};

fn clock() -> nota_core::model::Timestamp {
    let t = chrono::Utc::now();
    nota_core::model::Timestamp::from_parts(t.timestamp(), t.timestamp_subsec_nanos()).unwrap()
}


fn read_json(text: &str) -> Result<FlatCollectionBackup, serde_json::Error> {
    Err(serde_json::from_str::<serde_json::Value>(text).unwrap_err())
}

#[test]
fn creating_a_note_updates_selection_and_focus_intent_inside_the_workspace() {
    let mut workspace = NoteWorkspace::new(Vec::new());

    workspace.create_note(clock());

    assert_eq!(workspace.notes().len(), 1);
    assert_eq!(workspace.selected_id(), Some(workspace.notes()[0].id));
    assert_eq!(workspace.take_focus_intent(), FocusIntent::NoteTitle);
    assert_eq!(workspace.take_focus_intent(), FocusIntent::NoFocus);
}

#[test]
fn distinguishes_empty_collection_from_a_selected_note() {
    assert_eq!(
        NoteWorkspace::new(Vec::new()).display_state(),
        WorkspaceDisplayState::EmptyCollection
    );

    let note = Note::new("First".to_string(), String::new(), clock());
    assert_eq!(
        NoteWorkspace::new(vec![note]).display_state(),
        WorkspaceDisplayState::NoteSelected
    );
}

#[test]
fn selected_display_state_does_not_change_when_selected_note_content_changes() {
    let note = Note::new("First".to_string(), "Draft".to_string(), clock());
    let mut workspace = NoteWorkspace::new(vec![note]);
    let before = workspace.display_state();

    assert!(workspace.update_selected_title("Updated".to_string(), clock()));
    assert!(workspace.update_selected_content("Updated draft".to_string(), clock()));
    assert!(workspace.update_selected_tags(vec!["work".to_string()], clock()));
    let after = workspace.display_state();

    assert_eq!(before, after);
}

#[test]
fn creates_selects_and_updates_the_selected_note() {
    let mut workspace = NoteWorkspace::new(Vec::new());
    workspace.create_note(clock());
    let selected_id = workspace.selected_id();

    assert_eq!(
        workspace.selected_note().unwrap().id,
        workspace.notes()[0].id
    );
    assert_eq!(workspace.take_focus_intent(), FocusIntent::NoteTitle);

    assert!(workspace.update_selected_title("Title".to_string(), clock()));
    assert!(workspace.update_selected_content("Content".to_string(), clock()));
    assert!(workspace.update_selected_tags(vec!["work".to_string()], clock()));

    let selected = workspace.selected_note().unwrap();
    assert_eq!(selected_id, Some(selected.id));
    assert_eq!(selected.title, "Title");
    assert_eq!(selected.content, "Content");
    assert_eq!(selected.tags, vec!["work".to_string()]);
}

#[test]
fn removes_a_selected_note_tag_and_refreshes_discovery() {
    let mut note = Note::new("Tagged".to_string(), "Find me".to_string(), clock());
    note.tags = vec!["Work".to_string(), "Rust".to_string()];
    let note_id = note.id;
    let mut workspace = NoteWorkspace::new(vec![note]);

    assert!(workspace.remove_selected_tag("work", clock()));
    assert_eq!(
        workspace.selected_note().unwrap().tags,
        vec!["Rust".to_string()]
    );

    assert!(
        workspace
            .note_list_projection("", Some("work"))
            .rows
            .is_empty()
    );
    assert_eq!(
        workspace.note_list_projection("rust", None).rows[0].id,
        note_id
    );
}

#[test]
fn previews_and_applies_collection_tag_cleanup_through_workspace() {
    let mut dirty = Note::new("Dirty".to_string(), "Find me".to_string(), clock());
    dirty.tags = vec![" Work ".to_string(), "work".to_string()];
    let dirty_id = dirty.id;
    let mut clean = Note::new("Clean".to_string(), "Reference".to_string(), clock());
    clean.tags = vec!["Reference".to_string()];
    let clean_id = clean.id;
    let mut workspace = NoteWorkspace::new(vec![dirty, clean]);

    let plan = workspace.tag_cleanup_plan();
    assert_eq!(plan.changes.len(), 1);
    assert_eq!(plan.changes[0].after, vec!["Work".to_string()]);

    assert!(workspace.apply_tag_cleanup(&plan, clock()));
    assert_eq!(workspace.notes()[0].tags, vec!["Work".to_string()]);
    assert_eq!(workspace.notes()[1].tags, vec!["Reference".to_string()]);
    assert_eq!(
        workspace.note_list_projection("", Some("work")).rows[0].id,
        dirty_id
    );
    assert_eq!(
        workspace.note_list_projection("reference", None).rows[0].id,
        clean_id
    );
    assert!(workspace.tag_cleanup_plan().is_empty());
}

#[test]
fn imports_a_flat_collection_backup_and_selects_the_first_imported_note() {
    let imported_note = Note::new("Imported".to_string(), "Backup content".to_string(), clock());
    let backup = backup_of(std::slice::from_ref(&imported_note));
    let mut workspace = NoteWorkspace::new(Vec::new());

    let imported = workspace
        .import_flat_collection_backup(Ok(backup))
        .unwrap();

    assert_eq!(imported.selected_id, Some(imported_note.id));
    assert_eq!(workspace.selected_id(), Some(imported_note.id));
    assert_eq!(workspace.notes(), &[imported_note]);
}

#[test]
fn invalid_flat_collection_backup_leaves_workspace_unchanged() {
    let existing_note = Note::new("Existing".to_string(), "Current content".to_string(), clock());
    let mut workspace = NoteWorkspace::new(vec![existing_note.clone()]);

    let result = workspace.import_flat_collection_backup(read_json("{not valid json"));

    assert!(result.is_err());
    assert_eq!(workspace.selected_id(), Some(existing_note.id));
    assert_eq!(workspace.notes(), &[existing_note]);
}

#[test]
fn delete_confirmation_selects_deletes_and_clears_confirmation() {
    let first = Note::new("First".to_string(), String::new(), clock());
    let second = Note::new("Second".to_string(), String::new(), clock());
    let first_id = first.id;
    let second_id = second.id;
    let mut workspace = NoteWorkspace::new(vec![first, second]);

    assert!(workspace.request_delete(first_id));
    assert_eq!(workspace.selected_id(), Some(first_id));
    assert!(workspace.is_delete_confirmation_open());

    assert!(workspace.confirm_delete());
    assert_eq!(workspace.selected_id(), Some(second_id));
    assert!(!workspace.is_delete_confirmation_open());
    assert_eq!(workspace.notes().len(), 1);
    assert_eq!(workspace.notes()[0].id, second_id);
}

#[test]
fn delete_confirmation_identifies_the_selected_note() {
    let note = Note::new("Delete me".to_string(), String::new(), clock());
    let note_id = note.id;
    let mut workspace = NoteWorkspace::new(vec![note]);
    assert!(workspace.request_delete(note_id));

    assert_eq!(workspace.delete_confirmation_title(), Some("Delete me"));
}

#[test]
fn cancelled_delete_leaves_notes_unchanged() {
    let note = Note::new("First".to_string(), String::new(), clock());
    let note_id = note.id;
    let mut workspace = NoteWorkspace::new(vec![note]);

    assert!(workspace.request_delete(note_id));
    workspace.cancel_delete();

    assert!(!workspace.is_delete_confirmation_open());
    assert_eq!(workspace.notes().len(), 1);
    assert_eq!(workspace.notes()[0].id, note_id);
    assert!(!workspace.confirm_delete());
    assert_eq!(workspace.notes().len(), 1);
}

#[test]
fn confirmed_delete_uses_the_confirmation_target_not_later_selection() {
    let first = Note::new("First".to_string(), String::new(), clock());
    let second = Note::new("Second".to_string(), String::new(), clock());
    let first_id = first.id;
    let second_id = second.id;
    let mut workspace = NoteWorkspace::new(vec![first, second]);

    assert!(workspace.request_delete(first_id));
    assert!(workspace.select_note(second_id));
    assert!(workspace.confirm_delete());

    assert_eq!(workspace.notes().len(), 1);
    assert_eq!(workspace.notes()[0].id, second_id);
}

#[test]
fn pinning_changes_note_order_in_projection() {
    let first = Note::new("First".to_string(), String::new(), clock());
    let second = Note::new("Second".to_string(), String::new(), clock());
    let second_id = second.id;
    let mut workspace = NoteWorkspace::new(vec![first, second]);

    assert!(workspace.toggle_pin(second_id, clock()));
    assert!(workspace.notes()[1].is_pinned);
    assert_eq!(
        workspace.note_list_projection("", None).rows[0].id,
        second_id
    );
}

#[test]
fn a_new_workspace_selects_the_first_note_and_has_no_focus_intent() {
    let first = Note::new("First".to_string(), String::new(), clock());
    let second = Note::new("Second".to_string(), String::new(), clock());
    let first_id = first.id;
    let mut workspace = NoteWorkspace::new(vec![first, second]);
    assert_eq!(workspace.selected_id(), Some(first_id));
    assert_eq!(workspace.focus_intent(), FocusIntent::NoFocus);
    assert_eq!(workspace.take_focus_intent(), FocusIntent::NoFocus);
    assert!(!workspace.is_delete_confirmation_open());
    assert_eq!(workspace.delete_confirmation_title(), None);
}

#[test]
fn selecting_an_unknown_note_keeps_the_selection() {
    let note = Note::new("Only".to_string(), String::new(), clock());
    let id = note.id;
    let mut workspace = NoteWorkspace::new(vec![note]);
    assert!(!workspace.select_note(id.wrapping_add(1)));
    assert_eq!(workspace.selected_id(), Some(id));
    assert!(!workspace.request_delete(id.wrapping_add(1)));
    assert!(!workspace.is_delete_confirmation_open());
}

#[test]
fn edits_without_a_selection_change_nothing() {
    let mut workspace = NoteWorkspace::new(Vec::new());
    assert_eq!(workspace.selected_note(), None);
    assert!(!workspace.update_selected_title("Title".to_string(), clock()));
    assert!(!workspace.update_selected_content("Content".to_string(), clock()));
    assert!(!workspace.update_selected_tags(vec!["work".to_string()], clock()));
    assert!(!workspace.remove_selected_tag("work", clock()));
    assert!(workspace.notes().is_empty());
}
