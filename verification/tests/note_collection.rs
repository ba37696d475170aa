use nota_core::model::{Note, Timestamp, is_earlier};
use nota_core::note_collection::NoteCollection;
use nota_core::tag_rules::plan_collection_tag_cleanup;

fn clock() -> nota_core::model::Timestamp {
    let t = chrono::Utc::now();
    nota_core::model::Timestamp::from_parts(t.timestamp(), t.timestamp_subsec_nanos()).unwrap()
}


fn earlier(t: &Timestamp, seconds: i64) -> Timestamp {
    t.plus_seconds(-seconds).unwrap()
}

#[test]
fn creating_a_note_inserts_selects_and_requests_title_focus() {
    let mut notes = Vec::new();
    let created = NoteCollection::create_note(&mut notes, clock());

    assert_eq!(notes.len(), 1);
    assert_eq!(created.selected_id, Some(notes[0].id));
    assert!(created.should_focus_title);
}

#[test]
fn editing_a_note_updates_fields_and_modified_time() {
    let mut note = Note::new("Old".to_string(), "Old content".to_string(), clock());
    let id = note.id;
    let original_modified = note.last_modified;
    note.last_modified = earlier(&original_modified, 5);
    let mut notes = vec![note];

    assert!(NoteCollection::update_title(
        &mut notes,
        id,
        "New".to_string(), clock()
    ));
    assert_eq!(notes[0].title, "New");
    assert!(is_earlier(&earlier(&original_modified, 5), &notes[0].last_modified));

    assert!(NoteCollection::update_content(
        &mut notes,
        id,
        "New content".to_string(), clock()
    ));
    assert_eq!(notes[0].content, "New content");
}

#[test]
fn tag_updates_only_modify_when_tags_change() {
    let mut note = Note::new("Note".to_string(), "Content".to_string(), clock());
    note.tags = vec!["work".to_string()];
    let id = note.id;
    let mut notes = vec![note];

    assert!(!NoteCollection::update_tags(
        &mut notes,
        id,
        vec!["work".to_string()], clock()
    ));
    assert!(NoteCollection::update_tags(
        &mut notes,
        id,
        vec!["rust".to_string()], clock()
    ));
    assert_eq!(notes[0].tags, vec!["rust".to_string()]);
}

#[test]
fn tag_updates_normalize_entry_and_do_not_touch_no_op_modified_time() {
    let mut note = Note::new("Note".to_string(), "Content".to_string(), clock());
    note.tags = vec!["Work".to_string()];
    let id = note.id;
    let original_modified = earlier(&note.last_modified, 30);
    note.last_modified = original_modified;
    let mut notes = vec![note];

    assert!(!NoteCollection::update_tags(
        &mut notes,
        id,
        vec![" work ".to_string(), "WORK".to_string(), "".to_string()], clock()
    ));
    assert_eq!(notes[0].tags, vec!["Work".to_string()]);
    assert_eq!(notes[0].last_modified, original_modified);

    assert!(NoteCollection::update_tags(
        &mut notes,
        id,
        vec![
            " work ".to_string(),
            "Rust".to_string(),
            "rust".to_string(),
            " ".to_string()
        ], clock()
    ));
    assert_eq!(notes[0].tags, vec!["Work".to_string(), "Rust".to_string()]);
    assert!(is_earlier(&original_modified, &notes[0].last_modified));
}

#[test]
fn removing_an_individual_tag_updates_through_the_collection_path() {
    let mut note = Note::new("Note".to_string(), "Content".to_string(), clock());
    note.tags = vec!["Work".to_string(), "Rust".to_string()];
    let id = note.id;
    let original_modified = earlier(&note.last_modified, 30);
    note.last_modified = original_modified;
    let mut notes = vec![note];

    assert!(NoteCollection::remove_tag(&mut notes, id, "work", clock()));
    assert_eq!(notes[0].tags, vec!["Rust".to_string()]);
    assert!(is_earlier(&original_modified, &notes[0].last_modified));

    let modified_after_remove = notes[0].last_modified;
    assert!(!NoteCollection::remove_tag(&mut notes, id, "missing", clock()));
    assert_eq!(notes[0].last_modified, modified_after_remove);
}

#[test]
fn applying_tag_cleanup_updates_only_affected_notes() {
    let mut dirty = Note::new("Dirty".to_string(), "Content".to_string(), clock());
    dirty.tags = vec![" Work ".to_string(), "work".to_string()];
    dirty.last_modified = earlier(&dirty.last_modified, 30);
    let dirty_modified = dirty.last_modified;
    let mut clean = Note::new("Clean".to_string(), "Content".to_string(), clock());
    clean.tags = vec!["Reference".to_string()];
    let clean_modified = clean.last_modified;
    let mut notes = vec![dirty.clone(), clean];
    let plan = plan_collection_tag_cleanup(&notes);

    assert!(NoteCollection::apply_tag_cleanup(&mut notes, &plan, clock()));

    assert_eq!(notes[0].tags, vec!["Work".to_string()]);
    assert!(is_earlier(&dirty_modified, &notes[0].last_modified));
    assert_eq!(notes[1].tags, vec!["Reference".to_string()]);
    assert_eq!(notes[1].last_modified, clean_modified);

    assert!(!NoteCollection::apply_tag_cleanup(&mut notes, &plan, clock()));
}

#[test]
fn deleting_a_note_returns_next_selection() {
    let first = Note::new("First".to_string(), "".to_string(), clock());
    let second = Note::new("Second".to_string(), "".to_string(), clock());
    let deleted_id = first.id;
    let expected_next = second.id;
    let mut notes = vec![first, second];

    let next_selected = NoteCollection::delete_note(&mut notes, deleted_id);

    assert_eq!(next_selected, Some(expected_next));
    assert_eq!(notes.len(), 1);
    assert_eq!(notes[0].id, expected_next);
}

#[test]
fn creating_a_note_puts_it_first() {
    let existing = Note::new("Existing".to_string(), String::new(), clock());
    let mut notes = vec![existing.clone()];
    let created = NoteCollection::create_note(&mut notes, clock());
    assert_eq!(notes.len(), 2);
    assert_eq!(created.selected_id, Some(notes[0].id));
    assert_eq!(notes[0].title, "");
    assert_eq!(notes[1], existing);
}

#[test]
fn edits_of_unknown_notes_change_nothing() {
    let note = Note::new("Only".to_string(), "Body".to_string(), clock());
    let mut notes = vec![note.clone()];
    let missing = note.id.wrapping_add(1);
    assert!(!NoteCollection::update_title(&mut notes, missing, "X".to_string(), clock()));
    assert!(!NoteCollection::update_content(&mut notes, missing, "X".to_string(), clock()));
    assert!(!NoteCollection::update_tags(&mut notes, missing, vec!["x".to_string()], clock()));
    assert!(!NoteCollection::remove_tag(&mut notes, missing, "x", clock()));
    assert!(!NoteCollection::toggle_pin(&mut notes, missing, clock()));
    assert_eq!(NoteCollection::delete_note(&mut notes, missing), Some(note.id));
    assert_eq!(notes, vec![note]);
}

#[test]
fn toggling_a_pin_twice_restores_the_flag() {
    let note = Note::new("Pin".to_string(), String::new(), clock());
    let id = note.id;
    let mut notes = vec![note];
    assert!(NoteCollection::toggle_pin(&mut notes, id, clock()));
    assert!(notes[0].is_pinned);
    assert!(NoteCollection::toggle_pin(&mut notes, id, clock()));
    assert!(!notes[0].is_pinned);
}

#[test]
fn deleting_the_last_note_leaves_no_selection() {
    let note = Note::new("Only".to_string(), String::new(), clock());
    let id = note.id;
    let mut notes = vec![note];
    assert_eq!(NoteCollection::delete_note(&mut notes, id), None);
    assert!(notes.is_empty());
}

#[test]
fn edits_stamp_the_time_they_are_given() {
    let created = Timestamp::from_parts(1_700_000_000, 0).unwrap();
    let edited = Timestamp::from_parts(1_700_000_600, 5).unwrap();
    let mut notes = vec![Note::new("Draft".to_string(), String::new(), created)];
    assert_eq!(notes[0].created, created);
    assert_eq!(notes[0].last_modified, created);
    let id = notes[0].id;

    assert!(NoteCollection::update_title(&mut notes, id, "Final".to_string(), edited));
    assert_eq!(notes[0].last_modified, edited);
    assert_eq!(notes[0].created, created);

    let before_epoch = Timestamp::from_parts(-86_400, 0).unwrap();
    assert!(NoteCollection::toggle_pin(&mut notes, id, before_epoch));
    assert_eq!(notes[0].last_modified, before_epoch);
}
