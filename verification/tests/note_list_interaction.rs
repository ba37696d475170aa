use nota_core::model::Note;
use nota_core::note_list_interaction::{
    NoteListCommand, NoteListDisplayState, NoteListInteraction, SEARCH_DEBOUNCE_MS,
};

fn clock() -> nota_core::model::Timestamp {
    let t = chrono::Utc::now();
    nota_core::model::Timestamp::from_parts(t.timestamp(), t.timestamp_subsec_nanos()).unwrap()
}


#[test]
fn committed_search_and_active_tag_distinguish_filtered_empty_from_empty_collection() {
    let mut work_note = Note::new("Sprint plan".to_string(), "Draft release notes".to_string(), clock());
    work_note.tags = vec!["Work".to_string()];
    let mut personal_note = Note::new("Groceries".to_string(), "Buy apples".to_string(), clock());
    personal_note.tags = vec!["Personal".to_string()];
    let notes = vec![work_note, personal_note];

    let mut interaction = NoteListInteraction::default();

    interaction.edit_search("draft".to_string());
    let before_commit = interaction.project_notes(&notes, None);
    assert_eq!(before_commit.rows.len(), 2);

    interaction.commit_search();
    let after_commit = interaction.project_notes(&notes, None);
    assert_eq!(
        after_commit
            .rows
            .iter()
            .map(|row| row.display_title.as_str())
            .collect::<Vec<_>>(),
        vec!["Sprint plan"]
    );

    interaction.select_tag("Personal".to_string());
    let filtered_empty = interaction.project_notes(&notes, None);
    assert_eq!(filtered_empty.rows.len(), 0);
    assert_eq!(
        interaction.display_state(notes.len(), &filtered_empty),
        NoteListDisplayState::FilteredEmpty
    );

    interaction.clear_tag();
    let tag_cleared = interaction.project_notes(&notes, None);
    assert_eq!(tag_cleared.rows.len(), 1);

    let empty_collection = interaction.project_notes(&[], None);
    assert_eq!(
        interaction.display_state(0, &empty_collection),
        NoteListDisplayState::EmptyCollection
    );
}

#[test]
fn row_selection_and_note_actions_expose_stable_commands() {
    let mut note = Note::new("Pinned".to_string(), String::new(), clock());
    note.is_pinned = true;
    let row = NoteListInteraction::default()
        .project_notes(&[note.clone()], Some(note.id))
        .rows
        .remove(0);

    let interaction = NoteListInteraction::default();
    assert_eq!(
        interaction.select_row(row.id),
        NoteListCommand::SelectNote(note.id)
    );

    let actions = interaction.note_actions(&row);
    assert_eq!(actions.pin_label, "Unpin");
    assert_eq!(actions.pin_command, NoteListCommand::TogglePin(note.id));
    assert_eq!(
        actions.delete_command,
        NoteListCommand::RequestDelete(note.id)
    );
}

#[test]
fn selecting_a_blank_tag_clears_the_filter_and_tags_are_trimmed() {
    let mut interaction = NoteListInteraction::default();
    interaction.select_tag("  Work  ".to_string());
    assert_eq!(interaction.active_tag(), Some("Work"));
    interaction.select_tag("   ".to_string());
    assert_eq!(interaction.active_tag(), None);
}

#[test]
fn selecting_the_same_tag_twice_is_the_same_as_once() {
    let mut once = NoteListInteraction::default();
    once.select_tag(" Rust ".to_string());
    let mut twice = once.clone();
    twice.select_tag(" Rust ".to_string());
    assert_eq!(once, twice);
}

#[test]
fn editing_search_does_not_commit_it() {
    let mut interaction = NoteListInteraction::default();
    interaction.edit_search("plan".to_string());
    assert_eq!(interaction.search_input(), "plan");
    assert_eq!(interaction.committed_search(), "");
    interaction.commit_search();
    assert_eq!(interaction.committed_search(), "plan");
    assert_eq!(SEARCH_DEBOUNCE_MS, 200);
}

#[test]
fn unpinned_rows_offer_pin_and_rows_display_state_when_visible() {
    let note = Note::new("Plain".to_string(), String::new(), clock());
    let interaction = NoteListInteraction::default();
    let projection = interaction.project_notes(&[note.clone()], None);
    assert_eq!(
        interaction.display_state(1, &projection),
        NoteListDisplayState::Rows
    );
    let actions = interaction.note_actions(&projection.rows[0]);
    assert_eq!(actions.pin_label, "Pin");
    assert_eq!(actions.pin_command, NoteListCommand::TogglePin(note.id));
}

#[test]
fn interaction_state_follows_the_last_edit_commit_and_tag_calls() {
    let mut s = nota_core::note_list_interaction::NoteListInteraction::default();
    s.edit_search("draft".to_string());
    assert_eq!(s.committed_search(), "");
    s.commit_search();
    s.edit_search("next".to_string());
    s.select_tag("  Work ".to_string());
    assert_eq!(s.search_input(), "next");
    assert_eq!(s.committed_search(), "draft");
    assert_eq!(s.active_tag(), Some("Work"));
    s.select_tag("   ".to_string());
    assert_eq!(s.active_tag(), None);
    s.select_tag("x".to_string());
    s.clear_tag();
    assert_eq!(s.active_tag(), None);
}
