use nota_core::editor_view::EditorViewMode;
use nota_core::model::Note;
use nota_core::writing_surface::{
    apply_formatting_command, MarkdownCommand, PreviewSection, WritingSurfaceModel,
    WritingSurfaceSelection, HIDDEN_BY_FILTER_MESSAGE,
};

fn clock() -> nota_core::model::Timestamp {
    let t = chrono::Utc::now();
    nota_core::model::Timestamp::from_parts(t.timestamp(), t.timestamp_subsec_nanos()).unwrap()
}


#[test]
fn split_view_presents_writing_and_preview_as_one_note_context() {
    let mut note = Note::new(
        " Sprint plan ".to_string(),
        "# Sprint plan\n\nShip the editor refactor.".to_string(), clock(),
    );
    note.tags = vec!["product".to_string(), "writing".to_string()];

    let model = WritingSurfaceModel::from_note(&note, EditorViewMode::Split, true);

    let writing = model.writing.expect("split mode keeps the Writing Surface");
    assert_eq!(writing.title, "Sprint plan");
    assert_eq!(writing.tags, ["product", "writing"]);
    assert_eq!(writing.content, note.content);
    assert!(writing.formatting_tools_visible);

    let preview = model.preview.expect("split mode keeps the Preview");
    assert_eq!(
        preview.sections(),
        [
            PreviewSection::NoteTitle,
            PreviewSection::NoteMetadata,
            PreviewSection::MarkdownBody,
        ]
    );
    assert_eq!(preview.title, "Sprint plan");
    assert_eq!(preview.tags, ["product", "writing"]);
    assert!(preview.body_html.contains("Ship the editor refactor."));
    assert!(!preview.body_html.contains("<h1"));

    assert_eq!(
        model.hidden_by_filter_message,
        Some(HIDDEN_BY_FILTER_MESSAGE)
    );
}

#[test]
fn formatting_commands_apply_to_writing_surface_selection() {
    let result = apply_formatting_command(
        "A😀B",
        WritingSurfaceSelection {
            start_utf16: 1,
            end_utf16: 3,
        },
        MarkdownCommand::Bold,
    );

    assert_eq!(result.content, "A**😀**B");
    assert_eq!(result.caret_utf16, 7);
}

#[test]
fn write_mode_hides_the_preview_and_visible_notes_have_no_filter_message() {
    let note = Note::new("Title".to_string(), "Body".to_string(), clock());
    let model = WritingSurfaceModel::from_note(&note, EditorViewMode::Write, false);
    assert!(model.preview.is_none());
    assert_eq!(model.hidden_by_filter_message, None);
    let writing = model.writing.expect("write mode keeps the Writing Surface");
    assert_eq!(writing.title, "Title");
    assert_eq!(writing.content, "Body");
}

#[test]
fn preview_mode_hides_the_writing_surface() {
    let note = Note::new("".to_string(), "Just text".to_string(), clock());
    let model = WritingSurfaceModel::from_note(&note, EditorViewMode::Preview, false);
    assert!(model.writing.is_none());
    let preview = model.preview.expect("preview mode keeps the Preview");
    assert_eq!(preview.title, "New Note");
    assert!(preview.body_html.contains("Just text"));
}

#[test]
fn italic_formatting_of_an_empty_selection_places_the_caret_after_the_markers() {
    let result = apply_formatting_command(
        "ab",
        WritingSurfaceSelection {
            start_utf16: 1,
            end_utf16: 1,
        },
        MarkdownCommand::Italic,
    );
    assert_eq!(result.content, "a**b");
    assert_eq!(result.caret_utf16, 3);
}
