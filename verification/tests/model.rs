use nota_core::model::{Note, Timestamp, is_earlier};
use nota_core::note_discovery::project_note_list;
use nota_core::tag_rules::parse_tags_input;

fn clock() -> nota_core::model::Timestamp {
    let t = chrono::Utc::now();
    nota_core::model::Timestamp::from_parts(t.timestamp(), t.timestamp_subsec_nanos()).unwrap()
}


fn projected_ids(notes: &[Note], query: &str, active_tag: Option<&str>) -> Vec<u128> {
    project_note_list(notes, None, query, active_tag)
        .rows
        .into_iter()
        .map(|row| row.id)
        .collect()
}

fn later(t: &Timestamp, seconds: i64) -> Timestamp {
    t.plus_seconds(seconds).unwrap()
}

#[test]
fn should_project_and_sort_notes_correctly() {
    let mut n1 = Note::new("Apple".to_string(), "Fruit".to_string(), clock());
    let mut n2 = Note::new("Banana".to_string(), "Yellow".to_string(), clock());
    let mut n3 = Note::new("Cherry".to_string(), "Red".to_string(), clock());

    let now = clock();
    n1.last_modified = now;
    n2.last_modified = later(&now, 10);
    n3.last_modified = later(&now, 20);

    let notes = vec![n1.clone(), n2.clone(), n3.clone()];

    let result = projected_ids(&notes, "", None);
    assert_eq!(result[0], n3.id);
    assert_eq!(result[1], n2.id);
    assert_eq!(result[2], n1.id);

    let result = projected_ids(&notes, "ba", None);
    assert_eq!(result.len(), 1);
    assert_eq!(result[0], n2.id);

    let result = projected_ids(&notes, "red", None);
    assert_eq!(result.len(), 1);
    assert_eq!(result[0], n3.id);

    let mut pinned_n1 = n1.clone();
    pinned_n1.is_pinned = true;
    let notes_with_pin = vec![pinned_n1.clone(), n2.clone(), n3.clone()];
    let result = projected_ids(&notes_with_pin, "", None);
    assert_eq!(result[0], pinned_n1.id);
    assert_eq!(result[1], n3.id);
}

#[test]
fn should_calculate_counts_correctly() {
    let note = Note::new("".to_string(), "Hello world, this is a test.".to_string(), clock());
    assert_eq!(note.word_count(), 6);
    assert_eq!(note.character_count(), 28);

    let empty_note = Note::new("".to_string(), "".to_string(), clock());
    assert_eq!(empty_note.word_count(), 0);
    assert_eq!(empty_note.character_count(), 0);

    let md_note = Note::new(
        "".to_string(),
        "# Title\n\n- List item\n- List item 2".to_string(), clock(),
    );
    assert_eq!(md_note.word_count(), 9);

    let unicode_note = Note::new("".to_string(), "日本語".to_string(), clock());
    assert_eq!(unicode_note.character_count(), 3);
    assert_eq!(unicode_note.word_count(), 1);
}

#[test]
fn should_create_note_with_correct_fields() {
    let title = "Test Title".to_string();
    let content = "Test Content".to_string();
    let note = Note::new(title.clone(), content.clone(), clock());

    assert_eq!(note.title, title);
    assert_eq!(note.content, content);
    assert_ne!(note.id, 0);
    assert!(note.tags.is_empty());
    assert!(!note.is_pinned);
    assert!(!is_earlier(&clock(), &note.created));
    assert_eq!(note.created, note.last_modified);
}

#[test]
fn new_notes_get_random_version_four_identifiers() {
    let a = Note::new(String::new(), String::new(), clock());
    let b = Note::new(String::new(), String::new(), clock());
    assert_ne!(a.id, b.id);
    assert_eq!((a.id >> 76) & 0xF, 4);
    assert_eq!((a.id >> 62) & 0x3, 2);
}

#[test]
fn should_return_correct_display_title() {
    let mut note = Note::new("".to_string(), "".to_string(), clock());
    assert_eq!(note.display_title(), "New Note");

    note.title = "   ".to_string();
    assert_eq!(note.display_title(), "New Note");

    note.title = "Real Title".to_string();
    assert_eq!(note.display_title(), "Real Title");

    note.title = "A".to_string();
    assert_eq!(note.display_title(), "A");
}

#[test]
fn should_return_correct_preview() {
    let mut note = Note::new("".to_string(), "Line 1\nLine 2".to_string(), clock());
    assert_eq!(note.preview(), "Line 1");

    note.content = "".to_string();
    assert_eq!(note.preview(), "No additional text");

    note.content =
        "A very long line that exceeds the fifty character limit of the preview function"
            .to_string();
    assert_eq!(
        note.preview(),
        "A very long line that exceeds the fifty charact..."
    );

    note.content = "Short line".to_string();
    assert_eq!(note.preview(), "Short line");

    note.content = "Line with exactly 50 characters to test boundary.".to_string();
    assert_eq!(
        note.preview(),
        "Line with exactly 50 characters to test boundary."
    );

    note.content = "Line with exactly 51 characters to test boundary...".to_string();
    assert_eq!(
        note.preview(),
        "Line with exactly 51 characters to test boundar..."
    );

    note.content = "😀😀😀😀😀😀😀😀😀😀😀😀😀😀😀😀😀😀😀😀😀😀😀😀😀".to_string();
    assert_eq!(
        note.preview(),
        "😀😀😀😀😀😀😀😀😀😀😀😀😀😀😀😀😀😀😀😀😀😀😀😀😀"
    );

    note.content = "😀😀😀😀😀😀😀😀😀😀😀😀😀😀😀😀😀😀😀😀😀😀😀😀😀😀".to_string();
    assert_eq!(
        note.preview(),
        "😀😀😀😀😀😀😀😀😀😀😀😀😀😀😀😀😀😀😀😀😀😀😀😀😀😀"
    );

    note.content = "あ".repeat(51);
    assert!(note.preview().ends_with("..."));
    assert_eq!(note.preview().chars().count(), 50);
}

#[test]
fn preview_stops_at_a_carriage_return_line_end() {
    let note = Note::new(String::new(), "First\r\nSecond".to_string(), clock());
    assert_eq!(note.preview(), "First");
    let blank_first = Note::new(String::new(), "\nSecond".to_string(), clock());
    assert_eq!(blank_first.preview(), "");
}

#[test]
fn should_format_date_correctly() {
    let note = Note::new("".to_string(), "".to_string(), clock());
    let date_str = note.display_date();
    assert!(date_str.chars().nth(2) == Some('/'));
    assert!(date_str.chars().nth(5) == Some('/'));
    assert_eq!(date_str.len(), 10);
}

#[test]
fn dates_are_formatted_in_utc() {
    let mut note = Note::new(String::new(), String::new(), clock());
    note.last_modified = Timestamp::from_parts(1_777_628_700, 0).unwrap();
    assert_eq!(note.display_date(), "01/05/2026");
    assert_eq!(note.last_modified.format_date("%Y-%m-%d"), "2026-05-01");
}

#[test]
fn timestamps_outside_the_calendar_range_are_refused() {
    assert!(Timestamp::from_parts(0, 0).is_some());
    assert!(Timestamp::from_parts(0, 1_000_000_000).is_none());
    assert!(Timestamp::from_parts(i64::MAX, 0).is_none());
    let t = Timestamp::from_parts(100, 5).unwrap();
    assert_eq!(t.secs(), 100);
    assert_eq!(t.subsec_nanos(), 5);
    assert_eq!(t.plus_seconds(-100).unwrap().secs(), 0);
}

#[test]
fn should_filter_unicode_notes() {
    let notes = vec![
        Note::new("日本語".to_string(), "内容".to_string(), clock()),
        Note::new("Hello".to_string(), "World".to_string(), clock()),
    ];
    let result = projected_ids(&notes, "日本", None);
    assert_eq!(result.len(), 1);
    assert_eq!(result[0], notes[0].id);
}

#[test]
fn should_filter_empty_notes() {
    let notes = vec![Note::new("".to_string(), "".to_string(), clock())];
    let result = projected_ids(&notes, "", None);
    assert_eq!(result.len(), 1);
}

#[test]
fn should_handle_special_characters_in_search() {
    let notes = vec![Note::new("Test @#$%".to_string(), "Content".to_string(), clock())];
    let result = projected_ids(&notes, "@#$", None);
    assert_eq!(result.len(), 1);
}

#[test]
fn should_handle_empty_notes_vector() {
    let notes: Vec<Note> = vec![];
    let result = projected_ids(&notes, "anything", None);
    assert_eq!(result.len(), 0);
}

#[test]
fn should_search_case_insensitive() {
    let notes = vec![Note::new("HELLO world".to_string(), "Content".to_string(), clock())];
    let result = projected_ids(&notes, "hello", None);
    assert_eq!(result.len(), 1);
    let result = projected_ids(&notes, "HELLO", None);
    assert_eq!(result.len(), 1);
    let result = projected_ids(&notes, "HeLLo", None);
    assert_eq!(result.len(), 1);
}

#[test]
fn should_parse_tags_input() {
    let tags = parse_tags_input(" work, rust,work, , Product ");
    assert_eq!(
        tags,
        vec![
            "work".to_string(),
            "rust".to_string(),
            "Product".to_string()
        ]
    );
}

#[test]
fn should_filter_notes_by_active_tag() {
    let mut n1 = Note::new("One".to_string(), "First".to_string(), clock());
    n1.tags = vec!["Work".to_string(), "Rust".to_string()];

    let mut n2 = Note::new("Two".to_string(), "Second".to_string(), clock());
    n2.tags = vec!["Personal".to_string()];

    let notes = vec![n1.clone(), n2.clone()];
    let result = projected_ids(&notes, "", Some("work"));
    assert_eq!(result, vec![n1.id]);

    let result = projected_ids(&notes, "", Some("PERSONAL"));
    assert_eq!(result, vec![n2.id]);
}

#[test]
fn should_search_tags_with_query() {
    let mut n1 = Note::new("One".to_string(), "First".to_string(), clock());
    n1.tags = vec!["Project".to_string()];

    let n2 = Note::new("Two".to_string(), "Second".to_string(), clock());

    let notes = vec![n1.clone(), n2];
    let result = projected_ids(&notes, "pro", None);
    assert_eq!(result, vec![n1.id]);
}

#[test]
fn duplicate_copies_every_field() {
    let mut note = Note::new("Title".to_string(), "Body".to_string(), clock());
    note.tags = vec!["a".to_string()];
    note.is_pinned = true;
    assert_eq!(note.duplicate(), note);
}
