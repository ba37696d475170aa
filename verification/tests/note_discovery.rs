use nota_core::model::{Note, Timestamp};
use nota_core::note_discovery::{HighlightSegment, SelectedNoteVisibility, project_note_list};

fn clock() -> nota_core::model::Timestamp {
    let t = chrono::Utc::now();
    nota_core::model::Timestamp::from_parts(t.timestamp(), t.timestamp_subsec_nanos()).unwrap()
}


fn projected_ids(notes: &[Note], query: &str, active_tag: Option<&str>) -> Vec<u128> {
    project_note_list(notes, None, query, active_tag)
        .rows
        .into_iter()
        .map(|row| row.id)
        .collect()
}

fn later(t: &Timestamp, seconds: i64) -> Timestamp {
    t.plus_seconds(seconds).unwrap()
}

#[test]
fn discovers_notes_with_filter_order_and_highlights_using_one_query() {
    let mut older_pinned = Note::new("Rust Work".to_string(), "Pinned note".to_string(), clock());
    older_pinned.tags = vec!["Work".to_string()];
    older_pinned.is_pinned = true;
    older_pinned.last_modified = clock();

    let mut newer_unpinned = Note::new("Other".to_string(), "rust content".to_string(), clock());
    newer_unpinned.tags = vec!["Work".to_string()];
    newer_unpinned.last_modified = later(&older_pinned.last_modified, 10);

    let notes = vec![newer_unpinned.clone(), older_pinned.clone()];

    let projection = project_note_list(&notes, None, "rust", Some("work"));
    assert_eq!(
        projection.rows.iter().map(|row| row.id).collect::<Vec<_>>(),
        vec![older_pinned.id, newer_unpinned.id]
    );
    let highlighted = &projection.rows[0].title_highlights;
    assert_eq!(
        highlighted.as_slice(),
        &[
            HighlightSegment {
                text: "Rust".to_string(),
                is_match: true,
            },
            HighlightSegment {
                text: " Work".to_string(),
                is_match: false,
            },
        ]
    );
}

#[test]
fn quoted_phrase_search_matches_multi_word_note_fragments() {
    let matching = Note::new(
        "Release planning".to_string(),
        "Capture migration risks before launch".to_string(), clock(),
    );
    let other = Note::new(
        "Migration".to_string(),
        "The launch notes live elsewhere".to_string(), clock(),
    );

    let ids = projected_ids(&[matching.clone(), other], "\"migration risks\"", None);

    assert_eq!(ids, vec![matching.id]);
}

#[test]
fn plain_multi_word_search_preserves_substring_matching() {
    let matching = Note::new(
        "Release planning".to_string(),
        "Capture migration risks before launch".to_string(), clock(),
    );
    let words_apart = Note::new(
        "Migration".to_string(),
        "Risks are tracked before launch".to_string(), clock(),
    );

    let ids = projected_ids(&[matching.clone(), words_apart], "migration risks", None);

    assert_eq!(ids, vec![matching.id]);
}

#[test]
fn malformed_quoted_phrase_search_fails_gently() {
    let matching = Note::new(
        "Release planning".to_string(),
        "Capture migration risks before launch".to_string(), clock(),
    );

    let ids = projected_ids(std::slice::from_ref(&matching), "\"migration risks", None);

    assert_eq!(ids, vec![matching.id]);
}

#[test]
fn scoped_title_and_tag_search_combine_with_plain_search_and_active_tag() {
    let mut matching = Note::new(
        "Launch Plan".to_string(),
        "Review migration risks with product".to_string(), clock(),
    );
    matching.tags = vec!["Work".to_string(), "Product".to_string()];

    let mut missing_active_tag = Note::new(
        "Launch Plan".to_string(),
        "Review migration risks with product".to_string(), clock(),
    );
    missing_active_tag.tags = vec!["Work".to_string()];

    let mut missing_scoped_tag = Note::new(
        "Launch Plan".to_string(),
        "Review migration risks with product".to_string(), clock(),
    );
    missing_scoped_tag.tags = vec!["Product".to_string()];

    let notes = vec![
        matching.clone(),
        missing_active_tag,
        missing_scoped_tag,
        Note::new(
            "Migration Risks".to_string(),
            "Launch details only".to_string(), clock(),
        ),
    ];

    let projection = project_note_list(
        &notes,
        None,
        "title:launch tag:work \"migration risks\"",
        Some("product"),
    );

    assert_eq!(projection.rows.len(), 1);
    assert_eq!(projection.rows[0].id, matching.id);
    assert!(
        projection.rows[0]
            .title_highlights
            .iter()
            .any(|segment| segment.is_match && segment.text == "Launch")
    );
    assert!(
        projection.rows[0]
            .preview_highlights
            .iter()
            .any(|segment| segment.is_match && segment.text == "migration risks")
    );
}

#[test]
fn scoped_search_sets_filtered_empty_state_when_no_notes_match() {
    let note = Note::new("Launch Plan".to_string(), "Review notes".to_string(), clock());

    let projection = project_note_list(&[note], None, "title:archive", None);

    assert!(projection.has_active_filter);
    assert!(projection.rows.is_empty());
}

#[test]
fn projects_matched_tags_without_preview_highlights_for_scoped_tag_search() {
    let mut note = Note::new("Launch Plan".to_string(), "Review notes".to_string(), clock());
    note.tags = vec!["Work".to_string(), "Product".to_string()];

    let row = project_note_list(&[note], None, "tag:work", None)
        .rows
        .remove(0);

    assert_eq!(
        row.tag_highlights,
        vec![
            vec![HighlightSegment {
                text: "Work".to_string(),
                is_match: true,
            }],
            vec![HighlightSegment {
                text: "Product".to_string(),
                is_match: false,
            }],
        ]
    );
    assert_eq!(
        row.preview_highlights,
        vec![HighlightSegment {
            text: "Review notes".to_string(),
            is_match: false,
        }]
    );
}

#[test]
fn body_match_uses_compact_match_snippet_when_title_and_tags_do_not_explain() {
    let mut note = Note::new(
        "Release Plan".to_string(),
        "Overview that does not explain the remembered phrase.\nLater review migration risks before launch with the team.".to_string(), clock(),
    );
    note.tags = vec!["Planning".to_string()];

    let row = project_note_list(&[note], None, "\"migration risks\"", None)
        .rows
        .remove(0);

    assert!(row.uses_match_snippet);
    assert!(row.preview.starts_with("..."));
    assert!(row.preview.contains("migration risks"));
    assert!(
        row.preview_highlights
            .iter()
            .any(|segment| segment.is_match && segment.text == "migration risks")
    );
}

#[test]
fn title_explained_match_keeps_the_normal_preview() {
    let note = Note::new(
        "Migration Risks".to_string(),
        "Overview stays visible.\nLater migration risks appear in the body.".to_string(), clock(),
    );

    let row = project_note_list(&[note], None, "migration risks", None)
        .rows
        .remove(0);

    assert!(!row.uses_match_snippet);
    assert_eq!(row.preview, "Overview stays visible.");
}

#[test]
fn body_match_snippet_prefers_the_window_that_explains_more_terms() {
    let mut note = Note::new(
        "Pinned Plan".to_string(),
        "Alpha appears alone near the opening. This spacer keeps beta out of reach. Later alpha and beta appear together near launch.".to_string(), clock(),
    );
    note.is_pinned = true;

    let row = project_note_list(&[note], None, "alpha is:pinned beta", None)
        .rows
        .remove(0);

    assert!(row.uses_match_snippet);
    assert!(row.preview.contains("alpha and beta"));
}

#[test]
fn whitespace_search_uses_normal_note_list_ordering() {
    let mut older = Note::new("Older".to_string(), String::new(), clock());
    older.last_modified = clock();
    let mut newer = Note::new("Newer".to_string(), String::new(), clock());
    newer.last_modified = later(&older.last_modified, 10);

    let projection = project_note_list(&[older.clone(), newer.clone()], None, "   ", None);

    assert!(!projection.has_active_filter);
    assert_eq!(
        projection.rows.iter().map(|row| row.id).collect::<Vec<_>>(),
        vec![newer.id, older.id]
    );
}

#[test]
fn pinned_search_filter_combines_with_plain_and_scoped_terms() {
    let mut older_pinned = Note::new(
        "Rust Launch Plan".to_string(),
        "Pinned migration risks".to_string(), clock(),
    );
    older_pinned.tags = vec!["Work".to_string()];
    older_pinned.is_pinned = true;
    older_pinned.last_modified = clock();

    let mut newer_pinned = Note::new(
        "Rust Launch Plan".to_string(),
        "Pinned migration risks".to_string(), clock(),
    );
    newer_pinned.tags = vec!["Work".to_string()];
    newer_pinned.is_pinned = true;
    newer_pinned.last_modified = later(&older_pinned.last_modified, 10);

    let mut unpinned = Note::new(
        "Rust Launch Plan".to_string(),
        "Pinned migration risks".to_string(), clock(),
    );
    unpinned.tags = vec!["Work".to_string()];
    unpinned.last_modified = later(&newer_pinned.last_modified, 10);

    let ids = projected_ids(
        &[unpinned, older_pinned.clone(), newer_pinned.clone()],
        "is:pinned title:launch tag:work migration",
        None,
    );

    assert_eq!(ids, vec![newer_pinned.id, older_pinned.id]);
}

#[test]
fn invalid_is_filter_does_not_block_plain_search_terms() {
    let matching = Note::new("Rust Launch Plan".to_string(), String::new(), clock());

    let ids = projected_ids(std::slice::from_ref(&matching), "is:archived rust", None);

    assert_eq!(ids, vec![matching.id]);
}

#[test]
fn projects_render_ready_note_rows() {
    let mut older_pinned = Note::new("Rust Work".to_string(), "Pinned note".to_string(), clock());
    older_pinned.tags = vec!["Work".to_string()];
    older_pinned.is_pinned = true;
    older_pinned.last_modified = clock();

    let mut newer_unpinned = Note::new("Other".to_string(), "rust content".to_string(), clock());
    newer_unpinned.tags = vec!["Work".to_string()];
    newer_unpinned.last_modified = later(&older_pinned.last_modified, 10);

    let projection = project_note_list(
        &[newer_unpinned.clone(), older_pinned.clone()],
        Some(older_pinned.id),
        "rust",
        Some("work"),
    );

    assert!(projection.has_active_filter);
    assert_eq!(projection.rows.len(), 2);
    assert_eq!(projection.rows[0].id, older_pinned.id);
    assert!(projection.rows[0].is_selected);
    assert!(projection.rows[0].is_pinned);
    assert_eq!(projection.rows[0].display_title, "Rust Work");
    assert_eq!(projection.rows[0].preview, "Pinned note");
    assert!(
        projection.rows[0]
            .title_highlights
            .iter()
            .any(|segment| segment.is_match)
    );
    assert_eq!(projection.rows[1].id, newer_unpinned.id);
}

#[test]
fn reports_when_the_selected_note_is_hidden_by_the_active_filter() {
    let mut selected = Note::new("Writing draft".to_string(), "Private content".to_string(), clock());
    selected.tags = vec!["Personal".to_string()];
    let mut matching = Note::new("Launch plan".to_string(), "Work content".to_string(), clock());
    matching.tags = vec!["Work".to_string()];
    let notes = vec![selected.clone(), matching.clone()];

    let filtered = project_note_list(&notes, Some(selected.id), "", Some("work"));

    assert_eq!(
        filtered.rows.iter().map(|row| row.id).collect::<Vec<_>>(),
        vec![matching.id]
    );
    assert_eq!(
        filtered.selected_note_visibility,
        SelectedNoteVisibility::HiddenByFilter
    );

    let unfiltered = project_note_list(&notes, Some(selected.id), "", None);

    assert!(unfiltered.rows.iter().any(|row| row.id == selected.id));
    assert_eq!(
        unfiltered.selected_note_visibility,
        SelectedNoteVisibility::Visible
    );
}

#[test]
fn row_render_key_changes_when_displayed_note_fields_change() {
    let mut note = Note::new("Draft".to_string(), "Preview".to_string(), clock());
    note.tags = vec!["work".to_string()];

    let before = project_note_list(&[note.clone()], Some(note.id), "", None)
        .rows
        .remove(0)
        .render_key();

    note.title = "Published".to_string();
    note.content = "Updated preview".to_string();
    note.tags = vec!["personal".to_string()];

    let after = project_note_list(&[note], None, "", None)
        .rows
        .remove(0)
        .render_key();

    assert_ne!(before, after);
}

#[test]
fn highlights_unicode_case_folded_matches() {
    let row = project_note_list(
        &[Note::new("İstanbul".to_string(), String::new(), clock())],
        None,
        "i",
        None,
    )
    .rows
    .remove(0);

    assert_eq!(
        row.title_highlights,
        vec![
            HighlightSegment {
                text: "İ".to_string(),
                is_match: true,
            },
            HighlightSegment {
                text: "stanbul".to_string(),
                is_match: false,
            },
        ]
    );
}

#[test]
fn empty_collection_projects_no_rows_and_no_selection() {
    let projection = project_note_list(&[], None, "", None);
    assert!(projection.rows.is_empty());
    assert!(!projection.has_active_filter);
    assert_eq!(
        projection.selected_note_visibility,
        SelectedNoteVisibility::NoSelection
    );
}

#[test]
fn active_tag_alone_counts_as_a_filter() {
    let mut tagged = Note::new("Tagged".to_string(), String::new(), clock());
    tagged.tags = vec!["Work".to_string()];
    let untagged = Note::new("Plain".to_string(), String::new(), clock());
    let projection = project_note_list(&[tagged.clone(), untagged], None, "", Some("WORK"));
    assert!(projection.has_active_filter);
    assert_eq!(projection.rows.len(), 1);
    assert_eq!(projection.rows[0].id, tagged.id);
}

#[test]
fn render_key_carries_the_row_fields() {
    let note = Note::new("Draft".to_string(), "Preview".to_string(), clock());
    let row = project_note_list(&[note.clone()], Some(note.id), "", None)
        .rows
        .remove(0);
    let key = row.render_key();
    assert_eq!(key.id, note.id);
    assert_eq!(key.display_title, "Draft");
    assert_eq!(key.preview, "Preview");
    assert!(key.is_selected);
}
