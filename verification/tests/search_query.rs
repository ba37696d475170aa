use nota_core::highlight::{highlight_segments_for_terms, MATCH_SNIPPET_CONTEXT_CHARS};
use nota_core::model::Note;
use nota_core::note_discovery::HighlightSegment;
use nota_core::search_query::SearchQuery;

fn clock() -> nota_core::model::Timestamp {
    let t = chrono::Utc::now();
    nota_core::model::Timestamp::from_parts(t.timestamp(), t.timestamp_subsec_nanos()).unwrap()
}


fn note(title: &str, content: &str, tags: &[&str], is_pinned: bool) -> Note {
    let mut note = Note::new(title.to_string(), content.to_string(), clock());
    note.tags = tags.iter().map(|tag| tag.to_string()).collect();
    note.is_pinned = is_pinned;
    note
}

fn segment(text: &str, is_match: bool) -> HighlightSegment {
    HighlightSegment {
        text: text.to_string(),
        is_match,
    }
}

#[test]
fn blank_queries_have_no_terms_and_match_everything() {
    for raw in ["", "   ", "\"\"", "tag:\"  \"", "is:archived"] {
        let query = SearchQuery::parse(raw);
        assert!(query.is_empty(), "{raw:?} should have no terms");
        assert!(query.matches(&note("Any", "", &[], false)));
    }
}

#[test]
fn scoped_terms_split_plain_text_and_keep_their_own_highlights() {
    let query = SearchQuery::parse("alpha title:Plan beta tag:\"Road map\" is:PINNED");
    assert!(!query.is_empty());
    assert_eq!(query.title_highlight_terms(), vec!["alpha", "Plan", "beta"]);
    assert_eq!(query.preview_highlight_terms(), vec!["alpha", "beta"]);
    assert_eq!(query.tag_highlight_terms(), vec!["alpha", "beta", "Road map"]);
}

#[test]
fn plain_text_keeps_inner_spaces_and_quotes_only_group() {
    let query = SearchQuery::parse("  \"migration  risks\" later ");
    assert_eq!(query.preview_highlight_terms(), vec!["migration  risks later"]);
}

#[test]
fn a_prefix_inside_a_word_or_before_a_space_is_plain_text() {
    let query = SearchQuery::parse("subtitle:x");
    assert_eq!(query.preview_highlight_terms(), vec!["subtitle:x"]);
    let query = SearchQuery::parse("title: x");
    assert_eq!(query.preview_highlight_terms(), vec!["title: x"]);
}

#[test]
fn every_term_must_match_and_each_looks_where_it_says() {
    let pinned = note("Launch Plan", "Body text", &["Work"], true);
    let unpinned = note("Launch Plan", "Body text", &["Work"], false);
    let query = SearchQuery::parse("is:pinned title:launch tag:WORK body");
    assert!(query.matches(&pinned));
    assert!(!query.matches(&unpinned));
    assert!(!SearchQuery::parse("title:body").matches(&pinned));
    assert!(SearchQuery::parse("work").matches(&pinned));
    assert!(!SearchQuery::parse("tag:wor").matches(&pinned));
}

#[test]
fn text_terms_match_case_insensitively_with_unicode_folding() {
    let n = note("Ärger im Büro", "", &[], false);
    assert!(SearchQuery::parse("ärger").matches(&n));
    assert!(SearchQuery::parse("BÜRO").matches(&n));
    assert!(!SearchQuery::parse("buro").matches(&n));
}

#[test]
fn highlights_every_occurrence_and_merges_overlaps() {
    let terms = vec!["an".to_string(), "nan".to_string()];
    assert_eq!(
        highlight_segments_for_terms("banana", &terms),
        vec![segment("b", false), segment("anan", true), segment("a", false)]
    );
}

#[test]
fn highlights_nothing_for_empty_terms_or_no_match() {
    assert_eq!(
        highlight_segments_for_terms("plain", &Vec::new()),
        vec![segment("plain", false)]
    );
    assert_eq!(
        highlight_segments_for_terms("plain", &vec!["zzz".to_string()]),
        vec![segment("plain", false)]
    );
    assert_eq!(
        highlight_segments_for_terms("", &vec!["a".to_string()]),
        vec![segment("", false)]
    );
}

#[test]
fn highlights_are_case_insensitive_and_keep_the_original_text() {
    assert_eq!(
        highlight_segments_for_terms("Rust and RUST", &vec!["rust".to_string()]),
        vec![
            segment("Rust", true),
            segment(" and ", false),
            segment("RUST", true),
        ]
    );
}

#[test]
fn snippet_context_is_two_dozen_characters() {
    assert_eq!(MATCH_SNIPPET_CONTEXT_CHARS, 24);
}

#[test]
fn a_scoped_prefix_followed_by_a_space_is_searched_as_text() {
    let query = SearchQuery::parse("title: ");
    assert_eq!(query.title_highlight_terms(), vec!["title:"]);
    assert!(query.matches(&note("Subtitle: draft", "", &[], false)));
}

#[test]
fn preview_terms_are_title_terms_without_title_values() {
    let q = SearchQuery::parse("alpha is:pinned beta");
    assert_eq!(q.preview_highlight_terms(), vec!["alpha".to_string(), "beta".to_string()]);
    assert_eq!(q.title_highlight_terms(), vec!["alpha".to_string(), "beta".to_string()]);
    let q = SearchQuery::parse("title:launch x");
    assert_eq!(q.preview_highlight_terms(), vec!["x".to_string()]);
    assert_eq!(q.title_highlight_terms(), vec!["launch".to_string(), "x".to_string()]);
}
