use nota_core::model::Note;
use nota_core::tag_rules::{
    TagCleanupChange, TagSuggestion, apply_tag_cleanup_plan, collect_note_tags, fold_case,
    normalize_tags, normalize_tags_for_update, note_has_active_tag, parse_tags_input,
    plan_collection_tag_cleanup, remove_tag, suggest_existing_tags, tags_equal, tags_to_input,
};

fn clock() -> nota_core::model::Timestamp {
    let t = chrono::Utc::now();
    nota_core::model::Timestamp::from_parts(t.timestamp(), t.timestamp_subsec_nanos()).unwrap()
}


#[test]
fn parses_display_tags_from_comma_separated_input() {
    let tags = parse_tags_input(" work, rust,work, , Product ");

    assert_eq!(
        tags,
        vec![
            "work".to_string(),
            "rust".to_string(),
            "Product".to_string()
        ]
    );
    assert_eq!(tags_to_input(&tags), "work, rust, Product");
}

#[test]
fn matches_tags_case_insensitively() {
    assert!(tags_equal(" Work ", "work"));
    assert!(fold_case("Project").contains(&fold_case("pro")));
    assert!(!tags_equal("Work", "Personal"));
}

#[test]
fn collects_unique_sorted_tags_from_notes() {
    let mut first = Note::new("One".to_string(), String::new(), clock());
    first.tags = vec!["Rust".to_string(), "work".to_string()];
    let mut second = Note::new("Two".to_string(), String::new(), clock());
    second.tags = vec!["rust".to_string(), "Personal".to_string(), " ".to_string()];

    assert_eq!(
        collect_note_tags(&[first, second]),
        vec![
            "Personal".to_string(),
            "Rust".to_string(),
            "work".to_string()
        ]
    );
}

#[test]
fn suggests_collection_tags_for_the_current_entry_without_blocking_free_form_tags() {
    let mut selected = Note::new("Selected".to_string(), String::new(), clock());
    selected.tags = vec!["Work".to_string()];
    let mut other = Note::new("Other".to_string(), String::new(), clock());
    other.tags = vec![
        "Research".to_string(),
        "rust".to_string(),
        "Work".to_string(),
        "Roadmap".to_string(),
    ];

    let suggestions =
        suggest_existing_tags(&[selected.clone(), other], Some(&selected), "Plan, r");

    assert_eq!(
        suggestions,
        vec![
            TagSuggestion {
                label: "Research".to_string(),
                completed_input: "Plan, Research".to_string(),
            },
            TagSuggestion {
                label: "Roadmap".to_string(),
                completed_input: "Plan, Roadmap".to_string(),
            },
            TagSuggestion {
                label: "rust".to_string(),
                completed_input: "Plan, rust".to_string(),
            },
        ]
    );
}

#[test]
fn plans_collection_tag_cleanup_without_mutating_notes() {
    let mut first = Note::new("First".to_string(), String::new(), clock());
    first.tags = vec![
        " Rust ".to_string(),
        "rust".to_string(),
        "".to_string(),
        "Work".to_string(),
    ];
    let mut second = Note::new("Second".to_string(), String::new(), clock());
    second.tags = vec![
        "rust".to_string(),
        " personal ".to_string(),
        "PERSONAL".to_string(),
    ];
    let mut clean = Note::new("Clean".to_string(), String::new(), clock());
    clean.tags = vec!["Reference".to_string()];
    let notes = vec![first.clone(), second.clone(), clean];

    let plan = plan_collection_tag_cleanup(&notes);

    assert_eq!(
        plan.changes,
        vec![
            TagCleanupChange {
                note_id: first.id,
                before: vec![
                    " Rust ".to_string(),
                    "rust".to_string(),
                    "".to_string(),
                    "Work".to_string(),
                ],
                after: vec!["Rust".to_string(), "Work".to_string()],
            },
            TagCleanupChange {
                note_id: second.id,
                before: vec![
                    "rust".to_string(),
                    " personal ".to_string(),
                    "PERSONAL".to_string(),
                ],
                after: vec!["Rust".to_string(), "personal".to_string()],
            },
        ]
    );
    assert_eq!(notes[0].tags, first.tags);
    assert_eq!(notes[1].tags, second.tags);
}

#[test]
fn cleanup_plan_apply_is_conservative_about_changed_notes() {
    let mut first = Note::new("First".to_string(), String::new(), clock());
    first.tags = vec![" Work ".to_string(), "work".to_string()];
    let mut second = Note::new("Second".to_string(), String::new(), clock());
    second.tags = vec!["Work".to_string()];
    let mut notes = vec![first.clone(), second.clone()];
    let plan = plan_collection_tag_cleanup(&notes);

    notes[0].tags = vec!["User changed".to_string()];

    assert!(!plan.is_empty());
    assert!(apply_tag_cleanup_plan(&mut notes, &plan).is_empty());
    assert_eq!(notes[0].tags, vec!["User changed".to_string()]);
    assert_eq!(notes[1].tags, vec!["Work".to_string()]);
}

#[test]
fn applying_a_cleanup_plan_leaves_nothing_to_clean() {
    let mut first = Note::new("First".to_string(), String::new(), clock());
    first.tags = vec![" Work ".to_string(), "work".to_string()];
    let mut notes = vec![first.clone()];
    let plan = plan_collection_tag_cleanup(&notes);
    assert_eq!(apply_tag_cleanup_plan(&mut notes, &plan), vec![first.id]);
    assert_eq!(notes[0].tags, vec!["Work".to_string()]);
    assert!(plan_collection_tag_cleanup(&notes).is_empty());
}

#[test]
fn normalising_twice_changes_nothing() {
    let once = normalize_tags(vec![" A ".to_string(), "a".to_string(), "B".to_string(), "".to_string()]);
    assert_eq!(once, vec!["A".to_string(), "B".to_string()]);
    assert_eq!(normalize_tags(once.clone()), once);
}

#[test]
fn tag_entry_keeps_the_spelling_already_on_the_note() {
    let existing = vec!["Work".to_string()];
    assert_eq!(
        normalize_tags_for_update(&existing, vec![" work ".to_string(), "Rust".to_string(), "rust".to_string()]),
        vec!["Work".to_string(), "Rust".to_string()]
    );
}

#[test]
fn removing_a_tag_ignores_case_and_spaces() {
    let tags = vec!["Work".to_string(), "Rust".to_string()];
    assert_eq!(remove_tag(&tags, " work "), vec!["Rust".to_string()]);
    assert_eq!(remove_tag(&tags, "missing"), tags);
}

#[test]
fn active_tag_matching_ignores_case() {
    let mut note = Note::new(String::new(), String::new(), clock());
    note.tags = vec!["Work".to_string()];
    assert!(note_has_active_tag(&note, "WORK"));
    assert!(!note_has_active_tag(&note, "Personal"));
}

#[test]
fn folding_lowers_non_ascii_text_too() {
    assert_eq!(fold_case("ÄBC"), "äbc");
    assert_eq!(fold_case("MiXeD"), "mixed");
}

#[test]
fn tag_entry_text_parses_back_to_the_same_tags() {
    let tags = vec!["work".to_string(), "rust".to_string(), "Product".to_string()];
    let entry = nota_core::tag_rules::tags_to_input(&tags);
    assert_eq!(entry, "work, rust, Product");
    assert_eq!(nota_core::tag_rules::parse_tags_input(&entry), tags);
    let none: Vec<String> = Vec::new();
    assert_eq!(
        nota_core::tag_rules::parse_tags_input(&nota_core::tag_rules::tags_to_input(&none)),
        none
    );
}
