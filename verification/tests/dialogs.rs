use nota_core::dialog_copy::{
    about_app_version_label, about_corrupt_payload_status, about_storage_mode_label,
    clear_all_recently_deleted_confirmation_message, delete_confirmation_message,
    should_render_modal_body,
};
use nota_core::shortcuts::{accepts_tag_suggestion, is_quick_capture_shortcut};

#[test]
fn about_labels_expose_release_storage_and_quarantine_state() {
    assert!(about_app_version_label("0.1.0").starts_with("Nota "));
    assert_eq!(about_storage_mode_label(), "Local browser storage");
    assert_eq!(
        about_corrupt_payload_status(true),
        "Corrupt payload quarantined"
    );
    assert_eq!(
        about_corrupt_payload_status(false),
        "No corrupt payload quarantine"
    );
}


#[test]
fn delete_confirmation_copy_matches_recoverable_delete_behavior() {
    assert_eq!(
        delete_confirmation_message("Draft".to_string()),
        "\"Draft\" will move to Recently Deleted."
    );
}

#[test]
fn clear_all_confirmation_copy_names_the_affected_note_count() {
    assert_eq!(
        clear_all_recently_deleted_confirmation_message(1),
        "This will permanently clear 1 recently deleted Note."
    );
    assert_eq!(
        clear_all_recently_deleted_confirmation_message(3),
        "This will permanently clear 3 recently deleted Notes."
    );
}


#[test]
fn modal_can_hide_empty_body_region() {
    assert!(!should_render_modal_body(true));
    assert!(should_render_modal_body(false));
}


#[test]
fn quick_capture_shortcut_uses_primary_modifier_and_plain_n() {
    assert!(is_quick_capture_shortcut("n", true, false, false, false));
    assert!(is_quick_capture_shortcut("N", false, true, false, false));

    assert!(!is_quick_capture_shortcut("n", false, false, false, false));
    assert!(!is_quick_capture_shortcut("n", true, false, true, false));
    assert!(!is_quick_capture_shortcut("n", true, false, false, true));
    assert!(!is_quick_capture_shortcut("m", true, false, false, false));
}

#[test]
fn clear_all_confirmation_counts_in_decimal() {
    assert_eq!(
        clear_all_recently_deleted_confirmation_message(0),
        "This will permanently clear 0 recently deleted Notes."
    );
    assert_eq!(
        clear_all_recently_deleted_confirmation_message(120),
        "This will permanently clear 120 recently deleted Notes."
    );
    assert_eq!(about_app_version_label("2.3.4"), "Nota 2.3.4");
}

#[test]
fn quick_capture_needs_exactly_one_key() {
    assert!(!is_quick_capture_shortcut("nn", true, false, false, false));
    assert!(!is_quick_capture_shortcut("", true, false, false, false));
    assert!(is_quick_capture_shortcut("n", true, true, false, false));
}

#[test]
fn tag_entry_accepts_a_suggestion_on_enter_or_tab_only() {
    assert!(accepts_tag_suggestion("Enter"));
    assert!(accepts_tag_suggestion("Tab"));
    assert!(!accepts_tag_suggestion("enter"));
    assert!(!accepts_tag_suggestion(","));
    assert!(!accepts_tag_suggestion(""));
}
