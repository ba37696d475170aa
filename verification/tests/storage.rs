use gloo_storage::errors::StorageError;
use nota_core::backup::BackupHealthRecord;
use nota_core::model::Timestamp;
use nota_core::storage::{
    SaveLifecycle, SaveStatus, dark_mode_from, decide_backup_health_startup,
    document_page_flush_events, optional_preference_value, sidebar_open_from,
    window_page_flush_events,
};

fn clock() -> nota_core::model::Timestamp {
    let t = chrono::Utc::now();
    nota_core::model::Timestamp::from_parts(t.timestamp(), t.timestamp_subsec_nanos()).unwrap()
}


const DARK_MODE_KEY: &str = "noter-dark-mode";

fn unreadable_json(text: &str) -> serde_json::Error {
    serde_json::from_str::<serde_json::Value>(text).unwrap_err()
}

#[test]
fn save_lifecycle_tracks_pending_debounced_save_and_flush() {
    let mut lifecycle = SaveLifecycle::default();

    assert_eq!(lifecycle.status(), SaveStatus::Saved);
    assert_eq!(lifecycle.note_changed(), SaveStatus::Saving);
    assert_eq!(lifecycle.flush_pending(), Some(SaveStatus::Saved));
    assert_eq!(lifecycle.flush_pending(), None);
}

#[test]
fn save_lifecycle_reports_debounce_completion_as_saved() {
    let mut lifecycle = SaveLifecycle::default();

    assert_eq!(lifecycle.note_changed(), SaveStatus::Saving);
    assert_eq!(lifecycle.save_completed(), SaveStatus::Saved);
    assert_eq!(lifecycle.flush_pending(), None);
}

#[test]
fn page_lifecycle_flush_uses_visibility_and_unload_events() {
    assert_eq!(document_page_flush_events(), vec!["visibilitychange"]);
    assert_eq!(window_page_flush_events(), vec!["pagehide", "beforeunload"]);
}

#[test]
fn status_shows_saving_until_the_save_completes() {
    let mut lifecycle = SaveLifecycle::default();
    lifecycle.note_changed();
    assert_eq!(lifecycle.status(), SaveStatus::Saving);
    lifecycle.note_changed();
    assert_eq!(lifecycle.status(), SaveStatus::Saving);
    lifecycle.save_completed();
    assert_eq!(lifecycle.status(), SaveStatus::Saved);
}

#[test]
fn stored_preferences_fall_back_when_missing_or_unreadable() {
    let unreadable = || Err(StorageError::SerdeError(unreadable_json("x")));
    assert!(dark_mode_from(&Ok(Some(true)), false));
    assert!(!dark_mode_from(&Ok(Some(false)), true));
    assert!(dark_mode_from(&Ok(None), true));
    assert!(!dark_mode_from(&unreadable(), false));
    assert!(!sidebar_open_from(&Ok(Some(false))));
    assert!(sidebar_open_from(&Ok(None)));
    assert!(sidebar_open_from(&unreadable()));
}

#[test]
fn backup_health_startup_treats_missing_or_malformed_storage_as_absent() {
    let record = BackupHealthRecord {
        last_successful_export_at: clock(),
    };

    assert_eq!(decide_backup_health_startup(None), None);
    assert_eq!(decide_backup_health_startup(Some(Ok(record))), Some(record));
    assert_eq!(
        decide_backup_health_startup(Some(Err(unreadable_json("{not valid json")))),
        None
    );
}

#[test]
fn missing_optional_preference_is_not_a_storage_failure() {
    let result = optional_preference_value::<bool>(Err(StorageError::KeyNotFound(
        DARK_MODE_KEY.to_string(),
    )));

    assert!(matches!(result, Ok(None)));
}

#[test]
fn malformed_optional_preference_stays_a_storage_failure() {
    let serde_error = serde_json::from_str::<bool>("not-json").unwrap_err();
    let result = optional_preference_value::<bool>(Err(StorageError::SerdeError(serde_error)));

    assert!(matches!(result, Err(StorageError::SerdeError(_))));
}

#[test]
fn a_stored_preference_is_returned_as_it_is() {
    assert!(matches!(optional_preference_value(Ok(false)), Ok(Some(false))));
    assert!(matches!(optional_preference_value(Ok(true)), Ok(Some(true))));
}
