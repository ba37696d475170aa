use nota_core::model::Note;
use nota_core::storage_recovery::{
    decide_collection_startup, plan_collection_save_from_json, CheckedJson, CollectionStartup,
    NotesPayload, PreviousSnapshot, StorageRecoveryError, StorageRecoveryState,
};

fn clock() -> nota_core::model::Timestamp {
    let t = chrono::Utc::now();
    nota_core::model::Timestamp::from_parts(t.timestamp(), t.timestamp_subsec_nanos()).unwrap()
}


/// A JSON text standing for stored notes; the tests only compare texts.
fn notes_json(notes: &[Note]) -> String {
    let titles = notes
        .iter()
        .map(|note| serde_json::Value::String(note.title.clone()))
        .collect::<Vec<_>>();
    serde_json::Value::Array(titles).to_string()
}

fn stored(notes: &[Note]) -> NotesPayload {
    NotesPayload::Valid {
        json: notes_json(notes),
        notes: notes.to_vec(),
    }
}

fn corrupt(json: &str) -> NotesPayload {
    NotesPayload::Invalid {
        json: json.to_string(),
    }
}

fn checked(json: String, valid: bool) -> CheckedJson {
    CheckedJson { json, valid }
}

#[test]
fn safe_save_preserves_the_current_collection_pair_after_next_payload_validates() {
    let active = Note::new("Active".to_string(), "Current".to_string(), clock());
    let deleted = Note::new("Deleted".to_string(), "Recover".to_string(), clock());
    let next = Note::new("Next".to_string(), "Future".to_string(), clock());
    let current_notes_json = notes_json(std::slice::from_ref(&active));
    let current_deleted_json = notes_json(std::slice::from_ref(&deleted));
    let next_notes_json = notes_json(std::slice::from_ref(&next));
    let next_deleted_json = "[]".to_string();

    let plan = plan_collection_save_from_json(
        &stored(std::slice::from_ref(&active)),
        &stored(std::slice::from_ref(&deleted)),
        checked(next_notes_json.clone(), true),
        checked(next_deleted_json.clone(), true),
    )
    .unwrap();

    assert_eq!(plan.next_notes_json, next_notes_json);
    assert_eq!(plan.next_recently_deleted_notes_json, next_deleted_json);
    assert_eq!(plan.previous_notes_json, Some(current_notes_json));
    assert_eq!(
        plan.previous_recently_deleted_notes_json,
        Some(current_deleted_json)
    );
}

#[test]
fn invalid_next_payload_does_not_create_a_save_plan() {
    let current = Note::new("Current".to_string(), "Safe".to_string(), clock());

    let result = plan_collection_save_from_json(
        &stored(&[current]),
        &stored(&[]),
        checked("{not valid json".to_string(), false),
        checked("[]".to_string(), true),
    );

    assert_eq!(result, Err(StorageRecoveryError::InvalidNextNotes));
}

#[test]
fn corrupt_startup_enters_recovery_with_previous_snapshot_available() {
    let previous_active = Note::new("Previous".to_string(), "Known good".to_string(), clock());
    let previous_deleted = Note::new("Previous deleted".to_string(), "Recover".to_string(), clock());
    let startup = decide_collection_startup(
        corrupt("{not valid json"),
        stored(&[]),
        stored(std::slice::from_ref(&previous_active)),
        stored(std::slice::from_ref(&previous_deleted)),
        Vec::new(),
    );

    assert_eq!(
        startup,
        CollectionStartup::Recovery(StorageRecoveryState {
            corrupt_notes_json: Some("{not valid json".to_string()),
            corrupt_recently_deleted_notes_json: None,
            previous_snapshot: Some(PreviousSnapshot {
                notes: vec![previous_active],
                recently_deleted_notes: vec![previous_deleted],
            }),
        })
    );
}

#[test]
fn invalid_next_recently_deleted_payload_is_refused() {
    let result = plan_collection_save_from_json(
        &NotesPayload::Absent,
        &NotesPayload::Absent,
        checked("[]".to_string(), true),
        checked("oops".to_string(), false),
    );
    assert_eq!(
        result,
        Err(StorageRecoveryError::InvalidNextRecentlyDeletedNotes)
    );
}

#[test]
fn corrupt_current_payloads_are_not_kept_as_the_previous_snapshot() {
    let plan = plan_collection_save_from_json(
        &corrupt("{broken"),
        &stored(&[]),
        checked("[]".to_string(), true),
        checked("[]".to_string(), true),
    )
    .unwrap();
    assert_eq!(plan.previous_notes_json, None);
    assert_eq!(plan.previous_recently_deleted_notes_json, Some("[]".to_string()));
}

#[test]
fn good_notes_without_stored_deleted_notes_keep_an_empty_deleted_list() {
    let active = Note::new("Active".to_string(), String::new(), clock());
    let plan = plan_collection_save_from_json(
        &stored(std::slice::from_ref(&active)),
        &NotesPayload::Absent,
        checked("[]".to_string(), true),
        checked("[]".to_string(), true),
    )
    .unwrap();
    assert_eq!(plan.previous_notes_json, Some(notes_json(&[active])));
    assert_eq!(plan.previous_recently_deleted_notes_json, Some("[]".to_string()));

    let nothing_stored = plan_collection_save_from_json(
        &NotesPayload::Absent,
        &NotesPayload::Absent,
        checked("[]".to_string(), true),
        checked("[]".to_string(), true),
    )
    .unwrap();
    assert_eq!(nothing_stored.previous_notes_json, None);
    assert_eq!(nothing_stored.previous_recently_deleted_notes_json, None);
}

#[test]
fn first_start_uses_the_starter_notes_and_stored_notes_win_later() {
    let starter = Note::new("Welcome".to_string(), String::new(), clock());
    let startup = decide_collection_startup(
        NotesPayload::Absent,
        NotesPayload::Absent,
        NotesPayload::Absent,
        NotesPayload::Absent,
        vec![starter.clone()],
    );
    assert_eq!(
        startup,
        CollectionStartup::Ready {
            notes: vec![starter.clone()],
            recently_deleted_notes: Vec::new(),
        }
    );

    let saved = Note::new("Saved".to_string(), String::new(), clock());
    let startup = decide_collection_startup(
        stored(std::slice::from_ref(&saved)),
        NotesPayload::Absent,
        NotesPayload::Absent,
        NotesPayload::Absent,
        vec![starter],
    );
    assert_eq!(
        startup,
        CollectionStartup::Ready {
            notes: vec![saved],
            recently_deleted_notes: Vec::new(),
        }
    );
}

#[test]
fn recovery_without_a_complete_previous_snapshot_offers_none() {
    let startup = decide_collection_startup(
        stored(&[]),
        corrupt("{deleted"),
        stored(&[]),
        corrupt("{previous deleted"),
        Vec::new(),
    );
    assert_eq!(
        startup,
        CollectionStartup::Recovery(StorageRecoveryState {
            corrupt_notes_json: None,
            corrupt_recently_deleted_notes_json: Some("{deleted".to_string()),
            previous_snapshot: None,
        })
    );
}

#[test]
fn quarantine_holds_payloads_when_either_key_has_one() {
    assert!(!nota_core::storage_recovery::has_quarantined_payloads(&None, &None));
    assert!(nota_core::storage_recovery::has_quarantined_payloads(&Some("{".to_string()), &None));
    assert!(nota_core::storage_recovery::has_quarantined_payloads(&None, &Some("[".to_string())));
}
