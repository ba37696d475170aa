use chrono::{TimeZone, Utc};
use nota_core::backup::{
    assess_backup_health, backup_file_name, backup_health_summary, backup_of, import_flat_collection_backup,
    preview_flat_collection_backup, validate_backup, BackupError, BackupHealth,
    BackupHealthRecord, FlatCollectionBackup, BACKUP_KIND, BACKUP_VERSION,
};
use nota_core::model::{Note, Timestamp};

fn clock() -> nota_core::model::Timestamp {
    let t = chrono::Utc::now();
    nota_core::model::Timestamp::from_parts(t.timestamp(), t.timestamp_subsec_nanos()).unwrap()
}


fn at(year: i32, month: u32, day: u32, hour: u32, minute: u32, second: u32) -> Timestamp {
    let instant = Utc
        .with_ymd_and_hms(year, month, day, hour, minute, second)
        .unwrap();
    Timestamp::from_parts(instant.timestamp(), 0).unwrap()
}

fn days_before(t: Timestamp, days: i64) -> Timestamp {
    t.plus_seconds(-days * 86_400).unwrap()
}

fn note_with_fields() -> Note {
    Note {
        id: 0x11111111_1111_1111_1111_111111111111,
        title: "Release notes".to_string(),
        content: "# Shipped\n\n- Backup export".to_string(),
        tags: vec!["work".to_string(), "release".to_string()],
        is_pinned: true,
        created: at(2026, 4, 1, 9, 30, 0),
        last_modified: at(2026, 4, 2, 10, 45, 0),
    }
}

fn existing_only() -> Note {
    Note {
        id: 0x22222222_2222_2222_2222_222222222222,
        title: "Keep me".to_string(),
        content: "Existing content".to_string(),
        tags: Vec::new(),
        is_pinned: false,
        created: at(2026, 3, 1, 9, 0, 0),
        last_modified: at(2026, 3, 2, 9, 0, 0),
    }
}

fn imported_only() -> Note {
    Note {
        id: 0x33333333_3333_3333_3333_333333333333,
        title: "Imported only".to_string(),
        content: "New imported content".to_string(),
        tags: vec!["new".to_string()],
        is_pinned: false,
        created: at(2026, 5, 1, 9, 0, 0),
        last_modified: at(2026, 5, 2, 9, 0, 0),
    }
}

/// What reading a backup file gives when its text is not a backup.
fn unreadable(text: &str) -> Result<FlatCollectionBackup, serde_json::Error> {
    Err(serde_json::from_str::<serde_json::Value>(text).unwrap_err())
}

/// What reading a backup gives when a note's identity is not a UUID.
fn unreadable_note_id(id: &str) -> Result<FlatCollectionBackup, serde_json::Error> {
    Err(serde_json::from_value::<u128>(serde_json::Value::String(id.to_string())).unwrap_err())
}

fn backup_with(version: u32, kind: &str, notes: Vec<Note>) -> FlatCollectionBackup {
    FlatCollectionBackup {
        version,
        kind: kind.to_string(),
        notes,
    }
}

#[test]
fn backup_filename_identifies_noter_and_the_current_date() {
    let now = at(2026, 5, 6, 9, 30, 0);

    assert_eq!(backup_file_name(now), "noter-backup-2026-05-06.json");
}

fn check_backup_health_distinguishes_missing_recent_and_stale_exports() {
    let now = at(2026, 5, 6, 9, 30, 0);

    assert_eq!(assess_backup_health(None, now), BackupHealth::Missing);

    let recent_record = BackupHealthRecord {
        last_successful_export_at: days_before(now, 3),
    };
    assert_eq!(
        assess_backup_health(Some(recent_record), now),
        BackupHealth::Recent {
            last_successful_export_at: recent_record.last_successful_export_at
        }
    );

    let stale_record = BackupHealthRecord {
        last_successful_export_at: days_before(now, 30),
    };
    assert_eq!(
        assess_backup_health(Some(stale_record), now),
        BackupHealth::Stale {
            last_successful_export_at: stale_record.last_successful_export_at
        }
    );
}

#[test]
fn backup_backup_health_distinguishes_missing_recent_and_stale_exports() {
    check_backup_health_distinguishes_missing_recent_and_stale_exports();
}

#[test]
fn mod_backup_health_distinguishes_missing_recent_and_stale_exports() {
    check_backup_health_distinguishes_missing_recent_and_stale_exports();
}

fn check_imports_into_an_empty_collection_and_preserves_note_fields() {
    let original_note = note_with_fields();
    let backup = backup_of(std::slice::from_ref(&original_note));
    let mut notes = Vec::new();

    let imported = import_flat_collection_backup(&mut notes, Ok(backup)).unwrap();

    assert_eq!(imported.selected_id, Some(original_note.id));
    assert_eq!(notes, vec![original_note]);
}

#[test]
fn backup_imports_into_an_empty_collection_and_preserves_note_fields() {
    check_imports_into_an_empty_collection_and_preserves_note_fields();
}

#[test]
fn mod_imports_into_an_empty_collection_and_preserves_note_fields() {
    check_imports_into_an_empty_collection_and_preserves_note_fields();
}

fn check_merge_import_replaces_same_identity_notes_without_creating_duplicates() {
    let original_note = note_with_fields();
    let mut replacement_note = original_note.clone();
    replacement_note.title = "Imported replacement".to_string();
    replacement_note.content = "Backup content wins".to_string();
    let existing_only = existing_only();
    let imported_only = imported_only();
    let backup = backup_of(&[replacement_note.clone(), imported_only.clone()]);
    let mut notes = vec![original_note, existing_only.clone()];

    let imported = import_flat_collection_backup(&mut notes, Ok(backup)).unwrap();

    assert_eq!(imported.selected_id, Some(replacement_note.id));
    assert_eq!(notes, vec![replacement_note, existing_only, imported_only]);
}

#[test]
fn backup_merge_import_replaces_same_identity_notes_without_creating_duplicates() {
    check_merge_import_replaces_same_identity_notes_without_creating_duplicates();
}

#[test]
fn mod_merge_import_replaces_same_identity_notes_without_creating_duplicates() {
    check_merge_import_replaces_same_identity_notes_without_creating_duplicates();
}

fn check_previews_merge_import_impact_without_mutating_current_notes() {
    let original_note = note_with_fields();
    let mut replacement_note = original_note.clone();
    replacement_note.title = "Imported replacement".to_string();
    let imported_only = imported_only();
    let backup = backup_of(&[replacement_note.clone(), imported_only.clone()]);
    let notes = vec![original_note.clone()];

    let preview = preview_flat_collection_backup(&notes, Ok(backup)).unwrap();

    assert_eq!(preview.notes_to_add, 1);
    assert_eq!(preview.notes_to_replace, 1);
    assert_eq!(preview.total_imported_notes, 2);
    assert_eq!(preview.selected_id, Some(replacement_note.id));
    assert_eq!(notes, vec![original_note]);
}

#[test]
fn backup_previews_merge_import_impact_without_mutating_current_notes() {
    check_previews_merge_import_impact_without_mutating_current_notes();
}

#[test]
fn mod_previews_merge_import_impact_without_mutating_current_notes() {
    check_previews_merge_import_impact_without_mutating_current_notes();
}

fn check_invalid_backups_fail_without_mutating_the_current_collection() {
    let original_notes = vec![note_with_fields()];
    let invalid_cases = vec![
        unreadable("{not valid json"),
        Ok(backup_with(2, "noter.flat_collection", Vec::new())),
        unreadable_note_id("not-a-uuid"),
        Ok(backup_with(
            1,
            "noter.flat_collection",
            vec![note_with_fields(), note_with_fields()],
        )),
    ];

    for invalid_backup in invalid_cases {
        let mut notes = original_notes.clone();

        let result = import_flat_collection_backup(&mut notes, invalid_backup);

        assert!(result.is_err());
        assert_eq!(notes, original_notes);
    }
}

#[test]
fn backup_invalid_backups_fail_without_mutating_the_current_collection() {
    check_invalid_backups_fail_without_mutating_the_current_collection();
}

#[test]
fn mod_invalid_backups_fail_without_mutating_the_current_collection() {
    check_invalid_backups_fail_without_mutating_the_current_collection();
}

#[test]
fn exported_backup_is_versioned_and_keeps_the_notes() {
    let backup = backup_of(&[note_with_fields()]);
    assert_eq!(backup.version, 1);
    assert_eq!(backup.version, BACKUP_VERSION);
    assert_eq!(backup.kind, "noter.flat_collection");
    assert_eq!(backup.kind, BACKUP_KIND);
    assert_eq!(backup.notes, vec![note_with_fields()]);

    let empty = backup_of(&[]);
    assert!(empty.notes.is_empty());
    assert!(validate_backup(&empty).is_ok());
}

#[test]
fn each_validation_error_names_what_was_refused() {
    assert!(matches!(
        validate_backup(&backup_with(2, BACKUP_KIND, Vec::new())),
        Err(BackupError::UnsupportedVersion(2))
    ));
    match validate_backup(&backup_with(1, "nota.flat_collection", Vec::new())) {
        Err(BackupError::UnsupportedKind(kind)) => assert_eq!(kind, "nota.flat_collection"),
        other => panic!("expected an unsupported kind, got {:?}", other),
    }
    let note = note_with_fields();
    assert!(matches!(
        validate_backup(&backup_with(1, BACKUP_KIND, vec![note.clone(), existing_only(), note.clone()])),
        Err(BackupError::DuplicateNoteId(id)) if id == note.id
    ));
    let mut notes = Vec::new();
    assert!(matches!(
        import_flat_collection_backup(&mut notes, unreadable("[")),
        Err(BackupError::Deserialize(_))
    ));
}

#[test]
fn backup_health_is_recent_at_exactly_the_stale_period() {
    let now = at(2026, 5, 6, 9, 30, 0);
    let edge = BackupHealthRecord {
        last_successful_export_at: days_before(now, 14),
    };
    assert_eq!(
        assess_backup_health(Some(edge), now),
        BackupHealth::Recent {
            last_successful_export_at: edge.last_successful_export_at
        }
    );
    let past_edge = BackupHealthRecord {
        last_successful_export_at: days_before(now, 14).plus_seconds(-1).unwrap(),
    };
    assert_eq!(
        assess_backup_health(Some(past_edge), now),
        BackupHealth::Stale {
            last_successful_export_at: past_edge.last_successful_export_at
        }
    );
}

#[test]
fn importing_the_same_backup_twice_adds_nothing_the_second_time() {
    let backup_notes = vec![note_with_fields(), imported_only()];
    let mut notes = vec![existing_only()];
    import_flat_collection_backup(&mut notes, Ok(backup_of(&backup_notes))).unwrap();
    let after_first = notes.clone();
    let preview = preview_flat_collection_backup(&notes, Ok(backup_of(&backup_notes))).unwrap();
    assert_eq!(preview.notes_to_add, 0);
    assert_eq!(preview.notes_to_replace, 2);
    import_flat_collection_backup(&mut notes, Ok(backup_of(&backup_notes))).unwrap();
    assert_eq!(notes, after_first);
}

#[test]
fn backup_health_summary_makes_missing_and_stale_backups_actionable() {
    let now = clock();
    assert_eq!(backup_health_summary(None, now), "No backup yet. Export now");

    let stale_export_at = days_before(now, 15);
    let expected_date = chrono::DateTime::from_timestamp(
        stale_export_at.secs(),
        stale_export_at.subsec_nanos(),
    )
    .unwrap()
    .format("%d/%m/%Y")
    .to_string();
    assert_eq!(
        backup_health_summary(
            Some(BackupHealthRecord {
                last_successful_export_at: stale_export_at,
            }),
            now
        ),
        format!("Backup stale {}. Export now", expected_date)
    );
}

#[test]
fn recent_backups_show_their_date() {
    let now = at(2026, 5, 6, 9, 30, 0);
    let record = BackupHealthRecord {
        last_successful_export_at: days_before(now, 2),
    };
    assert_eq!(backup_health_summary(Some(record), now), "Backed up 04/05/2026");
}
