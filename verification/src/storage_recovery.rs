//! Start-up from stored notes, with recovery when they are corrupt, and safe
//! saving that keeps the last good pair of payloads as the previous snapshot.
//!
//! The stored JSON is read where the storage is; this module takes each
//! stored payload together with the outcome of reading it.
use vstd::prelude::*;
use crate::model::{Note, NoteView, notes_view};

verus! {

broadcast use vstd::string::group_string_axioms;

/// A stored notes payload and what reading it gave.
#[derive(Debug, Clone, PartialEq, Eq)]
pub enum NotesPayload {
    /// Nothing is stored.
    Absent,
    /// The stored JSON reads as these notes.
    Valid { json: String, notes: Vec<Note> },
    /// The stored JSON does not read as notes.
    Invalid { json: String },
}

/// A JSON text about to be stored, and whether it reads as notes.
#[derive(Debug, Clone, PartialEq, Eq)]
pub struct CheckedJson {
    pub json: String,
    pub valid: bool,
}

/// The stored notes payloads as raw text.
#[derive(Debug, Clone, PartialEq, Eq)]
pub struct StoredCollectionPayload {
    pub notes_json: Option<String>,
    pub recently_deleted_notes_json: Option<String>,
}

/// The last known-good pair of collections.
#[derive(Debug, Clone, PartialEq, Eq)]
pub struct PreviousSnapshot {
    pub notes: Vec<Note>,
    pub recently_deleted_notes: Vec<Note>,
}

/// What recovery shows: the corrupt payloads, kept aside, and the previous
/// snapshot when there is a good one.
#[derive(Debug, Clone, PartialEq, Eq)]
pub struct StorageRecoveryState {
    pub corrupt_notes_json: Option<String>,
    pub corrupt_recently_deleted_notes_json: Option<String>,
    pub previous_snapshot: Option<PreviousSnapshot>,
}

/// How the app starts: with collections, or in recovery.
#[derive(Debug, Clone, PartialEq, Eq)]
pub enum CollectionStartup {
    Ready { notes: Vec<Note>, recently_deleted_notes: Vec<Note> },
    Recovery(StorageRecoveryState),
}

/// What a save writes: the next payloads, and the current ones to keep as
/// the previous snapshot when they are good.
#[derive(Debug, Clone, PartialEq, Eq)]
pub struct CollectionSavePlan {
    pub next_notes_json: String,
    pub next_recently_deleted_notes_json: String,
    pub previous_notes_json: Option<String>,
    pub previous_recently_deleted_notes_json: Option<String>,
}

/// Why a save was refused.
#[derive(Debug, Clone, Copy, PartialEq, Eq, Structural)]
pub enum StorageRecoveryError {
    InvalidNextNotes,
    InvalidNextRecentlyDeletedNotes,
}

/// A payload as mathematical values: 0 absent, 1 valid, 2 invalid, with its
/// text and notes.
pub open spec fn payload_kind(p: NotesPayload) -> int {
    match p {
        NotesPayload::Absent => 0,
        NotesPayload::Valid { .. } => 1,
        NotesPayload::Invalid { .. } => 2,
    }
}

/// The JSON of a payload that is present.
pub open spec fn payload_json(p: NotesPayload) -> Option<Seq<char>> {
    match p {
        NotesPayload::Absent => None,
        NotesPayload::Valid { json, .. } => Some(json@),
        NotesPayload::Invalid { json } => Some(json@),
    }
}

/// The notes of a valid payload.
pub open spec fn payload_notes(p: NotesPayload) -> Option<Seq<NoteView>> {
    match p {
        NotesPayload::Valid { notes, .. } => Some(notes_view(notes@)),
        _ => None,
    }
}

pub open spec fn opt_string_view(o: Option<String>) -> Option<Seq<char>> {
    match o {
        Some(s) => Some(s@),
        None => None,
    }
}

/// The JSON of an invalid payload, kept for quarantine.
pub open spec fn corrupt_json(p: NotesPayload) -> Option<Seq<char>> {
    if payload_kind(p) == 2 {
        payload_json(p)
    } else {
        None
    }
}

/// The start-up decision, as views: in recovery (with the corrupt texts and
/// whether and which previous snapshot exists), or ready with collections.
pub open spec fn startup_holds(
    current_notes: NotesPayload,
    current_deleted: NotesPayload,
    previous_notes: NotesPayload,
    previous_deleted: NotesPayload,
    starter_notes: Seq<NoteView>,
    r: CollectionStartup,
) -> bool {
    if payload_kind(current_notes) == 2 || payload_kind(current_deleted) == 2 {
        match r {
            CollectionStartup::Recovery(s) => {
                &&& opt_string_view(s.corrupt_notes_json) == corrupt_json(current_notes)
                &&& opt_string_view(s.corrupt_recently_deleted_notes_json) == corrupt_json(
                    current_deleted,
                )
                &&& match (payload_notes(previous_notes), payload_notes(previous_deleted)) {
                    (Some(n), Some(d)) => s.previous_snapshot matches Some(p) && notes_view(
                        p.notes@,
                    ) == n && notes_view(p.recently_deleted_notes@) == d,
                    _ => s.previous_snapshot is None,
                }
            },
            _ => false,
        }
    } else {
        match r {
            CollectionStartup::Ready { notes, recently_deleted_notes } => {
                &&& notes_view(notes@) == match payload_notes(current_notes) {
                    Some(n) => n,
                    None => starter_notes,
                }
                &&& notes_view(recently_deleted_notes@) == match payload_notes(current_deleted) {
                    Some(d) => d,
                    None => Seq::<NoteView>::empty(),
                }
            },
            _ => false,
        }
    }
}

fn json_of_invalid(p: &NotesPayload) -> (r: Option<String>)
    ensures
        opt_string_view(r) == corrupt_json(*p),
{
    match p {
        NotesPayload::Invalid { json } => Some(json.clone()),
        _ => None,
    }
}

fn notes_of(p: NotesPayload) -> (r: Option<Vec<Note>>)
    ensures
        match r {
            Some(n) => payload_notes(p) == Some(notes_view(n@)),
            None => payload_notes(p) is None,
        },
{
    match p {
        NotesPayload::Valid { notes, .. } => Some(notes),
        _ => None,
    }
}

/// Starts from the stored payloads: recovery when a current payload is
/// corrupt (keeping the corrupt texts and offering the previous snapshot
/// when both of its payloads are good), otherwise the stored collections, or
/// the starter notes when no notes are stored.
pub fn decide_collection_startup(
    current_notes: NotesPayload,
    current_deleted: NotesPayload,
    previous_notes: NotesPayload,
    previous_deleted: NotesPayload,
    starter_notes: Vec<Note>,
) -> (r: CollectionStartup)
    ensures
        startup_holds(
            current_notes,
            current_deleted,
            previous_notes,
            previous_deleted,
            notes_view(starter_notes@),
            r,
        ),
{
    let notes_corrupt = match &current_notes {
        NotesPayload::Invalid { .. } => true,
        _ => false,
    };
    let deleted_corrupt = match &current_deleted {
        NotesPayload::Invalid { .. } => true,
        _ => false,
    };
    if notes_corrupt || deleted_corrupt {
        let corrupt_notes_json = json_of_invalid(&current_notes);
        let corrupt_recently_deleted_notes_json = json_of_invalid(&current_deleted);
        let previous_snapshot = match (notes_of(previous_notes), notes_of(previous_deleted)) {
            (Some(notes), Some(recently_deleted_notes)) => Some(
                PreviousSnapshot { notes, recently_deleted_notes },
            ),
            _ => None,
        };
        return CollectionStartup::Recovery(
            StorageRecoveryState {
                corrupt_notes_json,
                corrupt_recently_deleted_notes_json,
                previous_snapshot,
            },
        );
    }
    let notes = match notes_of(current_notes) {
        Some(n) => n,
        None => starter_notes,
    };
    let recently_deleted_notes = match notes_of(current_deleted) {
        Some(d) => d,
        None => {
            let empty: Vec<Note> = Vec::new();
            assert(notes_view(empty@) =~= Seq::<NoteView>::empty());
            empty
        },
    };
    CollectionStartup::Ready { notes, recently_deleted_notes }
}

/// The JSON of a valid payload.
pub open spec fn valid_json(p: NotesPayload) -> Option<Seq<char>> {
    if payload_kind(p) == 1 {
        payload_json(p)
    } else {
        None
    }
}

/// The save decision, as views: refused when a next payload is invalid (the
/// notes first), otherwise the next payloads, with the current valid ones
/// kept as the previous snapshot (an empty list standing in for a recently
/// deleted payload that is not valid when the notes one is).
pub open spec fn save_plan_holds(
    current_notes: NotesPayload,
    current_deleted: NotesPayload,
    next_notes: CheckedJson,
    next_deleted: CheckedJson,
    r: Result<CollectionSavePlan, StorageRecoveryError>,
) -> bool {
    if !next_notes.valid {
        r == Err::<CollectionSavePlan, StorageRecoveryError>(
            StorageRecoveryError::InvalidNextNotes,
        )
    } else if !next_deleted.valid {
        r == Err::<CollectionSavePlan, StorageRecoveryError>(
            StorageRecoveryError::InvalidNextRecentlyDeletedNotes,
        )
    } else {
        match r {
            Ok(plan) => {
                &&& plan.next_notes_json@ == next_notes.json@
                &&& plan.next_recently_deleted_notes_json@ == next_deleted.json@
                &&& opt_string_view(plan.previous_notes_json) == valid_json(current_notes)
                &&& opt_string_view(plan.previous_recently_deleted_notes_json) == match valid_json(
                    current_deleted,
                ) {
                    Some(j) => Some(j),
                    None => if valid_json(current_notes) is Some {
                        Some("[]"@)
                    } else {
                        None
                    },
                }
            },
            Err(_) => false,
        }
    }
}

fn json_of_valid(p: &NotesPayload) -> (r: Option<String>)
    ensures
        opt_string_view(r) == valid_json(*p),
{
    match p {
        NotesPayload::Valid { json, .. } => Some(json.clone()),
        _ => None,
    }
}

/// Plans a save of the next payloads, refusing one that does not read as
/// notes, and keeping the current good payloads as the previous snapshot.
pub fn plan_collection_save_from_json(
    current_notes: &NotesPayload,
    current_deleted: &NotesPayload,
    next_notes: CheckedJson,
    next_deleted: CheckedJson,
) -> (r: Result<CollectionSavePlan, StorageRecoveryError>)
    ensures
        save_plan_holds(*current_notes, *current_deleted, next_notes, next_deleted, r),
{
    if !next_notes.valid {
        return Err(StorageRecoveryError::InvalidNextNotes);
    }
    if !next_deleted.valid {
        return Err(StorageRecoveryError::InvalidNextRecentlyDeletedNotes);
    }
    let previous_notes_json = json_of_valid(current_notes);
    let previous_recently_deleted_notes_json = match json_of_valid(current_deleted) {
        Some(j) => Some(j),
        None => if previous_notes_json.is_some() {
            Some(String::from_str("[]"))
        } else {
            None
        },
    };
    Ok(
        CollectionSavePlan {
            next_notes_json: next_notes.json,
            next_recently_deleted_notes_json: next_deleted.json,
            previous_notes_json,
            previous_recently_deleted_notes_json,
        },
    )
}

/// A save after a good current notes payload always keeps it, with a
/// recently-deleted payload beside it, as the previous snapshot.
pub proof fn lemma_save_keeps_good_current(
    current_notes: NotesPayload,
    current_deleted: NotesPayload,
    next_notes: CheckedJson,
    next_deleted: CheckedJson,
    r: Result<CollectionSavePlan, StorageRecoveryError>,
)
    requires
        payload_kind(current_notes) == 1,
        next_notes.valid,
        next_deleted.valid,
        save_plan_holds(current_notes, current_deleted, next_notes, next_deleted, r),
    ensures
        r matches Ok(plan) && opt_string_view(plan.previous_notes_json) == payload_json(
            current_notes,
        ) && plan.previous_recently_deleted_notes_json is Some,
{
}

/// Whether corrupt payloads were kept aside: either quarantine holds one.
pub fn has_quarantined_payloads(
    quarantined_notes_json: &Option<String>,
    quarantined_recently_deleted_notes_json: &Option<String>,
) -> (r: bool)
    ensures
        r == (quarantined_notes_json is Some || quarantined_recently_deleted_notes_json is Some),
{
    quarantined_notes_json.is_some() || quarantined_recently_deleted_notes_json.is_some()
}

} // verus!
