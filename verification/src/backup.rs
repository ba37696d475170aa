//! Flat-collection backups: what an export holds, checking a read backup,
//! previewing and merging an import, and how fresh the last export is.
//!
//! Reading and writing the JSON text is done where the files are; this
//! module takes the read backup, or the reading error, as a value.
use vstd::prelude::*;
use crate::model::{Note, NoteView, Timestamp, index_of_id, notes_view, utc_format};
use crate::text::str_equal;

verus! {

broadcast use vstd::string::group_string_axioms;

/// The format version written and accepted.
pub const BACKUP_VERSION: u32 = 1;

/// The format identifier written and accepted.
pub const BACKUP_KIND: &'static str = "noter.flat_collection";

/// An export older than this many days is stale.
pub const BACKUP_HEALTH_STALE_AFTER_DAYS: i64 = 14;

#[verifier::external_type_specification]
#[verifier::external_body]
pub struct ExJsonError(serde_json::Error);

/// A backup file: its version, its kind and the notes.
#[derive(Debug, Clone, PartialEq, Eq)]
pub struct FlatCollectionBackup {
    pub version: u32,
    pub kind: String,
    pub notes: Vec<Note>,
}

/// Why a backup could not be written or read.
#[derive(Debug)]
pub enum BackupError {
    Deserialize(serde_json::Error),
    Serialize(serde_json::Error),
    UnsupportedVersion(u32),
    UnsupportedKind(String),
    DuplicateNoteId(u128),
}

/// The backup that an export of the notes writes.
pub fn backup_of(notes: &[Note]) -> (r: FlatCollectionBackup)
    ensures
        r.version == BACKUP_VERSION,
        r.kind@ == BACKUP_KIND@,
        notes_view(r.notes@) == notes_view(notes@),
{
    let copy = crate::model::copy_notes(notes);
    FlatCollectionBackup { version: BACKUP_VERSION, kind: String::from_str(BACKUP_KIND), notes: copy }
}

/// The name of a backup file exported at `now`: `noter-backup-YYYY-MM-DD.json`.
pub fn backup_file_name(now: Timestamp) -> (r: String)
    ensures
        r@ == "noter-backup-"@ + utc_format(now.spec_secs(), now.spec_nanos(), "%Y-%m-%d"@)
            + ".json"@,
{
    let date = now.format_date("%Y-%m-%d");
    let mut r = String::from_str("noter-backup-");
    r.append(date.as_str());
    r.append(".json");
    r
}

// ---------------------------------------------------------------------------
// Backup health
// ---------------------------------------------------------------------------

/// When the last export succeeded.
#[derive(Debug, Clone, Copy, PartialEq, Eq, Structural)]
pub struct BackupHealthRecord {
    pub last_successful_export_at: Timestamp,
}

/// Whether there is an export, and whether it is recent.
#[derive(Debug, Clone, Copy, PartialEq, Eq, Structural)]
pub enum BackupHealth {
    Missing,
    Recent { last_successful_export_at: Timestamp },
    Stale { last_successful_export_at: Timestamp },
}

/// Strictly more than the stale period lies between the two instants.
pub open spec fn older_than_stale_period(last: Timestamp, now: Timestamp) -> bool {
    (now.spec_secs() - last.spec_secs()) * 1_000_000_000 + (now.spec_nanos() - last.spec_nanos())
        > BACKUP_HEALTH_STALE_AFTER_DAYS * 86_400 * 1_000_000_000
}

/// The health of the backups at `now`.
pub open spec fn backup_health(record: Option<BackupHealthRecord>, now: Timestamp) -> BackupHealth {
    match record {
        None => BackupHealth::Missing,
        Some(r) => if older_than_stale_period(r.last_successful_export_at, now) {
            BackupHealth::Stale { last_successful_export_at: r.last_successful_export_at }
        } else {
            BackupHealth::Recent { last_successful_export_at: r.last_successful_export_at }
        },
    }
}

/// Missing without a record; stale when the last export is more than the
/// stale period before `now`; recent otherwise.
pub fn assess_backup_health(record: Option<BackupHealthRecord>, now: Timestamp) -> (r: BackupHealth)
    ensures
        r == backup_health(record, now),
{
    match record {
        None => BackupHealth::Missing,
        Some(rec) => {
            let last = rec.last_successful_export_at;
            let ds: i128 = now.secs() as i128 - last.secs() as i128;
            let dn: i128 = now.subsec_nanos() as i128 - last.subsec_nanos() as i128;
            let elapsed: i128 = ds * 1_000_000_000 + dn;
            let limit: i128 = BACKUP_HEALTH_STALE_AFTER_DAYS as i128 * 86_400 * 1_000_000_000;
            if elapsed > limit {
                BackupHealth::Stale { last_successful_export_at: last }
            } else {
                BackupHealth::Recent { last_successful_export_at: last }
            }
        },
    }
}

/// The date of an instant as the backup footer shows it.
pub open spec fn footer_date(t: Timestamp) -> Seq<char> {
    utc_format(t.spec_secs(), t.spec_nanos(), "%d/%m/%Y"@)
}

/// What the backup footer says at `now`: that there is no backup yet, the
/// date of a recent one, or that the last one is stale; both of the first
/// and last ask for an export.
pub fn backup_health_summary(record: Option<BackupHealthRecord>, now: Timestamp) -> (r: String)
    ensures
        r@ == match backup_health(record, now) {
            BackupHealth::Missing => "No backup yet. Export now"@,
            BackupHealth::Recent { last_successful_export_at } => "Backed up "@ + footer_date(
                last_successful_export_at,
            ),
            BackupHealth::Stale { last_successful_export_at } => "Backup stale "@ + footer_date(
                last_successful_export_at,
            ) + ". Export now"@,
        },
{
    match assess_backup_health(record, now) {
        BackupHealth::Missing => String::from_str("No backup yet. Export now"),
        BackupHealth::Recent { last_successful_export_at } => {
            let date = last_successful_export_at.format_date("%d/%m/%Y");
            let mut r = String::from_str("Backed up ");
            r.append(date.as_str());
            r
        },
        BackupHealth::Stale { last_successful_export_at } => {
            let date = last_successful_export_at.format_date("%d/%m/%Y");
            let mut r = String::from_str("Backup stale ");
            r.append(date.as_str());
            r.append(". Export now");
            r
        },
    }
}

// ---------------------------------------------------------------------------
// Checking a backup
// ---------------------------------------------------------------------------

/// The note at `k` has the identifier of an earlier note.
pub open spec fn repeats_earlier(notes: Seq<NoteView>, k: int) -> bool {
    exists|j: int| 0 <= j < k && (#[trigger] notes[j]).id == notes[k].id
}

/// The first position, from `k`, of a note whose identifier repeats an
/// earlier one.
pub open spec fn first_repeat_from(notes: Seq<NoteView>, k: int) -> Option<int>
    decreases notes.len() - k,
{
    if k < 0 || k >= notes.len() {
        None
    } else if repeats_earlier(notes, k) {
        Some(k)
    } else {
        first_repeat_from(notes, k + 1)
    }
}

/// The first note whose identifier repeats an earlier one.
pub open spec fn first_repeat(notes: Seq<NoteView>) -> Option<int> {
    first_repeat_from(notes, 0)
}

/// No two notes share an identifier.
pub open spec fn unique_ids(notes: Seq<NoteView>) -> bool {
    forall|i: int, j: int| 0 <= i < j < notes.len() ==> notes[i].id != notes[j].id
}

pub proof fn lemma_first_repeat_from(notes: Seq<NoteView>, k: int)
    requires
        0 <= k <= notes.len(),
    ensures
        first_repeat_from(notes, k) matches Some(i) ==> k <= i < notes.len() && repeats_earlier(
            notes,
            i,
        ),
        first_repeat_from(notes, k) is None ==> forall|i: int|
            k <= i < notes.len() ==> !repeats_earlier(notes, i),
    decreases notes.len() - k,
{
    if k < notes.len() && !repeats_earlier(notes, k) {
        lemma_first_repeat_from(notes, k + 1);
    }
}

/// A backup's notes have no repeated identifier exactly when their
/// identities are distinct, so validation refuses exactly the backups that
/// name one note twice.
pub proof fn lemma_no_repeat_iff_unique(notes: Seq<NoteView>)
    ensures
        first_repeat(notes) is None <==> unique_ids(notes),
{
    lemma_first_repeat_from(notes, 0);
    if first_repeat(notes) is None {
        assert forall|i: int, j: int| 0 <= i < j < notes.len() implies notes[i].id != notes[j].id by {
            assert(!repeats_earlier(notes, j));
        }
    }
    if unique_ids(notes) {
        lemma_unique_no_repeat(notes, 0);
    }
}

/// Whether a read backup is accepted: the version, then the kind, then the
/// first repeated identifier decide the error.
pub open spec fn check_outcome(backup: FlatCollectionBackup, r: Result<(), BackupError>) -> bool {
    match r {
        Ok(()) => backup.version == BACKUP_VERSION && backup.kind@ == BACKUP_KIND@ && first_repeat(
            notes_view(backup.notes@),
        ) is None,
        Err(BackupError::UnsupportedVersion(v)) => backup.version != BACKUP_VERSION && v
            == backup.version,
        Err(BackupError::UnsupportedKind(k)) => backup.version == BACKUP_VERSION && backup.kind@
            != BACKUP_KIND@ && k@ == backup.kind@,
        Err(BackupError::DuplicateNoteId(id)) => backup.version == BACKUP_VERSION && backup.kind@
            == BACKUP_KIND@ && (match first_repeat(notes_view(backup.notes@)) {
            Some(i) => id == backup.notes@[i].id,
            None => false,
        }),
        Err(_) => false,
    }
}

fn kind_is_supported(kind: &String) -> (r: bool)
    ensures
        r == (kind@ == BACKUP_KIND@),
{
    str_equal(kind.as_str(), BACKUP_KIND)
}

/// Checks the version, the kind and that no identifier repeats.
pub fn validate_backup(backup: &FlatCollectionBackup) -> (r: Result<(), BackupError>)
    ensures
        check_outcome(*backup, r),
{
    if backup.version != BACKUP_VERSION {
        return Err(BackupError::UnsupportedVersion(backup.version));
    }
    if !kind_is_supported(&backup.kind) {
        return Err(BackupError::UnsupportedKind(backup.kind.clone()));
    }
    let ghost nv = notes_view(backup.notes@);
    proof {
        lemma_first_repeat_from(nv, 0);
    }
    let notes = &backup.notes;
    let mut k: usize = 0;
    while k < notes.len()
        invariant
            k <= notes.len(),
            nv == notes_view(notes@),
            nv == notes_view(backup.notes@),
            backup.version == BACKUP_VERSION,
            backup.kind@ == BACKUP_KIND@,
            first_repeat(nv) == first_repeat_from(nv, k as int),
        decreases notes.len() - k,
    {
        let mut j: usize = 0;
        while j < k
            invariant
                j <= k < notes.len(),
                nv == notes_view(notes@),
                nv == notes_view(backup.notes@),
                backup.version == BACKUP_VERSION,
                backup.kind@ == BACKUP_KIND@,
                first_repeat(nv) == first_repeat_from(nv, k as int),
                forall|m: int| 0 <= m < j ==> (#[trigger] nv[m]).id != nv[k as int].id,
            decreases k - j,
        {
            assert(nv[j as int] == notes@[j as int]@);
            assert(nv[k as int] == notes@[k as int]@);
            if notes[j].id == notes[k].id {
                assert(repeats_earlier(nv, k as int));
                assert(first_repeat_from(nv, k as int) == Some(k as int));
                return Err(BackupError::DuplicateNoteId(notes[k].id));
            }
            j += 1;
        }
        assert(!repeats_earlier(nv, k as int));
        k += 1;
    }
    Ok(())
}

/// A read backup, or the reading error, checked.
pub open spec fn read_outcome(
    read: Result<FlatCollectionBackup, serde_json::Error>,
    r: Result<FlatCollectionBackup, BackupError>,
) -> bool {
    match read {
        Err(e) => r == Err::<FlatCollectionBackup, BackupError>(BackupError::Deserialize(e)),
        Ok(b) => match r {
            Ok(c) => c == b && check_outcome(b, Ok(())),
            Err(err) => check_outcome(b, Err(err)),
        },
    }
}

fn checked_backup(read: Result<FlatCollectionBackup, serde_json::Error>) -> (r: Result<
    FlatCollectionBackup,
    BackupError,
>)
    ensures
        read_outcome(read, r),
{
    match read {
        Err(e) => Err(BackupError::Deserialize(e)),
        Ok(b) => match validate_backup(&b) {
            Ok(()) => Ok(b),
            Err(err) => Err(err),
        },
    }
}

// ---------------------------------------------------------------------------
// Importing
// ---------------------------------------------------------------------------

/// What an import selects: the first imported note.
#[derive(Debug, Clone, Copy, PartialEq, Eq, Structural)]
pub struct BackupImport {
    pub selected_id: Option<u128>,
}

/// What an import would do.
#[derive(Debug, Clone, Copy, PartialEq, Eq, Structural)]
pub struct BackupImportPreview {
    pub notes_to_add: usize,
    pub notes_to_replace: usize,
    pub total_imported_notes: usize,
    pub selected_id: Option<u128>,
}

/// Some note has the identifier.
pub open spec fn has_id(notes: Seq<NoteView>, id: u128) -> bool {
    exists|j: int| 0 <= j < notes.len() && (#[trigger] notes[j]).id == id
}

/// How many incoming notes have the identifier of a current note.
pub open spec fn replaced_count(notes: Seq<NoteView>, incoming: Seq<NoteView>) -> nat
    decreases incoming.len(),
{
    if incoming.len() == 0 {
        0
    } else {
        replaced_count(notes, incoming.drop_last()) + if has_id(notes, incoming.last().id) {
            1nat
        } else {
            0nat
        }
    }
}

/// The collection after merging the incoming notes in order: a note replaces
/// the first current note with its identifier, or is added at the end.
pub open spec fn merged(notes: Seq<NoteView>, incoming: Seq<NoteView>) -> Seq<NoteView>
    decreases incoming.len(),
{
    if incoming.len() == 0 {
        notes
    } else {
        let m = merged(notes, incoming.drop_last());
        let b = incoming.last();
        match index_of_id(m, b.id) {
            Some(k) => m.update(k, b),
            None => m.push(b),
        }
    }
}

/// The first identifier of the incoming notes.
pub open spec fn first_id(incoming: Seq<NoteView>) -> Option<u128> {
    if incoming.len() > 0 {
        Some(incoming[0].id)
    } else {
        None
    }
}

/// The preview of merging the incoming notes into the collection.
pub open spec fn preview_of(notes: Seq<NoteView>, incoming: Seq<NoteView>) -> BackupImportPreview {
    BackupImportPreview {
        notes_to_add: (incoming.len() - replaced_count(notes, incoming)) as usize,
        notes_to_replace: replaced_count(notes, incoming) as usize,
        total_imported_notes: incoming.len() as usize,
        selected_id: first_id(incoming),
    }
}

pub proof fn lemma_replaced_count_bound(notes: Seq<NoteView>, incoming: Seq<NoteView>)
    ensures
        replaced_count(notes, incoming) <= incoming.len(),
    decreases incoming.len(),
{
    if incoming.len() > 0 {
        lemma_replaced_count_bound(notes, incoming.drop_last());
    }
}

fn contains_note_id(notes: &[Note], id: u128) -> (r: bool)
    ensures
        r == has_id(notes_view(notes@), id),
{
    let ghost nv = notes_view(notes@);
    let mut k: usize = 0;
    while k < notes.len()
        invariant
            k <= notes.len(),
            nv == notes_view(notes@),
            forall|j: int| 0 <= j < k ==> (#[trigger] nv[j]).id != id,
        decreases notes.len() - k,
    {
        assert(nv[k as int] == notes@[k as int]@);
        if notes[k].id == id {
            return true;
        }
        k += 1;
    }
    false
}

fn import_preview(notes: &[Note], incoming: &[Note]) -> (r: BackupImportPreview)
    ensures
        r == preview_of(notes_view(notes@), notes_view(incoming@)),
{
    let ghost nv = notes_view(notes@);
    let ghost iv = notes_view(incoming@);
    let mut replace: usize = 0;
    let mut k: usize = 0;
    while k < incoming.len()
        invariant
            k <= incoming.len(),
            nv == notes_view(notes@),
            iv == notes_view(incoming@),
            replace == replaced_count(nv, iv.take(k as int)),
            replace <= k,
        decreases incoming.len() - k,
    {
        proof {
            assert(iv.take(k + 1).drop_last() =~= iv.take(k as int));
            assert(iv.take(k + 1).last() == incoming@[k as int]@);
        }
        if contains_note_id(notes, incoming[k].id) {
            replace += 1;
        }
        k += 1;
    }
    assert(iv.take(k as int) =~= iv);
    let selected_id = if incoming.len() > 0 {
        assert(iv[0] == incoming@[0]@);
        Some(incoming[0].id)
    } else {
        None
    };
    BackupImportPreview {
        notes_to_add: incoming.len() - replace,
        notes_to_replace: replace,
        total_imported_notes: incoming.len(),
        selected_id,
    }
}

fn merge_notes(notes: &mut Vec<Note>, incoming: Vec<Note>)
    ensures
        notes_view(final(notes)@) == merged(notes_view(old(notes)@), notes_view(incoming@)),
{
    let ghost start = notes_view(notes@);
    let ghost iv = notes_view(incoming@);
    let mut k: usize = 0;
    while k < incoming.len()
        invariant
            k <= incoming.len(),
            iv == notes_view(incoming@),
            notes_view(notes@) == merged(start, iv.take(k as int)),
        decreases incoming.len() - k,
    {
        proof {
            assert(iv.take(k + 1).drop_last() =~= iv.take(k as int));
            assert(iv.take(k + 1).last() == incoming@[k as int]@);
        }
        let b = incoming[k].duplicate();
        match crate::model::find_note_index(notes, b.id) {
            Some(j) => {
                let ghost before = notes_view(notes@);
                notes.set(j, b);
                assert(notes_view(notes@) =~= before.update(j as int, b@));
            },
            None => {
                let ghost before = notes_view(notes@);
                notes.push(b);
                assert(notes_view(notes@) =~= before.push(b@));
            },
        }
        k += 1;
    }
    assert(iv.take(k as int) =~= iv);
}

/// What merging a read backup into the collection would do.
pub fn preview_flat_collection_backup(
    notes: &[Note],
    read: Result<FlatCollectionBackup, serde_json::Error>,
) -> (r: Result<BackupImportPreview, BackupError>)
    ensures
        match read {
            Err(e) => r == Err::<BackupImportPreview, BackupError>(BackupError::Deserialize(e)),
            Ok(b) => match r {
                Ok(p) => check_outcome(b, Ok(())) && p == preview_of(
                    notes_view(notes@),
                    notes_view(b.notes@),
                ),
                Err(err) => check_outcome(b, Err(err)),
            },
        },
{
    match checked_backup(read) {
        Ok(b) => Ok(import_preview(notes, &b.notes)),
        Err(e) => Err(e),
    }
}

/// Merges a read backup into the collection, or leaves the collection as it
/// is when the backup is refused.
pub fn import_flat_collection_backup(
    notes: &mut Vec<Note>,
    read: Result<FlatCollectionBackup, serde_json::Error>,
) -> (r: Result<BackupImport, BackupError>)
    ensures
        match read {
            Err(e) => r == Err::<BackupImport, BackupError>(BackupError::Deserialize(e))
                && final(notes)@ == old(notes)@,
            Ok(b) => match r {
                Ok(i) => check_outcome(b, Ok(())) && notes_view(final(notes)@) == merged(
                    notes_view(old(notes)@),
                    notes_view(b.notes@),
                ) && i.selected_id == first_id(notes_view(b.notes@)),
                Err(err) => check_outcome(b, Err(err)) && final(notes)@ == old(notes)@,
            },
        },
{
    match checked_backup(read) {
        Ok(b) => {
            let selected_id = if b.notes.len() > 0 {
                Some(b.notes[0].id)
            } else {
                None
            };
            merge_notes(notes, b.notes);
            Ok(BackupImport { selected_id })
        },
        Err(e) => Err(e),
    }
}

// ---------------------------------------------------------------------------
// What a merge keeps
// ---------------------------------------------------------------------------

proof fn lemma_min_position(notes: Seq<NoteView>, id: u128, w: int)
    requires
        0 <= w < notes.len(),
        notes[w].id == id,
    ensures
        exists|i: int|
            0 <= i < notes.len() && notes[i].id == id && forall|k: int|
                0 <= k < i ==> (#[trigger] notes[k]).id != id,
    decreases w,
{
    if exists|k: int| 0 <= k < w && (#[trigger] notes[k]).id == id {
        let k = choose|k: int| 0 <= k < w && (#[trigger] notes[k]).id == id;
        lemma_min_position(notes, id, k);
    } else {
        assert(forall|k: int| 0 <= k < w ==> (#[trigger] notes[k]).id != id);
    }
}

pub proof fn lemma_index_of_id(notes: Seq<NoteView>, id: u128)
    ensures
        index_of_id(notes, id) matches Some(k) ==> 0 <= k < notes.len() && notes[k].id == id,
        index_of_id(notes, id) is None <==> !has_id(notes, id),
{
    if has_id(notes, id) {
        let w = choose|w: int| 0 <= w < notes.len() && notes[w].id == id;
        lemma_min_position(notes, id, w);
    }
}

proof fn lemma_has_id_update(m: Seq<NoteView>, k: int, b: NoteView, id: u128)
    requires
        0 <= k < m.len(),
        m[k].id == b.id,
    ensures
        has_id(m.update(k, b), id) == has_id(m, id),
{
    let u = m.update(k, b);
    if has_id(m, id) {
        let w = choose|w: int| 0 <= w < m.len() && m[w].id == id;
        assert(u[w].id == id);
    }
    if has_id(u, id) {
        let w = choose|w: int| 0 <= w < u.len() && u[w].id == id;
        assert(m[w].id == id);
    }
}

proof fn lemma_has_id_push(m: Seq<NoteView>, b: NoteView, id: u128)
    ensures
        has_id(m.push(b), id) == (has_id(m, id) || b.id == id),
{
    let u = m.push(b);
    if has_id(m, id) {
        let w = choose|w: int| 0 <= w < m.len() && m[w].id == id;
        assert(u[w].id == id);
    }
    if has_id(u, id) {
        let w = choose|w: int| 0 <= w < u.len() && u[w].id == id;
        if w < m.len() {
            assert(m[w].id == id);
        }
    }
    assert(u[m.len() as int] == b);
}

proof fn lemma_has_id_last(s: Seq<NoteView>, id: u128)
    requires
        s.len() > 0,
    ensures
        has_id(s, id) == (has_id(s.drop_last(), id) || s.last().id == id),
{
    assert(s == s.drop_last().push(s.last()));
    lemma_has_id_push(s.drop_last(), s.last(), id);
}

/// An identifier is in the merged collection exactly when it is in the
/// collection or among the incoming notes.
pub proof fn lemma_merged_ids(notes: Seq<NoteView>, incoming: Seq<NoteView>, id: u128)
    ensures
        has_id(merged(notes, incoming), id) <==> has_id(notes, id) || has_id(incoming, id),
    decreases incoming.len(),
{
    if incoming.len() > 0 {
        let rest = incoming.drop_last();
        let m = merged(notes, rest);
        let b = incoming.last();
        lemma_merged_ids(notes, rest, id);
        lemma_index_of_id(m, b.id);
        lemma_has_id_last(incoming, id);
        match index_of_id(m, b.id) {
            Some(k) => {
                lemma_has_id_update(m, k, b, id);
                if b.id == id {
                    assert(m[k].id == id);
                }
            },
            None => {
                lemma_has_id_push(m, b, id);
            },
        }
    }
}

/// Merging never creates two notes with one identifier, and the merged
/// collection grows by exactly the incoming notes whose identifier is new,
/// as the preview counts them.
pub proof fn lemma_merge_without_duplicates(notes: Seq<NoteView>, incoming: Seq<NoteView>)
    requires
        unique_ids(notes),
        unique_ids(incoming),
    ensures
        unique_ids(merged(notes, incoming)),
        merged(notes, incoming).len() == notes.len() + incoming.len() - replaced_count(
            notes,
            incoming,
        ),
    decreases incoming.len(),
{
    if incoming.len() > 0 {
        let rest = incoming.drop_last();
        let b = incoming.last();
        assert(unique_ids(rest)) by {
            assert forall|i: int, j: int| 0 <= i < j < rest.len() implies rest[i].id != rest[j].id by {
                assert(rest[i] == incoming[i]);
                assert(rest[j] == incoming[j]);
            }
        }
        lemma_merge_without_duplicates(notes, rest);
        let m = merged(notes, rest);
        lemma_index_of_id(m, b.id);
        lemma_merged_ids(notes, rest, b.id);
        assert(!has_id(rest, b.id)) by {
            if has_id(rest, b.id) {
                let w = choose|w: int| 0 <= w < rest.len() && rest[w].id == b.id;
                assert(incoming[w].id == incoming[incoming.len() - 1].id);
            }
        }
        lemma_replaced_count_bound(notes, rest);
        match index_of_id(m, b.id) {
            Some(k) => {
                let u = m.update(k, b);
                assert forall|i: int, j: int| 0 <= i < j < u.len() implies u[i].id != u[j].id by {
                    if i != k && j != k {
                        assert(u[i] == m[i] && u[j] == m[j]);
                    } else if i == k {
                        assert(u[j] == m[j]);
                        assert(m[k].id == b.id);
                    } else {
                        assert(u[i] == m[i]);
                        assert(m[k].id == b.id);
                    }
                }
            },
            None => {
                let u = m.push(b);
                assert forall|i: int, j: int| 0 <= i < j < u.len() implies u[i].id != u[j].id by {
                    if j < m.len() {
                        assert(u[i] == m[i] && u[j] == m[j]);
                    } else {
                        assert(u[i] == m[i]);
                        assert(m[i].id != b.id);
                    }
                }
            },
        }
    }
}


proof fn lemma_unique_prefix(notes: Seq<NoteView>)
    requires
        notes.len() > 0,
        unique_ids(notes),
    ensures
        unique_ids(notes.drop_last()),
        !has_id(notes.drop_last(), notes.last().id),
{
    let rest = notes.drop_last();
    assert forall|i: int, j: int| 0 <= i < j < rest.len() implies rest[i].id != rest[j].id by {
        assert(rest[i] == notes[i]);
        assert(rest[j] == notes[j]);
    }
    if has_id(rest, notes.last().id) {
        let w = choose|w: int| 0 <= w < rest.len() && rest[w].id == notes.last().id;
        assert(notes[w].id == notes[notes.len() - 1].id);
    }
}

/// Notes with distinct identities have no repeated identifier.
pub proof fn lemma_unique_no_repeat(notes: Seq<NoteView>, k: int)
    requires
        unique_ids(notes),
        0 <= k,
    ensures
        first_repeat_from(notes, k) is None,
    decreases notes.len() - k,
{
    if k < notes.len() {
        assert(!repeats_earlier(notes, k)) by {
            if repeats_earlier(notes, k) {
                let j = choose|j: int| 0 <= j < k && (#[trigger] notes[j]).id == notes[k].id;
            }
        }
        lemma_unique_no_repeat(notes, k + 1);
    }
}

/// Importing notes with distinct identities into an empty collection gives
/// exactly those notes, in order.
pub proof fn lemma_import_into_empty(incoming: Seq<NoteView>)
    requires
        unique_ids(incoming),
    ensures
        merged(Seq::empty(), incoming) == incoming,
    decreases incoming.len(),
{
    if incoming.len() > 0 {
        let rest = incoming.drop_last();
        lemma_unique_prefix(incoming);
        lemma_import_into_empty(rest);
        lemma_index_of_id(rest, incoming.last().id);
        assert(incoming == rest.push(incoming.last()));
    }
}

/// A backup as an export writes it (this version, this kind, notes with
/// distinct identities) is accepted on import, and imported into an empty
/// collection it gives back the exported notes.
pub proof fn lemma_export_import_roundtrip(backup: FlatCollectionBackup)
    requires
        backup.version == BACKUP_VERSION,
        backup.kind@ == BACKUP_KIND@,
        unique_ids(notes_view(backup.notes@)),
    ensures
        check_outcome(backup, Ok(())),
        merged(Seq::empty(), notes_view(backup.notes@)) == notes_view(backup.notes@),
{
    lemma_unique_no_repeat(notes_view(backup.notes@), 0);
    lemma_import_into_empty(notes_view(backup.notes@));
}

/// The note stands somewhere in the collection.
pub open spec fn holds_note(notes: Seq<NoteView>, n: NoteView) -> bool {
    exists|p: int| 0 <= p < notes.len() && notes[p] == n
}

/// After a merge, every incoming note stands in the collection as it came.
proof fn lemma_merged_contains(notes: Seq<NoteView>, incoming: Seq<NoteView>, k: int)
    requires
        unique_ids(incoming),
        0 <= k < incoming.len(),
    ensures
        holds_note(merged(notes, incoming), incoming[k]),
    decreases incoming.len(),
{
    let rest = incoming.drop_last();
    let b = incoming.last();
    let m = merged(notes, rest);
    lemma_index_of_id(m, b.id);
    let mi = merged(notes, incoming);
    if k == incoming.len() - 1 {
        match index_of_id(m, b.id) {
            Some(p) => {
                assert(mi == m.update(p, b));
                assert(mi[p] == incoming[k]);
            },
            None => {
                assert(mi == m.push(b));
                assert(mi[m.len() as int] == incoming[k]);
            },
        }
    } else {
        lemma_unique_prefix(incoming);
        lemma_merged_contains(notes, rest, k);
        assert(rest[k] == incoming[k]);
        let q = choose|q: int| 0 <= q < m.len() && m[q] == rest[k];
        match index_of_id(m, b.id) {
            Some(p) => {
                assert(p != q) by {
                    if p == q {
                        assert(incoming[k].id == incoming[incoming.len() - 1].id);
                    }
                }
                assert(mi == m.update(p, b));
                assert(mi[q] == incoming[k]);
            },
            None => {
                assert(mi == m.push(b));
                assert(mi[q] == incoming[k]);
            },
        }
    }
}

/// Merging notes that already stand in a collection with distinct
/// identities leaves it as it is.
proof fn lemma_merge_present(m: Seq<NoteView>, incoming: Seq<NoteView>)
    requires
        unique_ids(m),
        unique_ids(incoming),
        forall|k: int| 0 <= k < incoming.len() ==> holds_note(m, #[trigger] incoming[k]),
    ensures
        merged(m, incoming) == m,
    decreases incoming.len(),
{
    if incoming.len() > 0 {
        let rest = incoming.drop_last();
        let b = incoming.last();
        lemma_unique_prefix(incoming);
        assert forall|k: int| 0 <= k < rest.len() implies holds_note(m, #[trigger] rest[k]) by {
            assert(rest[k] == incoming[k]);
        }
        lemma_merge_present(m, rest);
        assert(incoming[incoming.len() - 1] == b);
        assert(holds_note(m, incoming[incoming.len() - 1]));
        let q = choose|q: int| 0 <= q < m.len() && m[q] == b;
        lemma_index_of_id(m, b.id);
        let p = index_of_id(m, b.id)->0;
        assert(p == q);
        assert(m.update(p, b) =~= m);
    }
}

/// Importing the same backup twice changes nothing the second time.
pub proof fn lemma_import_twice(notes: Seq<NoteView>, incoming: Seq<NoteView>)
    requires
        unique_ids(notes),
        unique_ids(incoming),
    ensures
        merged(merged(notes, incoming), incoming) == merged(notes, incoming),
{
    let m = merged(notes, incoming);
    lemma_merge_without_duplicates(notes, incoming);
    assert forall|k: int| 0 <= k < incoming.len() implies holds_note(m, #[trigger] incoming[k]) by {
        lemma_merged_contains(notes, incoming, k);
    }
    lemma_merge_present(m, incoming);
}

/// The counts an import preview shows are what the import does: the
/// collection grows by the notes to add, and the rest of the incoming notes
/// replace notes already there.
pub proof fn lemma_preview_matches_import(notes: Seq<NoteView>, incoming: Seq<NoteView>)
    requires
        unique_ids(notes),
        unique_ids(incoming),
        incoming.len() <= usize::MAX,
    ensures
        merged(notes, incoming).len() == notes.len() + preview_of(notes, incoming).notes_to_add,
        preview_of(notes, incoming).notes_to_add + preview_of(notes, incoming).notes_to_replace
            == incoming.len(),
{
    lemma_merge_without_duplicates(notes, incoming);
    lemma_replaced_count_bound(notes, incoming);
}

/// For a collection without repeated identifiers and a backup that passes
/// validation (the case in which both the preview and the import succeed,
/// by their contracts): the preview counts every backup note, counts as
/// replaced the backup notes whose identifier is already in the collection
/// and the rest as added, the import grows the collection by exactly the
/// added notes, and the preview selects the note the import selects.
pub proof fn lemma_preview_agrees_with_import(notes: Seq<NoteView>, backup: FlatCollectionBackup)
    requires
        unique_ids(notes),
        check_outcome(backup, Ok(())),
        backup.notes@.len() <= usize::MAX,
    ensures
        ({
            let incoming = notes_view(backup.notes@);
            let p = preview_of(notes, incoming);
            &&& p.total_imported_notes == incoming.len()
            &&& p.notes_to_replace == replaced_count(notes, incoming)
            &&& p.notes_to_add + p.notes_to_replace == incoming.len()
            &&& merged(notes, incoming).len() == notes.len() + p.notes_to_add
            &&& p.selected_id == first_id(incoming)
        }),
{
    let incoming = notes_view(backup.notes@);
    assert(incoming.len() == backup.notes@.len());
    lemma_no_repeat_iff_unique(incoming);
    lemma_replaced_count_bound(notes, incoming);
    lemma_preview_matches_import(notes, incoming);
}

} // verus!
