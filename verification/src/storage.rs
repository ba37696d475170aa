//! The save lifecycle of the note collection and the decisions taken when
//! loading stored preferences.
use vstd::prelude::*;
use gloo_storage::errors::StorageError;
use crate::backup::BackupHealthRecord;

verus! {

/// What the save indicator shows.
#[derive(Debug, Clone, Copy, PartialEq, Eq, Structural)]
pub enum SaveStatus {
    Saving,
    Saved,
}

/// Whether a debounced save is pending, and the status shown.
#[derive(Debug, Clone, Copy, PartialEq, Eq, Structural)]
pub struct SaveLifecycle {
    status: SaveStatus,
    has_pending_save: bool,
}

impl View for SaveLifecycle {
    /// The status shown and whether a save is pending.
    type V = (SaveStatus, bool);

    closed spec fn view(&self) -> (SaveStatus, bool) {
        (self.status, self.has_pending_save)
    }
}

/// The lifecycle after a change: saving, with a save pending.
pub open spec fn changed() -> (SaveStatus, bool) {
    (SaveStatus::Saving, true)
}

/// The lifecycle after a save completed: saved, nothing pending.
pub open spec fn completed() -> (SaveStatus, bool) {
    (SaveStatus::Saved, false)
}

/// A flush: completes a pending save and reports it, else changes nothing.
pub open spec fn flushed(s: (SaveStatus, bool)) -> ((SaveStatus, bool), Option<SaveStatus>) {
    if s.1 {
        (completed(), Some(SaveStatus::Saved))
    } else {
        (s, None)
    }
}

impl SaveLifecycle {
    /// A change was made: a save is pending and the indicator shows saving.
    pub fn note_changed(&mut self) -> (r: SaveStatus)
        ensures
            r == SaveStatus::Saving,
            final(self)@ == changed(),
    {
        self.status = SaveStatus::Saving;
        self.has_pending_save = true;
        self.status
    }

    /// The save finished: nothing is pending and the indicator shows saved.
    pub fn save_completed(&mut self) -> (r: SaveStatus)
        ensures
            r == SaveStatus::Saved,
            final(self)@ == completed(),
    {
        self.status = SaveStatus::Saved;
        self.has_pending_save = false;
        self.status
    }

    /// Completes a pending save at once; when none is pending the lifecycle is
    /// left exactly as it was.
    pub fn flush_pending(&mut self) -> (r: Option<SaveStatus>)
        ensures
            (final(self)@, r) == flushed(old(self)@),
            !old(self)@.1 ==> *final(self) == *old(self),
    {
        if self.has_pending_save {
            Some(self.save_completed())
        } else {
            None
        }
    }

    pub fn status(&self) -> (r: SaveStatus)
        ensures
            r == self@.0,
    {
        self.status
    }
}

impl Default for SaveLifecycle {
    /// Nothing pending; the indicator shows saved.
    fn default() -> (r: Self)
        ensures
            r@ == completed(),
    {
        SaveLifecycle { status: SaveStatus::Saved, has_pending_save: false }
    }
}

/// After a change, a flush completes the save and reports it saved; a second
/// flush then finds nothing pending and changes nothing.
pub proof fn lemma_change_then_flush()
    ensures
        flushed(changed()) == (completed(), Some(SaveStatus::Saved)),
        flushed(flushed(changed()).0) == (completed(), None::<SaveStatus>),
{
}

/// Once a save completed, a flush does nothing.
pub proof fn lemma_flush_after_completion()
    ensures
        flushed(completed()) == (completed(), None::<SaveStatus>),
{
}

/// The events on the document that flush a pending save.
pub fn document_page_flush_events() -> (r: Vec<&'static str>)
    ensures
        r@.map_values(|e: &'static str| e@) == seq!["visibilitychange"@],
{
    let r = vec!["visibilitychange"];
    assert(r@.map_values(|e: &'static str| e@) =~= seq!["visibilitychange"@]);
    r
}

/// The events on the window that flush a pending save.
pub fn window_page_flush_events() -> (r: Vec<&'static str>)
    ensures
        r@.map_values(|e: &'static str| e@) == seq!["pagehide"@, "beforeunload"@],
{
    let r = vec!["pagehide", "beforeunload"];
    assert(r@.map_values(|e: &'static str| e@) =~= seq!["pagehide"@, "beforeunload"@]);
    r
}

#[verifier::external_type_specification]
#[verifier::external_body]
pub struct ExStorageError(gloo_storage::errors::StorageError);

/// Whether a storage error says that nothing is stored under the key.
pub uninterp spec fn is_key_not_found(error: StorageError) -> bool;

/// Tells `StorageError::KeyNotFound` apart from gloo-storage's other
/// errors (a JSON error, a JavaScript error); nothing else is claimed.
#[verifier::external_body]
fn key_not_found(error: &StorageError) -> (r: bool)
    ensures
        r == is_key_not_found(*error),
{
    match error {
        StorageError::SerdeError(_) => false,
        StorageError::KeyNotFound(_) => true,
        StorageError::JsError(_) => false,
    }
}

/// A loaded preference: a stored value, nothing stored (`Ok(None)`), or a
/// failure to read what is stored.
pub fn optional_preference_value<T>(load_result: Result<T, StorageError>) -> (r: Result<
    Option<T>,
    StorageError,
>)
    ensures
        match load_result {
            Ok(v) => r == Ok::<Option<T>, StorageError>(Some(v)),
            Err(e) => if is_key_not_found(e) {
                r == Ok::<Option<T>, StorageError>(None)
            } else {
                r == Err::<Option<T>, StorageError>(e)
            },
        },
{
    match load_result {
        Ok(value) => Ok(Some(value)),
        Err(error) => if key_not_found(&error) {
            Ok(None)
        } else {
            Err(error)
        },
    }
}

/// Dark mode: the stored choice, else the system preference.
pub fn dark_mode_from(loaded: &Result<Option<bool>, StorageError>, system_prefers_dark: bool) -> (r:
    bool)
    ensures
        r == match loaded {
            Ok(Some(v)) => *v,
            _ => system_prefers_dark,
        },
{
    match loaded {
        Ok(Some(v)) => *v,
        Ok(None) => system_prefers_dark,
        Err(_) => system_prefers_dark,
    }
}

/// Whether the sidebar opens: the stored choice, else open.
pub fn sidebar_open_from(loaded: &Result<Option<bool>, StorageError>) -> (r: bool)
    ensures
        r == match loaded {
            Ok(Some(v)) => *v,
            _ => true,
        },
{
    match loaded {
        Ok(Some(v)) => *v,
        Ok(None) => true,
        Err(_) => true,
    }
}

/// The backup health record at start-up: the stored record when it reads,
/// none when nothing is stored or the stored text does not read.
pub fn decide_backup_health_startup(saved: Option<Result<BackupHealthRecord, serde_json::Error>>) -> (r:
    Option<BackupHealthRecord>)
    ensures
        r == match saved {
            Some(Ok(record)) => Some(record),
            _ => None::<BackupHealthRecord>,
        },
{
    match saved {
        Some(Ok(record)) => Some(record),
        Some(Err(_)) => None,
        None => None,
    }
}

} // verus!
