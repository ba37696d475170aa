//! Showing and hiding the note list across compact and wide windows, and
//! which editor view modes a window can show.
use vstd::prelude::*;
use crate::editor_view::EditorViewMode;

verus! {

/// Whether the window is narrow (the note list overlays the editor) or wide.
#[derive(Debug, Clone, Copy, PartialEq, Eq, Structural)]
pub enum ViewportClass {
    Compact,
    Wide,
}

impl ViewportClass {
    fn supports_split_view(self) -> (r: bool)
        ensures
            r == (self == ViewportClass::Wide),
    {
        match self {
            ViewportClass::Wide => true,
            ViewportClass::Compact => false,
        }
    }
}

/// The note-list state remembered for compact windows.
#[derive(Debug, Clone, Copy, PartialEq, Eq, Structural)]
pub enum StoredNoteListState {
    Open,
    Closed,
}

pub open spec fn stored_state(is_open: bool) -> StoredNoteListState {
    if is_open {
        StoredNoteListState::Open
    } else {
        StoredNoteListState::Closed
    }
}

impl StoredNoteListState {
    pub fn from_is_open(is_open: bool) -> (r: Self)
        ensures
            r == stored_state(is_open),
    {
        if is_open {
            StoredNoteListState::Open
        } else {
            StoredNoteListState::Closed
        }
    }

    pub fn is_open(self) -> (r: bool)
        ensures
            r == (self == StoredNoteListState::Open),
    {
        match self {
            StoredNoteListState::Open => true,
            StoredNoteListState::Closed => false,
        }
    }
}

/// Whether the note-list state should be remembered, and as what.
#[derive(Debug, Clone, Copy, PartialEq, Eq, Structural)]
pub enum NoteListPersistence {
    Persist(StoredNoteListState),
    Skip,
}

/// The window class and whether the note list shows.
#[derive(Debug, Clone, Copy, PartialEq, Eq, Structural)]
pub struct ResponsiveNavigation {
    viewport: ViewportClass,
    is_note_list_visible: bool,
}

/// The remembered state for a window class and note-list visibility: only
/// compact windows remember it.
pub open spec fn persistence_for(viewport: ViewportClass, visible: bool) -> NoteListPersistence {
    if viewport == ViewportClass::Compact {
        NoteListPersistence::Persist(stored_state(visible))
    } else {
        NoteListPersistence::Skip
    }
}

impl ResponsiveNavigation {
    pub closed spec fn viewport_of(self) -> ViewportClass {
        self.viewport
    }

    pub closed spec fn visible_of(self) -> bool {
        self.is_note_list_visible
    }

    /// The navigation at start-up: wide windows always show the note list;
    /// compact ones restore the remembered state.
    pub fn initial(viewport: ViewportClass, stored: StoredNoteListState) -> (r: Self)
        ensures
            r.viewport_of() == viewport,
            r.visible_of() == (viewport == ViewportClass::Wide || stored
                == StoredNoteListState::Open),
    {
        let wide = match viewport {
            ViewportClass::Wide => true,
            ViewportClass::Compact => false,
        };
        let open = match stored {
            StoredNoteListState::Open => true,
            StoredNoteListState::Closed => false,
        };
        ResponsiveNavigation { viewport, is_note_list_visible: wide || open }
    }

    /// The navigation as it currently is.
    pub fn current(viewport: ViewportClass, is_note_list_visible: bool) -> (r: Self)
        ensures
            r.viewport_of() == viewport,
            r.visible_of() == is_note_list_visible,
    {
        ResponsiveNavigation { viewport, is_note_list_visible }
    }

    pub fn is_note_list_visible(&self) -> (r: bool)
        ensures
            r == self.visible_of(),
    {
        self.is_note_list_visible
    }

    /// The top-bar button shows or hides the note list.
    pub fn toggle_note_list(&mut self)
        ensures
            final(self).viewport_of() == old(self).viewport_of(),
            final(self).visible_of() == !old(self).visible_of(),
    {
        self.is_note_list_visible = !self.is_note_list_visible;
    }

    /// Selecting a note returns compact windows to the writing surface.
    pub fn note_selected(&mut self)
        ensures
            final(self).viewport_of() == old(self).viewport_of(),
            final(self).visible_of() == (old(self).visible_of() && old(self).viewport_of()
                == ViewportClass::Wide),
    {
        if self.viewport == ViewportClass::Compact {
            self.is_note_list_visible = false;
        }
    }

    /// The window changed class; becoming wide shows the note list.
    pub fn reclassify_viewport(&mut self, viewport: ViewportClass)
        ensures
            final(self).viewport_of() == viewport,
            final(self).visible_of() == (old(self).visible_of() || viewport
                == ViewportClass::Wide),
    {
        self.viewport = viewport;
        if viewport == ViewportClass::Wide {
            self.is_note_list_visible = true;
        }
    }

    /// What to remember of the note-list state.
    pub fn persistence(&self) -> (r: NoteListPersistence)
        ensures
            r == persistence_for(self.viewport_of(), self.visible_of()),
    {
        if self.viewport == ViewportClass::Compact {
            NoteListPersistence::Persist(StoredNoteListState::from_is_open(self.is_note_list_visible))
        } else {
            NoteListPersistence::Skip
        }
    }
}

/// Split view needs a wide window; the other modes are always available.
pub open spec fn view_mode_available(viewport: ViewportClass, view_mode: EditorViewMode) -> bool {
    view_mode != EditorViewMode::Split || viewport == ViewportClass::Wide
}

pub fn is_view_mode_available(viewport: ViewportClass, view_mode: EditorViewMode) -> (r: bool)
    ensures
        r == view_mode_available(viewport, view_mode),
{
    view_mode != EditorViewMode::Split || viewport.supports_split_view()
}

/// The view mode a window can show: unavailable modes fall back to writing.
pub open spec fn normalized_view_mode(viewport: ViewportClass, view_mode: EditorViewMode) -> EditorViewMode {
    if view_mode_available(viewport, view_mode) {
        view_mode
    } else {
        EditorViewMode::Write
    }
}

pub fn normalize_view_mode(viewport: ViewportClass, view_mode: EditorViewMode) -> (r: EditorViewMode)
    ensures
        r == normalized_view_mode(viewport, view_mode),
{
    if is_view_mode_available(viewport, view_mode) {
        view_mode
    } else {
        EditorViewMode::Write
    }
}

/// Toggling the note list twice (as `toggle_note_list`'s contract says)
/// leaves the navigation exactly as it was.
pub proof fn lemma_toggle_twice(n: ResponsiveNavigation, once: ResponsiveNavigation, twice: ResponsiveNavigation)
    requires
        once.viewport_of() == n.viewport_of(),
        once.visible_of() == !n.visible_of(),
        twice.viewport_of() == once.viewport_of(),
        twice.visible_of() == !once.visible_of(),
    ensures
        twice.viewport_of() == n.viewport_of(),
        twice.visible_of() == n.visible_of(),
        twice == n,
{
}

/// A normalised view mode is available, and normalising it again keeps it.
pub proof fn lemma_normalized_view_mode(viewport: ViewportClass, view_mode: EditorViewMode)
    ensures
        view_mode_available(viewport, normalized_view_mode(viewport, view_mode)),
        normalized_view_mode(viewport, normalized_view_mode(viewport, view_mode))
            == normalized_view_mode(viewport, view_mode),
{
}

/// A wide window always shows the note list and never overwrites the state
/// remembered for compact windows.
pub proof fn lemma_wide_shows_and_skips(n: ResponsiveNavigation)
    requires
        n.viewport_of() == ViewportClass::Wide,
    ensures
        persistence_for(n.viewport_of(), n.visible_of()) == NoteListPersistence::Skip,
{
}

} // verus!
