//! The editor's view modes and which surfaces each one shows.
use vstd::prelude::*;

verus! {

/// How the editor presents the selected note.
#[derive(Debug, Clone, Copy, PartialEq, Eq, Structural)]
pub enum EditorViewMode {
    Write,
    Preview,
    Split,
}

/// Coarse classification of the window width used by the editor.
#[derive(Debug, Clone, Copy, PartialEq, Eq, Structural)]
pub enum ViewportClass {
    Compact,
    Wide,
}

/// Which editor surfaces are visible for a view mode.
#[derive(Debug, Clone, Copy, PartialEq, Eq, Structural)]
pub struct VisibleEditorSurfaces {
    pub writing: bool,
    pub preview: bool,
}

/// The view mode that a viewport can actually show: split collapses to write on compact viewports.
pub open spec fn spec_normalized_for(mode: EditorViewMode, viewport: ViewportClass) -> EditorViewMode {
    if mode == EditorViewMode::Split && viewport == ViewportClass::Compact {
        EditorViewMode::Write
    } else {
        mode
    }
}

impl EditorViewMode {
    pub fn normalized_for(self, viewport: ViewportClass) -> (res: Self)
        ensures
            res == spec_normalized_for(self, viewport),
    {
        match (self, viewport) {
            (Self::Split, ViewportClass::Compact) => Self::Write,
            _ => self,
        }
    }

    pub fn surfaces(self) -> (res: VisibleEditorSurfaces)
        ensures
            res.writing == (self != EditorViewMode::Preview),
            res.preview == (self != EditorViewMode::Write),
    {
        match self {
            Self::Write => VisibleEditorSurfaces { writing: true, preview: false },
            Self::Preview => VisibleEditorSurfaces { writing: false, preview: true },
            Self::Split => VisibleEditorSurfaces { writing: true, preview: true },
        }
    }
}

/// Normalising twice changes nothing more than normalising once.
pub proof fn lemma_normalized_for_idempotent(mode: EditorViewMode, viewport: ViewportClass)
    ensures
        spec_normalized_for(spec_normalized_for(mode, viewport), viewport)
            == spec_normalized_for(mode, viewport),
{
}

} // verus!
