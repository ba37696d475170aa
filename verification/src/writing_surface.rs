//! What the editor area shows for the selected note: the writing surface
//! and the preview, by view mode, and formatting applied to a selection.
use vstd::prelude::*;
use crate::editor_view::EditorViewMode;
pub use crate::markdown_editing::MarkdownCommand;
use crate::markdown_editing::{
    BrowserSelection, apply_markdown_command, caret_after, command_affixes, formatted_content,
};
use crate::markdown_preview::render_markdown_preview_body;
use crate::model::{Note, copy_strings, display_title_seq};

verus! {

broadcast use vstd::string::group_string_axioms;

/// Shown above a note that the note list's filter hides.
pub const HIDDEN_BY_FILTER_MESSAGE: &'static str = "This note is outside the current Search or Tag filter. Clear the filter in the Note List to show it there again.";

/// The editor area for one note.
#[derive(Debug, Clone, PartialEq, Eq)]
pub struct WritingSurfaceModel {
    pub writing: Option<WritingSurfaceEditor>,
    pub preview: Option<WritingSurfacePreview>,
    pub hidden_by_filter_message: Option<&'static str>,
}

/// The writing surface: the note's title, tags and Markdown.
#[derive(Debug, Clone, PartialEq, Eq)]
pub struct WritingSurfaceEditor {
    pub title: String,
    pub tags: Vec<String>,
    pub content: String,
    pub formatting_tools_visible: bool,
}

/// The preview: the note's title, tags and rendered body.
#[derive(Debug, Clone, PartialEq, Eq)]
pub struct WritingSurfacePreview {
    pub title: String,
    pub tags: Vec<String>,
    pub body_html: String,
}

/// The parts of the preview, top to bottom.
#[derive(Debug, Clone, Copy, PartialEq, Eq, Structural)]
pub enum PreviewSection {
    NoteTitle,
    NoteMetadata,
    MarkdownBody,
}

/// A selection in the writing surface, in UTF-16 code units.
#[derive(Debug, Clone, Copy, PartialEq, Eq, Structural)]
pub struct WritingSurfaceSelection {
    pub start_utf16: usize,
    pub end_utf16: usize,
}

/// The formatted content and the caret, in UTF-16 code units.
#[derive(Debug, Clone, PartialEq, Eq)]
pub struct WritingSurfaceFormattingResult {
    pub content: String,
    pub caret_utf16: usize,
}

impl WritingSurfaceModel {
    /// The editor area for a note in a view mode: the writing surface when
    /// the mode writes, the preview when it previews, and the filter message
    /// when the note is hidden by the list's filter.
    pub fn from_note(note: &Note, view_mode: EditorViewMode, is_hidden_by_filter: bool) -> (r:
        Self)
        ensures
            r.writing is Some <==> view_mode != EditorViewMode::Preview,
            r.preview is Some <==> view_mode != EditorViewMode::Write,
            r.writing matches Some(w) ==> w.title@ == display_title_seq(note.title@)
                && w.tags.deep_view() == note.tags.deep_view() && w.content@ == note.content@
                && w.formatting_tools_visible,
            r.preview matches Some(p) ==> p.title@ == display_title_seq(note.title@)
                && p.tags.deep_view() == note.tags.deep_view() && p.body_html@
                == crate::markdown_preview::preview_html(
                crate::markdown_preview::preview_stream(
                    display_title_seq(note.title@),
                    crate::markdown_preview::markdown_events(note.content@),
                ),
            ),
            r.hidden_by_filter_message == (if is_hidden_by_filter {
                Some(HIDDEN_BY_FILTER_MESSAGE)
            } else {
                None
            }),
    {
        let surfaces = view_mode.surfaces();
        let hidden_by_filter_message = if is_hidden_by_filter {
            Some(HIDDEN_BY_FILTER_MESSAGE)
        } else {
            None
        };
        let title = note.display_title();
        let writing = if surfaces.writing {
            Some(
                WritingSurfaceEditor {
                    title: title.clone(),
                    tags: copy_strings(&note.tags),
                    content: note.content.clone(),
                    formatting_tools_visible: true,
                },
            )
        } else {
            None
        };
        let preview = if surfaces.preview {
            let body_html = render_markdown_preview_body(title.as_str(), note.content.as_str());
            Some(WritingSurfacePreview { title: title.clone(), tags: copy_strings(&note.tags), body_html })
        } else {
            None
        };
        WritingSurfaceModel { writing, preview, hidden_by_filter_message }
    }
}

impl WritingSurfacePreview {
    /// The preview's sections, top to bottom.
    pub fn sections(&self) -> (r: [PreviewSection; 3])
        ensures
            r@ == seq![
                PreviewSection::NoteTitle,
                PreviewSection::NoteMetadata,
                PreviewSection::MarkdownBody,
            ],
    {
        let r = [PreviewSection::NoteTitle, PreviewSection::NoteMetadata, PreviewSection::MarkdownBody];
        assert(r@ =~= seq![
            PreviewSection::NoteTitle,
            PreviewSection::NoteMetadata,
            PreviewSection::MarkdownBody,
        ]);
        r
    }
}

/// The selection as the browser reports it.
pub open spec fn as_browser(selection: WritingSurfaceSelection) -> BrowserSelection {
    BrowserSelection { start_utf16: selection.start_utf16, end_utf16: selection.end_utf16 }
}

/// Applies a toolbar command to the writing surface's selection.
pub fn apply_formatting_command(
    content: &str,
    selection: WritingSurfaceSelection,
    command: MarkdownCommand,
) -> (r: WritingSurfaceFormattingResult)
    requires
        caret_after(as_browser(selection), command_affixes(command).0, command_affixes(command).1)
            <= usize::MAX,
    ensures
        r.content@ == formatted_content(
            content@,
            as_browser(selection),
            command_affixes(command).0,
            command_affixes(command).1,
        ),
        r.caret_utf16 == caret_after(
            as_browser(selection),
            command_affixes(command).0,
            command_affixes(command).1,
        ),
{
    let result = apply_markdown_command(
        content,
        BrowserSelection { start_utf16: selection.start_utf16, end_utf16: selection.end_utf16 },
        command,
    );
    WritingSurfaceFormattingResult { content: result.content, caret_utf16: result.caret_utf16 }
}

} // verus!
