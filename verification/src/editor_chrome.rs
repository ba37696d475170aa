//! Classes of the editor area's controls: the view-mode buttons, the
//! formatting toolbar, the title and tag inputs, the body and the preview
//! pane, and the editor's own notification outlet.
use vstd::prelude::*;
use crate::theme::{
    ThemeAccent, ThemeState, ThemeSurface, ThemeText, accent_classes, state_classes,
    surface_classes, text_classes,
};
use crate::notifications::NotificationTone;
use crate::ui_recipes::{
    compact_controls, compact_help_button, compact_segmented_button, editor_footer,
    segmented_button_classes,
};

verus! {

broadcast use vstd::string::group_string_axioms;

/// Where the editor's notifications stand on the screen.
pub fn notification_outlet_classes() -> (r: &'static str)
    ensures
        r@ == "pointer-events-none fixed bottom-16 right-3 z-50 flex min-w-0 justify-end sm:bottom-auto sm:top-3"@,
{
    "pointer-events-none fixed bottom-16 right-3 z-50 flex min-w-0 justify-end sm:bottom-auto sm:top-3"
}

/// The colours of a notification of each tone.
pub open spec fn tone_classes(tone: NotificationTone) -> Seq<char> {
    match tone {
        NotificationTone::Progress => "border-apple-yellow/40 bg-apple-yellow/10 text-yellow-700 dark:bg-apple-yellow/20 dark:text-yellow-200"@,
        NotificationTone::Success => "border-emerald-500/30 bg-emerald-500/10 text-emerald-700 dark:bg-emerald-500/15 dark:text-emerald-200"@,
        NotificationTone::Error => "border-red-500/30 bg-red-500/10 text-red-700 dark:bg-red-500/15 dark:text-red-200"@,
    }
}

/// A compact notification of a tone.
pub fn notification_classes(tone: NotificationTone) -> (r: String)
    ensures
        r@ == "pointer-events-auto max-w-[11rem] truncate rounded-md border px-3 py-1 text-xs font-medium shadow-sm "@
            + tone_classes(tone),
{
    let tone_part = match tone {
        NotificationTone::Progress => "border-apple-yellow/40 bg-apple-yellow/10 text-yellow-700 dark:bg-apple-yellow/20 dark:text-yellow-200",
        NotificationTone::Success => "border-emerald-500/30 bg-emerald-500/10 text-emerald-700 dark:bg-emerald-500/15 dark:text-emerald-200",
        NotificationTone::Error => "border-red-500/30 bg-red-500/10 text-red-700 dark:bg-red-500/15 dark:text-red-200",
    };
    let mut r = String::from_str("pointer-events-auto max-w-[11rem] truncate rounded-md border px-3 py-1 text-xs font-medium shadow-sm ");
    r.append(tone_part);
    r
}

/// A view-mode button: the compact segmented button.
pub fn editor_view_button_classes(is_active: bool, is_split: bool) -> (r: String)
    ensures
        r@ == segmented_button_classes(is_active, is_split),
{
    compact_segmented_button(is_active, is_split)
}

/// The button that shows or hides the note list on small screens.
pub fn sidebar_toggle_button_classes() -> (r: String)
    ensures
        r@ == "pointer-events-auto inline-flex h-11 w-11 items-center justify-center rounded-md shadow-sm lg:hidden "@
            + surface_classes(ThemeSurface::EditorChrome) + " "@ + accent_classes(
            ThemeAccent::PrimaryText,
        ),
{
    let mut r = String::from_str("pointer-events-auto inline-flex h-11 w-11 items-center justify-center rounded-md shadow-sm lg:hidden ");
    r.append(ThemeSurface::EditorChrome.classes());
    r.append(" ");
    r.append(ThemeAccent::PrimaryText.classes());
    r
}

/// The editor's footer: the compact footer recipe.
pub fn editor_area_footer_classes() -> (r: String)
    ensures
        r@ == "h-[45px] shrink-0 gap-x-2 gap-y-1 border-t border-apple-gray-300 px-3 py-1.5 text-[11px] leading-4 dark:border-apple-dark-border flex flex-wrap items-center justify-center "@
            + surface_classes(ThemeSurface::EditorChrome),
{
    editor_footer()
}

/// The row of view-mode buttons: the compact controls recipe.
pub fn editor_view_controls_classes() -> (r: &'static str)
    ensures
        r@ == "flex min-w-0 flex-wrap items-center justify-center gap-x-2 gap-y-1"@,
{
    compact_controls()
}

/// The formatting toolbar, part of the writing surface.
pub fn formatting_tools_classes() -> (r: String)
    ensures
        r@ == "flex items-center space-x-1 border-y border-apple-gray-200 px-6 py-1.5 md:px-8 dark:border-apple-dark-border "@
            + surface_classes(ThemeSurface::EditorChrome),
{
    let mut r = String::from_str("flex items-center space-x-1 border-y border-apple-gray-200 px-6 py-1.5 md:px-8 dark:border-apple-dark-border ");
    r.append(ThemeSurface::EditorChrome.classes());
    r
}

/// A formatting toolbar button.
pub fn formatting_tool_button_classes() -> (r: String)
    ensures
        r@ == "inline-flex h-9 min-w-[2.25rem] items-center justify-center rounded-md px-2.5 py-2 md:h-auto md:min-w-0 md:p-1.5 "@
            + state_classes(ThemeState::ToolbarButton),
{
    let mut r = String::from_str("inline-flex h-9 min-w-[2.25rem] items-center justify-center rounded-md px-2.5 py-2 md:h-auto md:min-w-0 md:p-1.5 ");
    r.append(ThemeState::ToolbarButton.classes());
    r
}

/// The Markdown help button: the compact help button recipe.
pub fn markdown_help_button_classes() -> (r: String)
    ensures
        r@ == "inline-flex h-9 w-9 items-center justify-center rounded-md px-0 text-xs transition-colors md:h-auto md:w-auto md:px-1.5 md:py-0.5 md:text-[11px] "@
            + state_classes(ThemeState::SegmentedIdle),
{
    compact_help_button()
}

/// The type scale of the title input: smaller beside the preview.
pub open spec fn title_scale(is_split: bool) -> Seq<char> {
    if is_split {
        "text-xl md:text-2xl"@
    } else {
        "text-2xl md:text-3xl"@
    }
}

/// The title input, which wraps long titles.
pub fn note_title_textarea_classes(is_split: bool) -> (r: String)
    ensures
        r@ == "w-full min-w-0 resize-none overflow-hidden break-words whitespace-pre-wrap [field-sizing:content] "@
            + title_scale(is_split) + " font-bold leading-tight focus:outline-none bg-transparent "@
            + text_classes(ThemeText::Primary) + " "@ + text_classes(ThemeText::Placeholder),
{
    let scale = if is_split {
        "text-xl md:text-2xl"
    } else {
        "text-2xl md:text-3xl"
    };
    let mut r = String::from_str("w-full min-w-0 resize-none overflow-hidden break-words whitespace-pre-wrap [field-sizing:content] ");
    r.append(scale);
    r.append(" font-bold leading-tight focus:outline-none bg-transparent ");
    r.append(ThemeText::Primary.classes());
    r.append(" ");
    r.append(ThemeText::Placeholder.classes());
    r
}

/// The tag input.
pub fn tag_input_classes() -> (r: String)
    ensures
        r@ == "w-full max-w-xl px-0 py-1 text-sm focus:outline-none bg-transparent placeholder-gray-400 dark:placeholder-gray-600 "@
            + text_classes(ThemeText::Muted),
{
    let mut r = String::from_str("w-full max-w-xl px-0 py-1 text-sm focus:outline-none bg-transparent placeholder-gray-400 dark:placeholder-gray-600 ");
    r.append(ThemeText::Muted.classes());
    r
}

/// The button that opens tag editing.
pub fn edit_tags_button_classes() -> (r: String)
    ensures
        r@ == "inline-flex h-9 items-center rounded-md px-3 text-xs md:h-auto md:px-2 md:py-0.5 "@
            + state_classes(ThemeState::SegmentedIdle),
{
    let mut r = String::from_str("inline-flex h-9 items-center rounded-md px-3 text-xs md:h-auto md:px-2 md:py-0.5 ");
    r.append(ThemeState::SegmentedIdle.classes());
    r
}

/// The Markdown body input, on the preview's type scale.
pub fn editor_body_textarea_classes() -> (r: String)
    ensures
        r@ == "flex-1 w-full max-w-[56rem] px-6 pb-8 pt-3 md:px-8 text-base leading-7 focus:outline-none resize-none bg-transparent font-mono dark:text-gray-300 "@
            + accent_classes(ThemeAccent::Selection),
{
    let mut r = String::from_str("flex-1 w-full max-w-[56rem] px-6 pb-8 pt-3 md:px-8 text-base leading-7 focus:outline-none resize-none bg-transparent font-mono dark:text-gray-300 ");
    r.append(ThemeAccent::Selection.classes());
    r
}

/// The preview pane; beside the writing surface it is inset and bordered.
pub fn preview_pane_classes(is_split: bool) -> (r: String)
    ensures
        r@ == if is_split {
            "flex-1 px-6 pb-8 pt-7 md:px-8 md:pt-8 overflow-y-auto prose prose-base max-w-none break-words shadow-inner border-l transition-colors "@
                + surface_classes(ThemeSurface::SplitPreview)
        } else {
            "flex-1 px-6 pb-8 pt-7 md:px-8 md:pt-8 overflow-y-auto prose prose-base max-w-none break-words transition-colors "@
                + surface_classes(ThemeSurface::Preview)
        },
{
    if is_split {
        let mut r = String::from_str("flex-1 px-6 pb-8 pt-7 md:px-8 md:pt-8 overflow-y-auto prose prose-base max-w-none break-words shadow-inner border-l transition-colors ");
        r.append(ThemeSurface::SplitPreview.classes());
        r
    } else {
        let mut r = String::from_str("flex-1 px-6 pb-8 pt-7 md:px-8 md:pt-8 overflow-y-auto prose prose-base max-w-none break-words transition-colors ");
        r.append(ThemeSurface::Preview.classes());
        r
    }
}

} // verus!
