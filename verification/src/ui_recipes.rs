//! The compact recipe set of the single-column layout, with its own
//! palette for primary text, the active view-mode button and note rows.
use vstd::prelude::*;
use crate::theme::{ThemeState, ThemeSurface, ThemeText, state_classes, surface_classes, text_classes};

verus! {

broadcast use vstd::string::group_string_axioms;

/// Primary text in this recipe set.
pub const SINGLE_COLUMN_PRIMARY_TEXT: &'static str = "text-gray-900 dark:text-white";

/// The active view-mode button in this recipe set.
pub const SINGLE_COLUMN_SEGMENTED_ACTIVE: &'static str = "border bg-apple-yellow/10 border-apple-yellow text-yellow-700 dark:bg-apple-yellow/20 dark:border-apple-yellow dark:text-yellow-300";

/// A selected note row in this recipe set.
pub const SINGLE_COLUMN_NOTE_ROW_SELECTED: &'static str = "border-l-4 border-apple-yellow bg-apple-yellow/10 ring-1 ring-apple-yellow/30 dark:bg-apple-yellow/20";

/// An unselected note row in this recipe set.
pub const SINGLE_COLUMN_NOTE_ROW_IDLE: &'static str = "border-apple-gray-200 hover:bg-apple-gray-200 dark:border-apple-dark-border dark:hover:bg-white/5";

/// The `search_hint` class recipe.
pub fn search_hint() -> (r: String)
    ensures
        r@ == "absolute left-0 right-0 top-full z-30 mt-1.5 rounded-md border p-2 text-[11px] shadow-sm "@ + surface_classes(ThemeSurface::EditorChrome) + " "@ + SINGLE_COLUMN_PRIMARY_TEXT@,
{
    let mut r = String::from_str("absolute left-0 right-0 top-full z-30 mt-1.5 rounded-md border p-2 text-[11px] shadow-sm ");
    r.append(ThemeSurface::EditorChrome.classes());
    r.append(" ");
    r.append(SINGLE_COLUMN_PRIMARY_TEXT);
    r
}

/// The `search_input` class recipe.
pub fn search_input() -> (r: String)
    ensures
        r@ == "w-full rounded-lg bg-apple-gray-200/70 py-1.5 pl-10 pr-10 text-sm text-gray-900 placeholder:text-gray-400 transition-colors focus:bg-apple-gray-200 focus:outline-none dark:bg-white/10 dark:text-gray-100 dark:placeholder:text-gray-500 dark:focus:bg-white/15"@,
{
    String::from_str("w-full rounded-lg bg-apple-gray-200/70 py-1.5 pl-10 pr-10 text-sm text-gray-900 placeholder:text-gray-400 transition-colors focus:bg-apple-gray-200 focus:outline-none dark:bg-white/10 dark:text-gray-100 dark:placeholder:text-gray-500 dark:focus:bg-white/15")
}

/// The `search_clear_button` class recipe.
pub fn search_clear_button() -> (r: String)
    ensures
        r@ == "absolute inset-y-0 right-1 my-auto inline-flex h-7 w-7 items-center justify-center rounded-md text-gray-400 transition-colors hover:bg-apple-gray-300/70 hover:text-gray-700 focus:outline-none focus:ring-2 focus:ring-apple-yellow focus:ring-offset-1 dark:text-gray-500 dark:hover:bg-white/10 dark:hover:text-gray-200 dark:focus:ring-offset-apple-dark-sidebar"@,
{
    String::from_str("absolute inset-y-0 right-1 my-auto inline-flex h-7 w-7 items-center justify-center rounded-md text-gray-400 transition-colors hover:bg-apple-gray-300/70 hover:text-gray-700 focus:outline-none focus:ring-2 focus:ring-apple-yellow focus:ring-offset-1 dark:text-gray-500 dark:hover:bg-white/10 dark:hover:text-gray-200 dark:focus:ring-offset-apple-dark-sidebar")
}

/// The `search_hint_code` class recipe.
pub fn search_hint_code() -> (r: String)
    ensures
        r@ == "rounded bg-apple-gray-200/70 px-1 py-0.5 text-gray-700 dark:bg-white/10 dark:text-gray-200"@,
{
    String::from_str("rounded bg-apple-gray-200/70 px-1 py-0.5 text-gray-700 dark:bg-white/10 dark:text-gray-200")
}

/// The `app_title_text` class recipe.
pub fn app_title_text() -> (r: String)
    ensures
        r@ == "text-xl font-bold leading-[1.3] "@ + SINGLE_COLUMN_PRIMARY_TEXT@,
{
    let mut r = String::from_str("text-xl font-bold leading-[1.3] ");
    r.append(SINGLE_COLUMN_PRIMARY_TEXT);
    r
}

/// The `note_title_text` class recipe.
pub fn note_title_text() -> (r: &'static str)
    ensures
        r@ == "text-2xl font-bold leading-tight md:text-3xl"@,
{
    "text-2xl font-bold leading-tight md:text-3xl"
}

/// The `preview_title_text` class recipe.
pub fn preview_title_text() -> (r: &'static str)
    ensures
        r@ == "text-2xl font-bold leading-tight md:text-3xl"@,
{
    note_title_text()
}

/// The `empty_state_title_text` class recipe.
pub fn empty_state_title_text() -> (r: String)
    ensures
        r@ == "text-2xl font-semibold leading-8 "@ + SINGLE_COLUMN_PRIMARY_TEXT@,
{
    let mut r = String::from_str("text-2xl font-semibold leading-8 ");
    r.append(SINGLE_COLUMN_PRIMARY_TEXT);
    r
}

/// The `empty_state_body_text` class recipe.
pub fn empty_state_body_text() -> (r: &'static str)
    ensures
        r@ == "mt-2 text-sm leading-6"@,
{
    "mt-2 text-sm leading-6"
}

/// The `empty_state_placeholder_text` class recipe.
pub fn empty_state_placeholder_text() -> (r: &'static str)
    ensures
        r@ == "text-xl font-semibold leading-7"@,
{
    "text-xl font-semibold leading-7"
}

/// The `note_list_title_text` class recipe.
pub fn note_list_title_text() -> (r: String)
    ensures
        r@ == "min-w-0 flex-1 truncate pr-2 text-sm font-semibold leading-5 "@ + SINGLE_COLUMN_PRIMARY_TEXT@,
{
    let mut r = String::from_str("min-w-0 flex-1 truncate pr-2 text-sm font-semibold leading-5 ");
    r.append(SINGLE_COLUMN_PRIMARY_TEXT);
    r
}

/// The `note_list_meta_row` class recipe.
pub fn note_list_meta_row() -> (r: &'static str)
    ensures
        r@ == "mt-1 flex space-x-2 text-[13px] leading-5"@,
{
    "mt-1 flex space-x-2 text-[13px] leading-5"
}

/// The `editor_body_text` class recipe.
pub fn editor_body_text() -> (r: &'static str)
    ensures
        r@ == "text-base leading-7 font-mono"@,
{
    "text-base leading-7 font-mono"
}

/// The `preview_body_text` class recipe.
pub fn preview_body_text() -> (r: &'static str)
    ensures
        r@ == "prose prose-base prose-yellow w-full max-w-[72ch] dark:prose-invert"@,
{
    "prose prose-base prose-yellow w-full max-w-[72ch] dark:prose-invert"
}

/// The `note_measure` class recipe.
pub fn note_measure() -> (r: &'static str)
    ensures
        r@ == "w-full max-w-[72ch]"@,
{
    "w-full max-w-[72ch]"
}

/// The `sidebar_footer` class recipe.
pub fn sidebar_footer() -> (r: String)
    ensures
        r@ == "h-[45px] shrink-0 gap-2 px-3 py-1.5 border-t border-apple-gray-300 dark:border-apple-dark-border flex items-center justify-between text-[11px] leading-4 "@ + text_classes(ThemeText::Subtle),
{
    let mut r = String::from_str("h-[45px] shrink-0 gap-2 px-3 py-1.5 border-t border-apple-gray-300 dark:border-apple-dark-border flex items-center justify-between text-[11px] leading-4 ");
    r.append(ThemeText::Subtle.classes());
    r
}

/// The `backup_footer_label` class recipe.
pub fn backup_footer_label() -> (r: String)
    ensures
        r@ == "truncate text-xs font-semibold "@ + SINGLE_COLUMN_PRIMARY_TEXT@,
{
    let mut r = String::from_str("truncate text-xs font-semibold ");
    r.append(SINGLE_COLUMN_PRIMARY_TEXT);
    r
}

/// The `backup_footer_summary` class recipe.
pub fn backup_footer_summary() -> (r: String)
    ensures
        r@ == "truncate text-[11px] leading-4 "@ + text_classes(ThemeText::Subtle),
{
    let mut r = String::from_str("truncate text-[11px] leading-4 ");
    r.append(ThemeText::Subtle.classes());
    r
}

/// The `backup_import_preview` class recipe.
pub fn backup_import_preview() -> (r: String)
    ensures
        r@ == "border-t border-apple-gray-300 px-4 py-3 text-xs leading-5 dark:border-apple-dark-border "@ + surface_classes(ThemeSurface::EditorChrome),
{
    let mut r = String::from_str("border-t border-apple-gray-300 px-4 py-3 text-xs leading-5 dark:border-apple-dark-border ");
    r.append(ThemeSurface::EditorChrome.classes());
    r
}

/// The `editor_footer` class recipe.
pub fn editor_footer() -> (r: String)
    ensures
        r@ == "h-[45px] shrink-0 gap-x-2 gap-y-1 border-t border-apple-gray-300 px-3 py-1.5 text-[11px] leading-4 dark:border-apple-dark-border flex flex-wrap items-center justify-center "@ + surface_classes(ThemeSurface::EditorChrome),
{
    let mut r = String::from_str("h-[45px] shrink-0 gap-x-2 gap-y-1 border-t border-apple-gray-300 px-3 py-1.5 text-[11px] leading-4 dark:border-apple-dark-border flex flex-wrap items-center justify-center ");
    r.append(ThemeSurface::EditorChrome.classes());
    r
}

/// The `compact_controls` class recipe.
pub fn compact_controls() -> (r: &'static str)
    ensures
        r@ == "flex min-w-0 flex-wrap items-center justify-center gap-x-2 gap-y-1"@,
{
    "flex min-w-0 flex-wrap items-center justify-center gap-x-2 gap-y-1"
}

/// The classes of the segmented view-mode button.
pub open spec fn segmented_button_classes(is_active: bool, is_desktop_only: bool) -> Seq<char> {
    (if is_desktop_only {
        "hidden lg:inline-flex"@
    } else {
        "inline-flex"@
    }) + " h-9 min-w-[2.25rem] items-center justify-center rounded-md px-3 text-xs transition-colors md:h-auto md:min-w-0 md:px-1.5 md:py-0.5 md:text-[11px] "@
        + (if is_active {
        SINGLE_COLUMN_SEGMENTED_ACTIVE@
    } else {
        state_classes(ThemeState::SegmentedIdle)
    })
}

/// The `compact_segmented_button` class recipe.
pub fn compact_segmented_button(is_active: bool, is_desktop_only: bool) -> (r: String)
    ensures
        r@ == segmented_button_classes(is_active, is_desktop_only),
{
    let visibility = if is_desktop_only {
        "hidden lg:inline-flex"
    } else {
        "inline-flex"
    };
    let state = if is_active {
        SINGLE_COLUMN_SEGMENTED_ACTIVE
    } else {
        ThemeState::SegmentedIdle.classes()
    };
    let mut r = String::from_str(visibility);
    r.append(" h-9 min-w-[2.25rem] items-center justify-center rounded-md px-3 text-xs transition-colors md:h-auto md:min-w-0 md:px-1.5 md:py-0.5 md:text-[11px] ");
    r.append(state);
    r
}

/// The `compact_help_button` class recipe.
pub fn compact_help_button() -> (r: String)
    ensures
        r@ == "inline-flex h-9 w-9 items-center justify-center rounded-md px-0 text-xs transition-colors md:h-auto md:w-auto md:px-1.5 md:py-0.5 md:text-[11px] "@ + state_classes(ThemeState::SegmentedIdle),
{
    let mut r = String::from_str("inline-flex h-9 w-9 items-center justify-center rounded-md px-0 text-xs transition-colors md:h-auto md:w-auto md:px-1.5 md:py-0.5 md:text-[11px] ");
    r.append(ThemeState::SegmentedIdle.classes());
    r
}

/// The `backup_footer_button` class recipe.
pub fn backup_footer_button() -> (r: String)
    ensures
        r@ == "inline-flex h-7 cursor-pointer items-center rounded-md px-2 text-[11px] md:h-auto md:px-1.5 md:py-0.5 "@ + state_classes(ThemeState::SegmentedIdle),
{
    let mut r = String::from_str("inline-flex h-7 cursor-pointer items-center rounded-md px-2 text-[11px] md:h-auto md:px-1.5 md:py-0.5 ");
    r.append(ThemeState::SegmentedIdle.classes());
    r
}

/// The `danger_footer_button` class recipe.
pub fn danger_footer_button() -> (r: String)
    ensures
        r@ == "ml-auto inline-flex h-8 cursor-pointer items-center rounded-md px-2 py-1 text-[11px] md:h-auto md:px-1.5 md:py-0.5 "@ + state_classes(ThemeState::DangerMenuItem),
{
    let mut r = String::from_str("ml-auto inline-flex h-8 cursor-pointer items-center rounded-md px-2 py-1 text-[11px] md:h-auto md:px-1.5 md:py-0.5 ");
    r.append(ThemeState::DangerMenuItem.classes());
    r
}

/// The `recovery_action_button` class recipe.
pub fn recovery_action_button() -> (r: String)
    ensures
        r@ == "inline-flex h-9 items-center rounded-md px-2.5 text-[11px] md:h-auto md:px-1.5 md:py-0.5 "@ + state_classes(ThemeState::SegmentedIdle),
{
    let mut r = String::from_str("inline-flex h-9 items-center rounded-md px-2.5 text-[11px] md:h-auto md:px-1.5 md:py-0.5 ");
    r.append(ThemeState::SegmentedIdle.classes());
    r
}

/// The `recovery_danger_button` class recipe.
pub fn recovery_danger_button() -> (r: String)
    ensures
        r@ == "inline-flex h-9 items-center rounded-md px-2.5 text-[11px] md:h-auto md:px-1.5 md:py-0.5 "@ + state_classes(ThemeState::DangerMenuItem),
{
    let mut r = String::from_str("inline-flex h-9 items-center rounded-md px-2.5 text-[11px] md:h-auto md:px-1.5 md:py-0.5 ");
    r.append(ThemeState::DangerMenuItem.classes());
    r
}

/// The `tag_pill` class recipe.
pub fn tag_pill() -> (r: String)
    ensures
        r@ == "rounded-full px-2 py-0.5 text-xs "@ + state_classes(ThemeState::TagPill),
{
    let mut r = String::from_str("rounded-full px-2 py-0.5 text-xs ");
    r.append(ThemeState::TagPill.classes());
    r
}

/// The classes of a note-list row.
pub open spec fn note_row_classes(is_selected: bool) -> Seq<char> {
    "px-4 py-3 border-b cursor-pointer transition-colors duration-200 ease-out group "@ + (if is_selected {
        SINGLE_COLUMN_NOTE_ROW_SELECTED@
    } else {
        SINGLE_COLUMN_NOTE_ROW_IDLE@
    })
}

/// The `note_row` class recipe.
pub fn note_row(is_selected: bool) -> (r: String)
    ensures
        r@ == note_row_classes(is_selected),
{
    let state = if is_selected {
        SINGLE_COLUMN_NOTE_ROW_SELECTED
    } else {
        SINGLE_COLUMN_NOTE_ROW_IDLE
    };
    let mut r = String::from_str("px-4 py-3 border-b cursor-pointer transition-colors duration-200 ease-out group ");
    r.append(state);
    r
}

} // verus!
