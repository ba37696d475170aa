//! Class recipes for the app's components, built from the theme and shared
//! typography, spacing and sizing tokens.
use vstd::prelude::*;
use crate::theme::{ThemeState, ThemeSurface, ThemeText, state_classes, surface_classes, text_classes};

verus! {

broadcast use vstd::string::group_string_axioms;

pub const COMPACT_FOOTER_HEIGHT_CLASS: &'static str = "h-[45px]";

pub const NOTE_MEASURE_CLASS: &'static str = "w-full max-w-[72ch]";

pub const PANE_INLINE_INSET_CLASS: &'static str = "px-6 md:px-8";

pub const PANE_TOP_INSET_CLASS: &'static str = "pt-4 md:pt-5";

pub const UI_LABEL_TEXT_CLASS: &'static str = "text-[11px] leading-4";

pub const UI_CONTROL_TEXT_CLASS: &'static str = "text-xs leading-4 md:text-[11px]";

pub const UI_BODY_TEXT_CLASS: &'static str = "text-sm leading-6";

/// The `ui_label_text` class recipe.
pub fn ui_label_text() -> (r: &'static str)
    ensures
        r@ == UI_LABEL_TEXT_CLASS@,
{
    UI_LABEL_TEXT_CLASS
}

/// The `ui_control_text` class recipe.
pub fn ui_control_text() -> (r: &'static str)
    ensures
        r@ == UI_CONTROL_TEXT_CLASS@,
{
    UI_CONTROL_TEXT_CLASS
}

/// The `ui_body_text` class recipe.
pub fn ui_body_text() -> (r: &'static str)
    ensures
        r@ == UI_BODY_TEXT_CLASS@,
{
    UI_BODY_TEXT_CLASS
}

/// The `modal_title_text` class recipe.
pub fn modal_title_text() -> (r: String)
    ensures
        r@ == "text-xl font-semibold leading-7 "@ + text_classes(ThemeText::Primary),
{
    let mut r = String::from_str("text-xl font-semibold leading-7 ");
    r.append(ThemeText::Primary.classes());
    r
}

/// The `modal_description_text` class recipe.
pub fn modal_description_text() -> (r: String)
    ensures
        r@ == "mt-1 "@ + UI_BODY_TEXT_CLASS@ + " "@ + text_classes(ThemeText::Muted),
{
    let mut r = String::from_str("mt-1 ");
    r.append(UI_BODY_TEXT_CLASS);
    r.append(" ");
    r.append(ThemeText::Muted.classes());
    r
}

/// The `modal_body_text` class recipe.
pub fn modal_body_text() -> (r: &'static str)
    ensures
        r@ == UI_BODY_TEXT_CLASS@,
{
    UI_BODY_TEXT_CLASS
}

/// The `button_label_text` class recipe.
pub fn button_label_text() -> (r: &'static str)
    ensures
        r@ == "text-xs font-semibold leading-4"@,
{
    "text-xs font-semibold leading-4"
}

/// The `search_hint` class recipe.
pub fn search_hint() -> (r: String)
    ensures
        r@ == "pointer-events-none absolute left-0 right-0 top-full z-30 mt-1.5 rounded-md border p-2 "@ + UI_LABEL_TEXT_CLASS@ + " shadow-sm "@ + surface_classes(ThemeSurface::EditorChrome) + " "@ + text_classes(ThemeText::Primary),
{
    let mut r = String::from_str("pointer-events-none absolute left-0 right-0 top-full z-30 mt-1.5 rounded-md border p-2 ");
    r.append(UI_LABEL_TEXT_CLASS);
    r.append(" shadow-sm ");
    r.append(ThemeSurface::EditorChrome.classes());
    r.append(" ");
    r.append(ThemeText::Primary.classes());
    r
}

/// The `search_input` class recipe.
pub fn search_input() -> (r: String)
    ensures
        r@ == "w-full rounded-lg bg-apple-notebook-border/70 py-1.5 pl-10 pr-10 text-sm leading-5 text-apple-notebook-graphite placeholder:text-gray-400 transition-colors focus:bg-apple-notebook-border focus:outline-none dark:bg-white/10 dark:text-gray-100 dark:placeholder:text-gray-500 dark:focus:bg-white/15"@,
{
    String::from_str("w-full rounded-lg bg-apple-notebook-border/70 py-1.5 pl-10 pr-10 text-sm leading-5 text-apple-notebook-graphite placeholder:text-gray-400 transition-colors focus:bg-apple-notebook-border focus:outline-none dark:bg-white/10 dark:text-gray-100 dark:placeholder:text-gray-500 dark:focus:bg-white/15")
}

/// The `search_clear_button` class recipe.
pub fn search_clear_button() -> (r: String)
    ensures
        r@ == "absolute inset-y-0 right-1 my-auto inline-flex h-7 w-7 items-center justify-center rounded-md text-gray-400 transition-colors hover:bg-apple-notebook-borderStrong hover:text-apple-notebook-graphite focus:outline-none focus:ring-2 focus:ring-apple-notebook-amber focus:ring-offset-1 dark:text-gray-500 dark:hover:bg-white/10 dark:hover:text-gray-200 dark:focus:ring-offset-apple-notebook-darkSidebar"@,
{
    String::from_str("absolute inset-y-0 right-1 my-auto inline-flex h-7 w-7 items-center justify-center rounded-md text-gray-400 transition-colors hover:bg-apple-notebook-borderStrong hover:text-apple-notebook-graphite focus:outline-none focus:ring-2 focus:ring-apple-notebook-amber focus:ring-offset-1 dark:text-gray-500 dark:hover:bg-white/10 dark:hover:text-gray-200 dark:focus:ring-offset-apple-notebook-darkSidebar")
}

/// The `search_hint_code` class recipe.
pub fn search_hint_code() -> (r: String)
    ensures
        r@ == "rounded bg-apple-notebook-border px-1 py-0.5 text-apple-notebook-graphite dark:bg-white/10 dark:text-gray-200"@,
{
    String::from_str("rounded bg-apple-notebook-border px-1 py-0.5 text-apple-notebook-graphite dark:bg-white/10 dark:text-gray-200")
}

/// The `app_title_text` class recipe.
pub fn app_title_text() -> (r: String)
    ensures
        r@ == "text-xl font-bold leading-[1.3] "@ + text_classes(ThemeText::Primary),
{
    let mut r = String::from_str("text-xl font-bold leading-[1.3] ");
    r.append(ThemeText::Primary.classes());
    r
}

/// The `note_title_text` class recipe.
pub fn note_title_text() -> (r: &'static str)
    ensures
        r@ == "text-xl font-semibold leading-7 md:text-2xl"@,
{
    "text-xl font-semibold leading-7 md:text-2xl"
}

/// The `preview_title_text` class recipe.
pub fn preview_title_text() -> (r: &'static str)
    ensures
        r@ == "text-xl font-semibold leading-7 md:text-2xl"@,
{
    note_title_text()
}

/// The `empty_state_title_text` class recipe.
pub fn empty_state_title_text() -> (r: String)
    ensures
        r@ == "text-2xl font-semibold leading-8 "@ + text_classes(ThemeText::Primary),
{
    let mut r = String::from_str("text-2xl font-semibold leading-8 ");
    r.append(ThemeText::Primary.classes());
    r
}

/// The `empty_state_body_text` class recipe.
pub fn empty_state_body_text() -> (r: &'static str)
    ensures
        r@ == "mt-2 text-sm leading-6"@,
{
    "mt-2 text-sm leading-6"
}

/// The `empty_state_placeholder_text` class recipe.
pub fn empty_state_placeholder_text() -> (r: &'static str)
    ensures
        r@ == "text-xl font-semibold leading-7"@,
{
    "text-xl font-semibold leading-7"
}

/// The `note_list_title_text` class recipe.
pub fn note_list_title_text() -> (r: String)
    ensures
        r@ == "min-w-0 flex-1 truncate pr-2 text-sm font-semibold leading-5 "@ + text_classes(ThemeText::Primary),
{
    let mut r = String::from_str("min-w-0 flex-1 truncate pr-2 text-sm font-semibold leading-5 ");
    r.append(ThemeText::Primary.classes());
    r
}

/// The `note_list_meta_row` class recipe.
pub fn note_list_meta_row() -> (r: &'static str)
    ensures
        r@ == "mt-0.5 flex space-x-2 text-[11px] leading-4"@,
{
    "mt-0.5 flex space-x-2 text-[11px] leading-4"
}

/// The `editor_body_text` class recipe.
pub fn editor_body_text() -> (r: &'static str)
    ensures
        r@ == "text-sm leading-6 font-mono"@,
{
    "text-sm leading-6 font-mono"
}

/// The `preview_body_text` class recipe.
pub fn preview_body_text() -> (r: &'static str)
    ensures
        r@ == "prose prose-sm prose-yellow w-full max-w-[72ch] dark:prose-invert"@,
{
    "prose prose-sm prose-yellow w-full max-w-[72ch] dark:prose-invert"
}

/// The `note_measure` class recipe.
pub fn note_measure() -> (r: &'static str)
    ensures
        r@ == NOTE_MEASURE_CLASS@,
{
    NOTE_MEASURE_CLASS
}

/// The `pane_inline_inset` class recipe.
pub fn pane_inline_inset() -> (r: &'static str)
    ensures
        r@ == PANE_INLINE_INSET_CLASS@,
{
    PANE_INLINE_INSET_CLASS
}

/// The `pane_top_inset` class recipe.
pub fn pane_top_inset() -> (r: &'static str)
    ensures
        r@ == PANE_TOP_INSET_CLASS@,
{
    PANE_TOP_INSET_CLASS
}

/// The `sidebar_footer` class recipe.
pub fn sidebar_footer() -> (r: String)
    ensures
        r@ == COMPACT_FOOTER_HEIGHT_CLASS@ + " shrink-0 gap-2 px-3 py-1.5 border-t border-apple-notebook-borderStrong dark:border-apple-notebook-darkBorder flex items-center justify-between "@ + UI_LABEL_TEXT_CLASS@ + " "@ + text_classes(ThemeText::Subtle),
{
    let mut r = String::from_str(COMPACT_FOOTER_HEIGHT_CLASS);
    r.append(" shrink-0 gap-2 px-3 py-1.5 border-t border-apple-notebook-borderStrong dark:border-apple-notebook-darkBorder flex items-center justify-between ");
    r.append(UI_LABEL_TEXT_CLASS);
    r.append(" ");
    r.append(ThemeText::Subtle.classes());
    r
}

/// The `backup_footer_label` class recipe.
pub fn backup_footer_label() -> (r: String)
    ensures
        r@ == "truncate font-semibold "@ + UI_LABEL_TEXT_CLASS@ + " "@ + text_classes(ThemeText::Primary),
{
    let mut r = String::from_str("truncate font-semibold ");
    r.append(UI_LABEL_TEXT_CLASS);
    r.append(" ");
    r.append(ThemeText::Primary.classes());
    r
}

/// The `backup_footer_summary` class recipe.
pub fn backup_footer_summary() -> (r: String)
    ensures
        r@ == "inline-flex min-w-0 items-center gap-1 truncate "@ + UI_LABEL_TEXT_CLASS@ + " "@ + text_classes(ThemeText::Subtle),
{
    let mut r = String::from_str("inline-flex min-w-0 items-center gap-1 truncate ");
    r.append(UI_LABEL_TEXT_CLASS);
    r.append(" ");
    r.append(ThemeText::Subtle.classes());
    r
}

/// The `backup_footer_missing_status_dot` class recipe.
pub fn backup_footer_missing_status_dot() -> (r: &'static str)
    ensures
        r@ == "h-1.5 w-1.5 shrink-0 rounded-full bg-apple-notebook-muted/60"@,
{
    "h-1.5 w-1.5 shrink-0 rounded-full bg-apple-notebook-muted/60"
}

/// The `backup_footer_recent_status_dot` class recipe.
pub fn backup_footer_recent_status_dot() -> (r: &'static str)
    ensures
        r@ == "h-1.5 w-1.5 shrink-0 rounded-full bg-emerald-500"@,
{
    "h-1.5 w-1.5 shrink-0 rounded-full bg-emerald-500"
}

/// The `backup_footer_stale_status_dot` class recipe.
pub fn backup_footer_stale_status_dot() -> (r: &'static str)
    ensures
        r@ == "h-1.5 w-1.5 shrink-0 rounded-full bg-apple-notebook-amber"@,
{
    "h-1.5 w-1.5 shrink-0 rounded-full bg-apple-notebook-amber"
}

/// The `backup_import_preview` class recipe.
pub fn backup_import_preview() -> (r: String)
    ensures
        r@ == "border-t border-apple-notebook-borderStrong px-4 py-3 "@ + UI_BODY_TEXT_CLASS@ + " dark:border-apple-notebook-darkBorder "@ + surface_classes(ThemeSurface::EditorChrome),
{
    let mut r = String::from_str("border-t border-apple-notebook-borderStrong px-4 py-3 ");
    r.append(UI_BODY_TEXT_CLASS);
    r.append(" dark:border-apple-notebook-darkBorder ");
    r.append(ThemeSurface::EditorChrome.classes());
    r
}

/// The `global_notification_outlet` class recipe.
/// The tone of a global notification.
#[derive(Debug, Clone, Copy, PartialEq, Eq, Structural)]
pub enum GlobalNotificationTone {
    Progress,
    Success,
    Error,
}

/// The `global_notification_outlet` class recipe.
pub fn global_notification_outlet() -> (r: &'static str)
    ensures
        r@ == "pointer-events-none fixed bottom-16 right-3 z-50 flex min-w-0 justify-end sm:bottom-auto sm:right-5 sm:top-5"@,
{
    "pointer-events-none fixed bottom-16 right-3 z-50 flex min-w-0 justify-end sm:bottom-auto sm:right-5 sm:top-5"
}

/// The tone classes of a notification.
pub open spec fn notification_tone_classes(tone: GlobalNotificationTone) -> Seq<char> {
    match tone {
        GlobalNotificationTone::Progress => "border-apple-yellow/40 bg-apple-yellow/10 text-yellow-700 dark:bg-apple-yellow/20 dark:text-yellow-200"@,
        GlobalNotificationTone::Success => "border-emerald-500/30 bg-emerald-500/10 text-emerald-700 dark:bg-emerald-500/15 dark:text-emerald-200"@,
        GlobalNotificationTone::Error => "border-red-500/30 bg-red-500/10 text-red-700 dark:bg-red-500/15 dark:text-red-200"@,
    }
}

/// The `global_notification` class recipe for a tone.
pub fn global_notification(tone: GlobalNotificationTone) -> (r: String)
    ensures
        r@ == "pointer-events-auto max-w-[11rem] truncate rounded-md border px-3 py-1 "@
            + UI_CONTROL_TEXT_CLASS@ + " font-medium shadow-sm "@ + notification_tone_classes(tone),
{
    let tone_classes = match tone {
        GlobalNotificationTone::Progress => "border-apple-yellow/40 bg-apple-yellow/10 text-yellow-700 dark:bg-apple-yellow/20 dark:text-yellow-200",
        GlobalNotificationTone::Success => "border-emerald-500/30 bg-emerald-500/10 text-emerald-700 dark:bg-emerald-500/15 dark:text-emerald-200",
        GlobalNotificationTone::Error => "border-red-500/30 bg-red-500/10 text-red-700 dark:bg-red-500/15 dark:text-red-200",
    };
    let mut r = String::from_str("pointer-events-auto max-w-[11rem] truncate rounded-md border px-3 py-1 ");
    r.append(UI_CONTROL_TEXT_CLASS);
    r.append(" font-medium shadow-sm ");
    r.append(tone_classes);
    r
}

/// The `editor_footer` class recipe.
pub fn editor_footer() -> (r: String)
    ensures
        r@ == COMPACT_FOOTER_HEIGHT_CLASS@ + " shrink-0 gap-x-2 gap-y-1 border-t border-apple-notebook-border px-4 py-1.5 "@ + UI_LABEL_TEXT_CLASS@ + " dark:border-apple-notebook-darkBorder flex items-center justify-between "@ + surface_classes(ThemeSurface::EditorChrome),
{
    let mut r = String::from_str(COMPACT_FOOTER_HEIGHT_CLASS);
    r.append(" shrink-0 gap-x-2 gap-y-1 border-t border-apple-notebook-border px-4 py-1.5 ");
    r.append(UI_LABEL_TEXT_CLASS);
    r.append(" dark:border-apple-notebook-darkBorder flex items-center justify-between ");
    r.append(ThemeSurface::EditorChrome.classes());
    r
}

/// The `compact_controls` class recipe.
pub fn compact_controls() -> (r: &'static str)
    ensures
        r@ == "flex min-w-0 items-center justify-center gap-x-1"@,
{
    "flex min-w-0 items-center justify-center gap-x-1"
}

/// The `editor_footer_stats` class recipe.
pub fn editor_footer_stats() -> (r: String)
    ensures
        r@ == "hidden min-w-0 flex-1 items-center gap-4 truncate sm:flex "@ + text_classes(ThemeText::Muted),
{
    let mut r = String::from_str("hidden min-w-0 flex-1 items-center gap-4 truncate sm:flex ");
    r.append(ThemeText::Muted.classes());
    r
}

/// The `editor_footer_mode_group` class recipe.
pub fn editor_footer_mode_group() -> (r: &'static str)
    ensures
        r@ == "flex min-w-0 flex-none items-center justify-center gap-2"@,
{
    "flex min-w-0 flex-none items-center justify-center gap-2"
}

/// The `editor_footer_mode_label` class recipe.
pub fn editor_footer_mode_label() -> (r: String)
    ensures
        r@ == "hidden sm:inline "@ + text_classes(ThemeText::Muted),
{
    let mut r = String::from_str("hidden sm:inline ");
    r.append(ThemeText::Muted.classes());
    r
}

/// The `editor_footer_spacer` class recipe.
pub fn editor_footer_spacer() -> (r: &'static str)
    ensures
        r@ == "hidden min-w-0 flex-1 sm:block"@,
{
    "hidden min-w-0 flex-1 sm:block"
}

/// The classes of the segmented view-mode button.
pub open spec fn segmented_button_classes(is_active: bool, is_desktop_only: bool) -> Seq<char> {
    (if is_desktop_only {
        "hidden lg:inline-flex"@
    } else {
        "inline-flex"@
    }) + " h-11 min-w-[2.75rem] items-center justify-center rounded-md px-3 "@ + UI_CONTROL_TEXT_CLASS@
        + " transition-colors md:h-6 md:min-w-0 md:px-2 md:py-0 "@ + state_classes(
        if is_active {
            ThemeState::SegmentedActive
        } else {
            ThemeState::SegmentedIdle
        },
    )
}

/// The `compact_segmented_button` class recipe.
pub fn compact_segmented_button(is_active: bool, is_desktop_only: bool) -> (r: String)
    ensures
        r@ == segmented_button_classes(is_active, is_desktop_only),
{
    let visibility = if is_desktop_only {
        "hidden lg:inline-flex"
    } else {
        "inline-flex"
    };
    let state = if is_active {
        ThemeState::SegmentedActive.classes()
    } else {
        ThemeState::SegmentedIdle.classes()
    };
    let mut r = String::from_str(visibility);
    r.append(" h-11 min-w-[2.75rem] items-center justify-center rounded-md px-3 ");
    r.append(UI_CONTROL_TEXT_CLASS);
    r.append(" transition-colors md:h-6 md:min-w-0 md:px-2 md:py-0 ");
    r.append(state);
    r
}

/// The `compact_help_button` class recipe.
pub fn compact_help_button() -> (r: String)
    ensures
        r@ == "inline-flex h-11 w-11 items-center justify-center rounded-md px-0 "@ + UI_CONTROL_TEXT_CLASS@ + " transition-colors md:h-6 md:w-auto md:px-2 md:py-0 "@ + state_classes(ThemeState::SegmentedIdle),
{
    let mut r = String::from_str("inline-flex h-11 w-11 items-center justify-center rounded-md px-0 ");
    r.append(UI_CONTROL_TEXT_CLASS);
    r.append(" transition-colors md:h-6 md:w-auto md:px-2 md:py-0 ");
    r.append(ThemeState::SegmentedIdle.classes());
    r
}

/// The `backup_footer_button` class recipe.
pub fn backup_footer_button() -> (r: String)
    ensures
        r@ == "inline-flex h-11 cursor-pointer items-center rounded-md px-3 "@ + UI_LABEL_TEXT_CLASS@ + " md:h-auto md:px-1.5 md:py-0.5 "@ + state_classes(ThemeState::SegmentedIdle),
{
    let mut r = String::from_str("inline-flex h-11 cursor-pointer items-center rounded-md px-3 ");
    r.append(UI_LABEL_TEXT_CLASS);
    r.append(" md:h-auto md:px-1.5 md:py-0.5 ");
    r.append(ThemeState::SegmentedIdle.classes());
    r
}

/// The `danger_footer_button` class recipe.
pub fn danger_footer_button() -> (r: String)
    ensures
        r@ == "ml-auto inline-flex h-8 cursor-pointer items-center rounded-md px-2 py-1 "@ + UI_LABEL_TEXT_CLASS@ + " md:h-auto md:px-1.5 md:py-0.5 "@ + state_classes(ThemeState::DangerMenuItem),
{
    let mut r = String::from_str("ml-auto inline-flex h-8 cursor-pointer items-center rounded-md px-2 py-1 ");
    r.append(UI_LABEL_TEXT_CLASS);
    r.append(" md:h-auto md:px-1.5 md:py-0.5 ");
    r.append(ThemeState::DangerMenuItem.classes());
    r
}

/// The `recovery_action_button` class recipe.
pub fn recovery_action_button() -> (r: String)
    ensures
        r@ == "inline-flex h-9 items-center rounded-md px-2.5 "@ + UI_LABEL_TEXT_CLASS@ + " md:h-auto md:px-1.5 md:py-0.5 "@ + state_classes(ThemeState::SegmentedIdle),
{
    let mut r = String::from_str("inline-flex h-9 items-center rounded-md px-2.5 ");
    r.append(UI_LABEL_TEXT_CLASS);
    r.append(" md:h-auto md:px-1.5 md:py-0.5 ");
    r.append(ThemeState::SegmentedIdle.classes());
    r
}

/// The `recovery_danger_button` class recipe.
pub fn recovery_danger_button() -> (r: String)
    ensures
        r@ == "inline-flex h-9 items-center rounded-md px-2.5 "@ + UI_LABEL_TEXT_CLASS@ + " md:h-auto md:px-1.5 md:py-0.5 "@ + state_classes(ThemeState::DangerMenuItem),
{
    let mut r = String::from_str("inline-flex h-9 items-center rounded-md px-2.5 ");
    r.append(UI_LABEL_TEXT_CLASS);
    r.append(" md:h-auto md:px-1.5 md:py-0.5 ");
    r.append(ThemeState::DangerMenuItem.classes());
    r
}

/// The `tag_pill` class recipe.
pub fn tag_pill() -> (r: String)
    ensures
        r@ == "inline-flex h-11 items-center rounded-full px-3 py-1 "@ + UI_CONTROL_TEXT_CLASS@ + " md:h-auto md:px-2 md:py-0.5 "@ + state_classes(ThemeState::TagPill),
{
    let mut r = String::from_str("inline-flex h-11 items-center rounded-full px-3 py-1 ");
    r.append(UI_CONTROL_TEXT_CLASS);
    r.append(" md:h-auto md:px-2 md:py-0.5 ");
    r.append(ThemeState::TagPill.classes());
    r
}

/// The classes of a note-list row.
pub open spec fn note_row_classes(is_selected: bool) -> Seq<char> {
    "mx-3 mb-1 rounded-md "@ + (if is_selected {
        "border"@
    } else {
        "border border-transparent"@
    }) + " px-2 py-1 cursor-pointer transition-colors duration-200 ease-out group "@ + state_classes(
        if is_selected {
            ThemeState::NoteRowSelected
        } else {
            ThemeState::NoteRowIdle
        },
    )
}

/// The `note_row` class recipe.
pub fn note_row(is_selected: bool) -> (r: String)
    ensures
        r@ == note_row_classes(is_selected),
{
    let (border_classes, state) = if is_selected {
        ("border", ThemeState::NoteRowSelected.classes())
    } else {
        ("border border-transparent", ThemeState::NoteRowIdle.classes())
    };
    let mut r = String::from_str("mx-3 mb-1 rounded-md ");
    r.append(border_classes);
    r.append(" px-2 py-1 cursor-pointer transition-colors duration-200 ease-out group ");
    r.append(state);
    r
}

} // verus!
