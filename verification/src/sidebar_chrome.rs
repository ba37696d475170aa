//! Classes of the sidebar: its open and closed states, the search syntax
//! hint, the backup footer and note titles.
use vstd::prelude::*;
use crate::theme::{
    ThemeState, ThemeSurface, ThemeText, state_classes, surface_classes, text_classes,
};

verus! {

broadcast use vstd::string::group_string_axioms;

/// The sidebar's frame, whatever its state.
pub const SIDEBAR_BASE_CLASS: &'static str = "fixed inset-y-0 left-0 z-30 transform transition-all duration-300 ease-in-out lg:relative lg:translate-x-0 flex flex-col h-full border-r";

/// Open, the sidebar fills small screens and is a column on wide ones;
/// closed, it slides away.
pub fn sidebar_state_class(is_open: bool) -> (r: &'static str)
    ensures
        r@ == if is_open {
            "translate-x-0 w-full max-w-full lg:w-80"@
        } else {
            "-translate-x-full w-0 overflow-hidden"@
        },
{
    if is_open {
        "translate-x-0 w-full max-w-full lg:w-80"
    } else {
        "-translate-x-full w-0 overflow-hidden"
    }
}

/// The search syntax hint, a layer over the list.
pub fn search_syntax_hint_classes() -> (r: String)
    ensures
        r@ == "absolute left-0 right-0 top-full z-30 mt-2 rounded-md border p-3 text-xs shadow-lg "@
            + surface_classes(ThemeSurface::EditorChrome),
{
    let mut r = String::from_str("absolute left-0 right-0 top-full z-30 mt-2 rounded-md border p-3 text-xs shadow-lg ");
    r.append(ThemeSurface::EditorChrome.classes());
    r
}

/// The sidebar footer, one row holding the backup controls.
pub fn sidebar_footer_classes() -> (r: String)
    ensures
        r@ == "h-12 gap-2 px-4 border-t border-apple-gray-300 dark:border-apple-dark-border flex items-center text-xs "@
            + text_classes(ThemeText::Subtle),
{
    let mut r = String::from_str("h-12 gap-2 px-4 border-t border-apple-gray-300 dark:border-apple-dark-border flex items-center text-xs ");
    r.append(ThemeText::Subtle.classes());
    r
}

/// A backup button in the footer.
pub fn backup_footer_button_classes() -> (r: String)
    ensures
        r@ == "cursor-pointer rounded-md px-2 py-1 text-xs "@ + state_classes(ThemeState::SegmentedIdle),
{
    let mut r = String::from_str("cursor-pointer rounded-md px-2 py-1 text-xs ");
    r.append(ThemeState::SegmentedIdle.classes());
    r
}

/// A note title in the list, which truncates inside its row.
pub fn note_list_title_classes() -> (r: String)
    ensures
        r@ == "min-w-0 flex-1 truncate pr-2 font-semibold "@ + text_classes(ThemeText::Primary),
{
    let mut r = String::from_str("min-w-0 flex-1 truncate pr-2 font-semibold ");
    r.append(ThemeText::Primary.classes());
    r
}

} // verus!
