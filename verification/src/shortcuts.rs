//! Keyboard shortcuts and keys with a meaning.
use vstd::prelude::*;

verus! {

broadcast use vstd::string::group_string_axioms;

/// The quick-capture key is `n` or `N`, alone.
pub open spec fn is_capture_key(key: Seq<char>) -> bool {
    key == "n"@ || key == "N"@
}

/// Quick capture is the primary modifier (Ctrl or Cmd) with `n`, without
/// Alt or Shift.
pub open spec fn quick_capture(key: Seq<char>, ctrl_key: bool, meta_key: bool, alt_key: bool, shift_key: bool) -> bool {
    is_capture_key(key) && (ctrl_key || meta_key) && !alt_key && !shift_key
}

/// Whether a key press asks for quick capture.
pub fn is_quick_capture_shortcut(
    key: &str,
    ctrl_key: bool,
    meta_key: bool,
    alt_key: bool,
    shift_key: bool,
) -> (r: bool)
    ensures
        r == quick_capture(key@, ctrl_key, meta_key, alt_key, shift_key),
{
    proof {
        reveal_strlit("n");
        reveal_strlit("N");
    }
    let n = key.unicode_len();
    let is_n = if n == 1 {
        let c = key.get_char(0);
        assert(key@ =~= seq![c]);
        assert("n"@ =~= seq!['n']);
        assert("N"@ =~= seq!['N']);
        c == 'n' || c == 'N'
    } else {
        assert("n"@.len() == 1 && "N"@.len() == 1);
        false
    };
    is_n && (ctrl_key || meta_key) && !alt_key && !shift_key
}

/// In the tag entry, Enter and Tab accept the first suggestion.
pub fn accepts_tag_suggestion(key: &str) -> (r: bool)
    ensures
        r == (key@ == "Enter"@ || key@ == "Tab"@),
{
    crate::text::str_equal(key, "Enter") || crate::text::str_equal(key, "Tab")
}

} // verus!
