//! Words shown in dialogs: delete confirmations and the about box.
use vstd::prelude::*;
use crate::text::push_char;

verus! {

broadcast use vstd::string::group_string_axioms;

/// The decimal digits of a number, most significant first.
pub open spec fn decimal(n: nat) -> Seq<char>
    decreases n,
{
    if n < 10 {
        seq![(48 + n) as char]
    } else {
        decimal(n / 10) + seq![(48 + n % 10) as char]
    }
}

fn digit_char(d: usize) -> (c: char)
    requires
        d < 10,
    ensures
        c == (48 + d) as char,
{
    (48 + d) as u8 as char
}

/// Appends the decimal digits of a number.
fn push_decimal(s: &mut String, n: usize)
    ensures
        final(s)@ == old(s)@ + decimal(n as nat),
    decreases n,
{
    if n < 10 {
        push_char(s, digit_char(n));
    } else {
        push_decimal(s, n / 10);
        push_char(s, digit_char(n % 10));
    }
}

/// What deleting a note asks: it moves to Recently Deleted.
pub fn delete_confirmation_message(note_title: String) -> (r: String)
    ensures
        r@ == "\""@ + note_title@ + "\" will move to Recently Deleted."@,
{
    let mut r = String::from_str("\"");
    r.append(note_title.as_str());
    r.append("\" will move to Recently Deleted.");
    r
}

/// What clearing Recently Deleted asks, with the number of notes it clears.
pub fn clear_all_recently_deleted_confirmation_message(count: usize) -> (r: String)
    ensures
        r@ == "This will permanently clear "@ + decimal(count as nat) + " recently deleted "@ + (if count
            == 1 {
            "Note"@
        } else {
            "Notes"@
        }) + "."@,
{
    let mut r = String::from_str("This will permanently clear ");
    push_decimal(&mut r, count);
    r.append(" recently deleted ");
    if count == 1 {
        r.append("Note");
    } else {
        r.append("Notes");
    }
    r.append(".");
    r
}

/// The about box's release line: the product name and its version.
pub fn about_app_version_label(version: &str) -> (r: String)
    ensures
        r@ == "Nota "@ + version@,
{
    let mut r = String::from_str("Nota ");
    r.append(version);
    r
}

/// Where the about box says the notes are kept.
pub fn about_storage_mode_label() -> (r: &'static str)
    ensures
        r@ == "Local browser storage"@,
{
    "Local browser storage"
}

/// What the about box says of quarantined corrupt payloads.
pub fn about_corrupt_payload_status(has_quarantined_payloads: bool) -> (r: &'static str)
    ensures
        r@ == if has_quarantined_payloads {
            "Corrupt payload quarantined"@
        } else {
            "No corrupt payload quarantine"@
        },
{
    if has_quarantined_payloads {
        "Corrupt payload quarantined"
    } else {
        "No corrupt payload quarantine"
    }
}

/// A dialog renders its body region unless asked to hide it.
pub fn should_render_modal_body(hide_body: bool) -> (r: bool)
    ensures
        r == !hide_body,
{
    !hide_body
}

} // verus!
