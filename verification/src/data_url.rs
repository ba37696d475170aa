//! Percent-encoding of text for a `data:` URL.
use vstd::prelude::*;
use vstd::utf8::encode_utf8;
use crate::text::push_char;

verus! {

broadcast use vstd::string::group_string_axioms;

/// The bytes a URL may carry as they are: ASCII letters, digits and `-_.~`.
pub open spec fn is_unreserved(b: u8) -> bool {
    (65 <= b && b <= 90) || (97 <= b && b <= 122) || (48 <= b && b <= 57) || b == 45 || b == 95
        || b == 46 || b == 126
}

/// The upper-case hexadecimal digit of a value below sixteen.
pub open spec fn hex_digit(d: u8) -> char {
    if d < 10 {
        (48 + d) as char
    } else {
        (55 + d) as char
    }
}

/// One byte, encoded: itself when unreserved, else `%` and two hex digits.
pub open spec fn encode_byte(b: u8) -> Seq<char> {
    if is_unreserved(b) {
        seq![b as char]
    } else {
        seq!['%', hex_digit(b / 16), hex_digit(b % 16)]
    }
}

/// A byte sequence, encoded byte by byte.
pub open spec fn percent_encoded(bytes: Seq<u8>) -> Seq<char>
    decreases bytes.len(),
{
    if bytes.len() == 0 {
        Seq::empty()
    } else {
        percent_encoded(bytes.drop_last()) + encode_byte(bytes.last())
    }
}

/// A character that may stand in a URL as it is: an unreserved character,
/// `%`, or an upper-case hexadecimal digit.
pub open spec fn is_url_safe_char(c: char) -> bool {
    is_unreserved(c as u8) && (c as u32) < 128 || c == '%' || ('0' <= c && c <= '9') || ('A' <= c
        && c <= 'F')
}

/// Every character of an encoding may stand in a URL as it is, and the
/// encoding of each byte takes one or three characters.
pub proof fn lemma_percent_encoded_is_url_safe(bytes: Seq<u8>)
    ensures
        forall|i: int|
            0 <= i < percent_encoded(bytes).len() ==> is_url_safe_char(
                #[trigger] percent_encoded(bytes)[i],
            ),
        bytes.len() <= percent_encoded(bytes).len() <= 3 * bytes.len(),
    decreases bytes.len(),
{
    if bytes.len() > 0 {
        lemma_percent_encoded_is_url_safe(bytes.drop_last());
        let prev = percent_encoded(bytes.drop_last());
        let b = bytes.last();
        let tail = encode_byte(b);
        assert(b / 16 < 16 && b % 16 < 16);
        assert forall|i: int| 0 <= i < percent_encoded(bytes).len() implies is_url_safe_char(
            #[trigger] percent_encoded(bytes)[i],
        ) by {
            if i < prev.len() {
                assert(percent_encoded(bytes)[i] == prev[i]);
            } else {
                assert(percent_encoded(bytes)[i] == tail[i - prev.len()]);
            }
        }
    }
}

fn hex_char(d: u8) -> (c: char)
    requires
        d < 16,
    ensures
        c == hex_digit(d),
{
    if d < 10 {
        (48 + d) as char
    } else {
        (55 + d) as char
    }
}

/// Percent-encodes the UTF-8 bytes of a text for a `data:` URL.
pub fn percent_encode_data_url(value: &str) -> (r: String)
    ensures
        r@ == percent_encoded(encode_utf8(value@)),
{
    let bytes = value.as_bytes();
    let mut r = String::new();
    let mut i: usize = 0;
    while i < bytes.len()
        invariant
            i <= bytes.len(),
            bytes@ == encode_utf8(value@),
            r@ == percent_encoded(bytes@.take(i as int)),
        decreases bytes.len() - i,
    {
        let b = bytes[i];
        assert(bytes@.take(i as int + 1).drop_last() =~= bytes@.take(i as int));
        if (65 <= b && b <= 90) || (97 <= b && b <= 122) || (48 <= b && b <= 57) || b == 45 || b
            == 95 || b == 46 || b == 126 {
            push_char(&mut r, b as char);
        } else {
            push_char(&mut r, '%');
            push_char(&mut r, hex_char(b / 16));
            push_char(&mut r, hex_char(b % 16));
        }
        i += 1;
        assert(r@ =~= percent_encoded(bytes@.take(i as int)));
    }
    assert(bytes@.take(i as int) =~= bytes@);
    r
}

} // verus!
