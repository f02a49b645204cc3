//! Object ids in their text form, which the `hex` crate decodes.

use vstd::prelude::*;

verus! {

/// The value of a hexadecimal digit, in either case.
pub open spec fn hex_value(c: char) -> Option<int> {
    if '0' <= c <= '9' {
        Some(c as int - '0' as int)
    } else if 'a' <= c <= 'f' {
        Some(c as int - 'a' as int + 10)
    } else if 'A' <= c <= 'F' {
        Some(c as int - 'A' as int + 10)
    } else {
        None
    }
}

/// The bytes that a text of hexadecimal digits stands for, two digits to a
/// byte with the high digit first. `None` when the text has an odd number
/// of characters or holds a character that is no hexadecimal digit.
pub open spec fn hex_decoded(s: Seq<char>) -> Option<Seq<u8>> {
    if s.len() % 2 == 0 && forall|i: int| 0 <= i < s.len() ==> (#[trigger] hex_value(s[i])) is Some {
        Some(
            Seq::new(
                s.len() / 2,
                |i: int| (16 * hex_value(s[2 * i])->0 + hex_value(s[2 * i + 1])->0) as u8,
            ),
        )
    } else {
        None
    }
}

/// Decodes an object id from its text form.
///
/// Trusted: `hex::decode` turns each pair of hexadecimal digits, upper or
/// lower case, into a byte, and fails on an odd length or on any other
/// character.
#[verifier::external_body]
pub(crate) fn decode_hex(oid: &str) -> (r: Option<Vec<u8>>)
    ensures
        match r {
            Some(v) => hex_decoded(oid@) == Some(v@),
            None => hex_decoded(oid@) is None,
        },
{
    hex::decode(oid).ok()
}

} // verus!
