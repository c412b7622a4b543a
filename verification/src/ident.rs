//! Fresh identifiers for servers and session tokens.

use vstd::prelude::*;

verus! {

/// Whether a character is a lower-case hexadecimal digit.
pub open spec fn is_hex(c: char) -> bool {
    ('0' <= c && c <= '9') || ('a' <= c && c <= 'f')
}

/// Whether a text has the form of a random (version 4) UUID: lower-case
/// hexadecimal digits in groups of 8, 4, 4, 4 and 12, parted by hyphens, with
/// the version and the variant in the third and the fourth group.
pub open spec fn is_uuid_text(s: Seq<char>) -> bool {
    &&& s.len() == 36
    &&& forall|i: int|
        0 <= i < 36 ==> if i == 8 || i == 13 || i == 18 || i == 23 {
            #[trigger] s[i] == '-'
        } else {
            is_hex(s[i])
        }
    &&& s[14] == '4'
    &&& s[19] == '8' || s[19] == '9' || s[19] == 'a' || s[19] == 'b'
}

/// Calls `uuid::Uuid::new_v4` and writes the result as text with `to_string`.
///
/// Claimed of them: `new_v4` fills sixteen bytes with random ones and sets the
/// version and variant bits, and the text is the hyphenated lower-case form.
/// Nothing is said of which digits come out, nor that they differ from those of
/// any other call: that rests on chance.
#[verifier::external_body]
pub(crate) fn new_uuid() -> (res: String)
    ensures
        is_uuid_text(res@),
{
    uuid::Uuid::new_v4().to_string()
}

} // verus!
