//! Fresh record identifiers.

use vstd::prelude::*;

verus! {

/// Whether a character is a lowercase hexadecimal digit.
pub open spec fn spec_is_lower_hex(c: char) -> bool {
    ('0' <= c <= '9') || ('a' <= c <= 'f')
}

/// The hyphenated text form of a UUID: 36 characters, hyphens at positions 8, 13, 18
/// and 23, lowercase hexadecimal digits elsewhere.
pub open spec fn spec_hyphenated_uuid(s: Seq<char>) -> bool {
    &&& s.len() == 36
    &&& forall|i: int|
        0 <= i < 36 ==> if i == 8 || i == 13 || i == 18 || i == 23 {
            s[i] == '-'
        } else {
            spec_is_lower_hex(#[trigger] s[i])
        }
}

/// A fresh random (version 4) UUID in its hyphenated text form (`Uuid::new_v4` and its
/// `Display`). Which UUID comes out is chance; its form is fixed.
#[verifier::external_body]
pub(crate) fn new_uuid_string() -> (s: String)
    ensures
        spec_hyphenated_uuid(s@),
{
    uuid::Uuid::new_v4().to_string()
}

} // verus!
