//! The nonce of a signature: a random UUID from the `uuid` crate.

use vstd::prelude::*;

verus! {

/// Whether `c` is a hexadecimal digit in lower case.
pub open spec fn is_lower_hex(c: char) -> bool {
    ('0' <= c && c <= '9') || ('a' <= c && c <= 'f')
}

/// Whether `i` is the place of a hyphen in the canonical form of a UUID.
pub open spec fn is_hyphen_index(i: int) -> bool {
    i == 8 || i == 13 || i == 18 || i == 23
}

/// Whether `text` is a UUID in canonical form: 36 characters, hyphens after
/// the groups of 8, 4, 4 and 4 digits, lower-case hexadecimal digits
/// elsewhere.
pub open spec fn is_hyphenated_uuid(text: Seq<char>) -> bool {
    &&& text.len() == 36
    &&& forall|i: int|
        0 <= i < 36 ==> if is_hyphen_index(i) {
            #[trigger] text[i] == '-'
        } else {
            is_lower_hex(text[i])
        }
}

/// Whether `text` is a version 4 UUID of the RFC 4122 variant in canonical
/// form.
pub open spec fn is_random_uuid(text: Seq<char>) -> bool {
    &&& is_hyphenated_uuid(text)
    &&& text[14] == '4'
    &&& (text[19] == '8' || text[19] == '9' || text[19] == 'a' || text[19] == 'b')
}

/// Draws a UUID with `uuid::Uuid::new_v4` and writes it with
/// `to_hyphenated`. The value is random, so the contract states only its
/// form: the canonical layout in lower case, with the version and variant
/// digits that `new_v4` sets.
#[verifier::external_body]
pub(crate) fn random_uuid() -> (text: String)
    ensures
        is_random_uuid(text@),
{
    ::uuid::Uuid::new_v4().to_hyphenated().to_string()
}

} // verus!
