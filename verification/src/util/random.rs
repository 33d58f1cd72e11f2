//! Random hexadecimal digits.

use vstd::prelude::*;

verus! {

/// The lower-case hexadecimal digits.
pub open spec fn is_lower_hex(c: char) -> bool {
    '0' <= c <= '9' || 'a' <= c <= 'f'
}

/// The text of a version 4 UUID without hyphens: 32 lower-case hexadecimal
/// digits, of which one tells the version and one the variant.
pub open spec fn is_uuid_text(s: Seq<char>) -> bool {
    &&& s.len() == 32
    &&& forall|i: int| 0 <= i < s.len() ==> is_lower_hex(#[trigger] s[i])
    &&& s[12] == '4'
    &&& (s[16] == '8' || s[16] == '9' || s[16] == 'a' || s[16] == 'b')
}

/// `uuid::Uuid::new_v4`, written by `simple`: a fresh random UUID. Which one
/// it is, is left open.
#[verifier::external_body]
pub(crate) fn new_uuid() -> (r: String)
    ensures
        is_uuid_text(r@),
{
    uuid::Uuid::new_v4().simple().to_string()
}

} // verus!
