//! Fresh identifiers.

use vstd::prelude::*;

verus! {

pub open spec fn is_lower_hex(c: char) -> bool {
    '0' <= c <= '9' || 'a' <= c <= 'f'
}

/// The text of a version 7 UUID: five groups of lower-case hexadecimal
/// digits, joined by hyphens, the third of which starts with the version.
pub open spec fn is_uuid_v7_text(s: Seq<char>) -> bool {
    &&& s.len() == 36
    &&& s[8] == '-' && s[13] == '-' && s[18] == '-' && s[23] == '-'
    &&& s[14] == '7'
    &&& forall|i: int|
        0 <= i < 36 && i != 8 && i != 13 && i != 18 && i != 23 ==> is_lower_hex(#[trigger] s[i])
}

/// A new time-ordered identifier (`uuid::Uuid::now_v7`, in its `Display`
/// form). Which one it is depends on the clock and on chance; its form does
/// not. That it differs from every earlier one is not claimed.
#[verifier::external_body]
pub(crate) fn fresh_uuid_v7() -> (s: String)
    ensures
        is_uuid_v7_text(s@),
{
    uuid::Uuid::now_v7().to_string()
}

/// Thirty-two random lower-case hexadecimal digits (`uuid::Uuid::new_v4`, in
/// its `simple` form). Which digits they are depends on chance.
#[verifier::external_body]
pub(crate) fn fresh_hex_tag() -> (s: String)
    ensures
        s@.len() == 32,
        forall|i: int| 0 <= i < 32 ==> is_lower_hex(#[trigger] s@[i]),
{
    uuid::Uuid::new_v4().simple().to_string()
}

} // verus!
