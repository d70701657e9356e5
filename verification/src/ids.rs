//! Fresh identifiers.

use vstd::prelude::*;

verus! {

/// A digit of a number in base sixteen, in lower case.
pub open spec fn is_hex(c: char) -> bool {
    '0' <= c <= '9' || 'a' <= c <= 'f'
}

/// The text of a random identifier: five groups of digits in base sixteen, joined
/// by dashes, with the marks of a random identifier in the third and fourth group.
pub open spec fn is_id(s: Seq<char>) -> bool {
    &&& s.len() == 36
    &&& forall|i: int|
        0 <= i < 36 ==> if i == 8 || i == 13 || i == 18 || i == 23 {
            #[trigger] s[i] == '-'
        } else {
            is_hex(s[i])
        }
    &&& s[14] == '4'
    &&& s[19] == '8' || s[19] == '9' || s[19] == 'a' || s[19] == 'b'
}

/// Calls `uuid::Uuid::new_v4`, which draws a random version 4 identifier, and
/// takes its text. Which identifier comes is left open, and so is that no two
/// calls give the same one; it fails only where the system has no random numbers
/// to give.
#[verifier::external_body]
pub(crate) fn fresh_id() -> (r: String)
    ensures
        is_id(r@),
{
    uuid::Uuid::new_v4().to_string()
}

} // verus!
