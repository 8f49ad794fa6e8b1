//! Ids that are made afresh.

use vstd::prelude::*;

use crate::namespaces;

verus! {

/// `ulid::Ulid::new`, rendered by its `Display`: the text is a ULID. Which one
/// is left to the clock and to chance, so nothing more is claimed.
#[verifier::external_body]
pub(crate) fn fresh_ulid() -> (r: String)
    ensures
        namespaces::is_ulid_text(r@),
{
    ulid::Ulid::new().to_string()
}

/// Whether the text is made of so many lower-case hex digits.
pub open spec fn is_hex_text(s: Seq<char>, len: int) -> bool {
    s.len() == len && forall|i: int|
        0 <= i < s.len() ==> ('0' <= #[trigger] s[i] <= '9' || 'a' <= s[i] <= 'f')
}

/// `uuid::Uuid::new_v4`, rendered by its `simple` form: 32 lower-case hex
/// digits. Which digits is left to chance, so nothing more is claimed.
#[verifier::external_body]
pub(crate) fn fresh_uuid() -> (r: String)
    ensures
        is_hex_text(r@, 32),
{
    uuid::Uuid::new_v4().simple().to_string()
}

/// Whether the text is a UUID as it is written: 32 lower-case hex digits, with
/// a hyphen behind the 8th, 12th, 16th and 20th.
pub open spec fn is_uuid_text(s: Seq<char>) -> bool {
    s.len() == 36 && forall|i: int|
        0 <= i < s.len() ==> if i == 8 || i == 13 || i == 18 || i == 23 {
            #[trigger] s[i] == '-'
        } else {
            '0' <= s[i] <= '9' || 'a' <= s[i] <= 'f'
        }
}

/// `uuid::Uuid::new_v4`, rendered by its `Display`: a UUID with hyphens. Which
/// one is left to chance, so nothing more is claimed.
#[verifier::external_body]
pub(crate) fn fresh_table_uuid() -> (r: String)
    ensures
        is_uuid_text(r@),
{
    uuid::Uuid::new_v4().to_string()
}

} // verus!
