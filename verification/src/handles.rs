//! The names of consumers and mirrors.

use vstd::prelude::*;

use crate::text;
use crate::text::{alnum, to_chars};

verus! {

/// The longest handle, in characters.
pub const MAX_HANDLE_LEN: usize = 100;

/// Whether a handle may hold the character.
pub open spec fn is_handle_char(c: char) -> bool {
    text::is_alnum(c) || c == '.' || c == '_' || c == '-'
}

/// Whether a handle may hold each of the characters.
pub open spec fn is_plain(name: Seq<char>) -> bool {
    forall|i: int| 0 <= i < name.len() ==> is_handle_char(#[trigger] name[i])
}

/// Whether a handle is neither empty nor too long.
pub open spec fn has_handle_length(name: Seq<char>) -> bool {
    0 < name.len() <= MAX_HANDLE_LEN
}

/// Whether a handle is neither empty nor too long.
pub fn fits(name: &str) -> (r: bool)
    ensures
        r == has_handle_length(name@),
{
    let count = text::char_count(name);
    count > 0 && count <= MAX_HANDLE_LEN
}

/// Whether a handle holds only letters, digits, dots, underscores and dashes.
pub fn plain(name: &str) -> (r: bool)
    ensures
        r == is_plain(name@),
{
    let chars = to_chars(name);
    let mut i: usize = 0;
    while i < chars.len()
        invariant
            i <= chars@.len(),
            chars@ == name@,
            forall|j: int| 0 <= j < i ==> is_handle_char(#[trigger] name@[j]),
        decreases chars@.len() - i,
    {
        let c = chars[i];
        if !(alnum(c) || c == '.' || c == '_' || c == '-') {
            assert(!is_handle_char(name@[i as int]));
            return false;
        }
        i = i + 1;
    }
    true
}

} // verus!
