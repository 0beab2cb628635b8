//! Identifiers for items that arrive without one.
use vstd::prelude::*;

verus! {

/// A lower-case hexadecimal digit.
pub open spec fn is_lower_hex(c: char) -> bool {
    ('0' <= c && c <= '9') || ('a' <= c && c <= 'f')
}

/// What may stand at position `i` of a hyphenated identifier.
pub open spec fn fits_position(i: int, c: char) -> bool {
    if i == 8 || i == 13 || i == 18 || i == 23 {
        c == '-'
    } else {
        is_lower_hex(c)
    }
}

/// The hyphenated text of a random (version 4) UUID: 36 characters, hyphens
/// after the 8th, 12th, 16th and 20th digit, lower-case digits elsewhere, the
/// version digit `4` and a variant digit among `8`, `9`, `a`, `b`.
pub open spec fn is_random_id(s: Seq<char>) -> bool {
    &&& s.len() == 36
    &&& forall|i: int| 0 <= i < 36 ==> fits_position(i, #[trigger] s[i])
    &&& s[14] == '4'
    &&& (s[19] == '8' || s[19] == '9' || s[19] == 'a' || s[19] == 'b')
}

/// A fresh identifier: `uuid::Uuid::new_v4`, written out by its `Display`.
///
/// The value is random, so the contract states only the shape that every
/// outcome has: the hyphenated lower-case form with the version and variant
/// digits that `new_v4` sets. That two calls differ is likely, not promised.
/// `new_v4` gives up only where the operating system has no random bytes.
#[verifier::external_body]
pub(crate) fn new_id() -> (id: String)
    ensures
        is_random_id(id@),
{
    uuid::Uuid::new_v4().to_string()
}

/// The id that a write goes by: the one given, or a fresh one.
pub fn id_or_fresh(id: Option<String>) -> (key: String)
    ensures
        match id {
            Some(given) => key@ == given@,
            None => is_random_id(key@),
        },
{
    match id {
        Some(given) => given,
        None => new_id(),
    }
}

} // verus!
