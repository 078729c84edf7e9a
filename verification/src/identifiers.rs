//! Random 128-bit identifiers and their text form.

use vstd::prelude::*;

verus! {

/// The text that `uuid::Uuid` prints for the identifier `id`: 32 lower-case
/// hexadecimal digits in five groups with hyphens between them.
pub uninterp spec fn hyphenated_text(id: u128) -> Seq<char>;

/// Draws an identifier from `uuid::Uuid::new_v4` and hands it over as the
/// number that `Uuid::as_u128` gives. The identifier is random, so nothing
/// is promised of it. The draw needs the operating system's source of
/// randomness.
#[verifier::external_body]
pub(crate) fn new_uuid() -> (id: u128) {
    uuid::Uuid::new_v4().as_u128()
}

/// Formats the identifier `id` with `to_string` of the `uuid::Uuid` that
/// `Uuid::from_u128` makes of it: the hyphenated form, which is always 36
/// characters long.
#[verifier::external_body]
pub(crate) fn hyphenated(id: u128) -> (text: String)
    ensures
        text@ == hyphenated_text(id),
        text@.len() == 36,
{
    uuid::Uuid::from_u128(id).to_string()
}

} // verus!
