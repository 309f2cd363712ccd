//! Identifiers: 128-bit numbers inside, UUID text outside.

use vstd::prelude::*;

verus! {

#[verifier::external_type_specification]
#[verifier::external_body]
pub struct ExUuidError(uuid::Error);

/// What `uuid::Uuid::parse_str` makes of a text: the number of the UUID that
/// it spells, or nothing when it spells none.
pub uninterp spec fn uuid_of_text(text: Seq<char>) -> Option<u128>;

/// The text that `uuid::Uuid` prints for the UUID with a given number.
pub uninterp spec fn text_of_uuid(id: u128) -> Seq<char>;

/// Calls `uuid::Uuid::parse_str` and takes the number of the result with
/// `Uuid::as_u128`. The contract names the outcome and claims no more.
#[verifier::external_body]
pub(crate) fn parse_uuid(text: &str) -> (parsed: Result<u128, uuid::Error>)
    ensures
        match parsed {
            Ok(id) => uuid_of_text(text@) == Some(id),
            Err(_) => uuid_of_text(text@) is None,
        },
{
    uuid::Uuid::parse_str(text).map(|u| u.as_u128())
}

/// Prints the UUID made by `uuid::Uuid::from_u128`. The contract names the
/// text and claims that the text parses back to the same number, which the
/// crate documents of every format that it prints.
#[verifier::external_body]
pub(crate) fn print_uuid(id: u128) -> (text: String)
    ensures
        text@ == text_of_uuid(id),
        uuid_of_text(text@) == Some(id),
{
    uuid::Uuid::from_u128(id).to_string()
}

} // verus!
