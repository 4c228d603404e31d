//! Random identifiers.

use crate::hashing;
use vstd::prelude::*;

verus! {

/// `uuid::Uuid::new_v4`, as a number: random, with the version and variant bits set, so never
/// zero.
#[verifier::external_body]
pub(crate) fn random_uuid() -> (id: u128)
    ensures
        id != 0,
{
    uuid::Uuid::new_v4().as_u128()
}

/// One of the 32 hexadecimal digits of a number, counted from the most significant.
pub open spec fn uuid_digit(id: u128, at: int) -> char {
    hashing::hex_digit((id as int / vstd::arithmetic::power::pow(16, (31 - at) as nat)) % 16)
}

/// The hyphenated form: groups of 8, 4, 4, 4 and 12 lower-case hexadecimal digits.
pub open spec fn uuid_text(id: u128) -> Seq<char> {
    Seq::new(
        36,
        |i: int|
            if i == 8 || i == 13 || i == 18 || i == 23 {
                '-'
            } else if i < 8 {
                uuid_digit(id, i)
            } else if i < 13 {
                uuid_digit(id, i - 1)
            } else if i < 18 {
                uuid_digit(id, i - 2)
            } else if i < 23 {
                uuid_digit(id, i - 3)
            } else {
                uuid_digit(id, i - 4)
            },
    )
}

/// `uuid::Uuid::to_string`: the hyphenated form in lower case.
#[verifier::external_body]
pub(crate) fn uuid_to_text(id: u128) -> (text: String)
    ensures
        text@ == uuid_text(id),
{
    uuid::Uuid::from_u128(id).to_string()
}

} // verus!
