//! Identifiers of stored records.

use vstd::prelude::*;

use crate::hash;

verus! {

/// A UUID as the 128-bit number that it stands for.
pub type Uuid = u128;

/// The hexadecimal digit of `id` at `i`, counted from the most significant one.
pub open spec fn id_digit(id: Uuid, i: int) -> char {
    hash::hex_digit((id as int / vstd::arithmetic::power::pow(16, (31 - i) as nat)) % 16)
}

/// The usual notation of a UUID: 32 lowercase hexadecimal digits in groups of 8, 4, 4, 4
/// and 12, with hyphens between the groups.
pub open spec fn hyphenated(id: Uuid) -> Seq<char> {
    Seq::new(
        36,
        |i: int|
            if i == 8 || i == 13 || i == 18 || i == 23 {
                '-'
            } else if i < 8 {
                id_digit(id, i)
            } else if i < 13 {
                id_digit(id, i - 1)
            } else if i < 18 {
                id_digit(id, i - 2)
            } else if i < 23 {
                id_digit(id, i - 3)
            } else {
                id_digit(id, i - 4)
            },
    )
}

/// `uuid::Uuid::from_u128` and its `Display`: the hyphenated lowercase notation of the
/// number, whose most significant byte comes first.
#[verifier::external_body]
pub(crate) fn uuid_text(id: Uuid) -> (res: String)
    ensures
        res@ == hyphenated(id),
{
    uuid::Uuid::from_u128(id).to_string()
}

} // verus!
