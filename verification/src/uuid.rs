//! Identifiers of runs.

use vstd::arithmetic::power::pow;
use vstd::prelude::*;

use crate::text::hex_char;

verus! {

/// A universally unique identifier: 128 bits, most significant first.
#[derive(Clone, Copy, Debug, PartialEq, Eq, Structural)]
pub struct Uuid {
    /// The identifier as a number.
    pub value: u128,
}

/// The number of hyphens before position `at` of an identifier's text.
pub open spec fn hyphens_before(at: int) -> int {
    if at <= 8 {
        0
    } else if at <= 13 {
        1
    } else if at <= 18 {
        2
    } else if at <= 23 {
        3
    } else {
        4
    }
}

/// The text of an identifier: 32 lower-case hexadecimal digits in groups of 8,
/// 4, 4, 4 and 12, with hyphens between the groups.
pub open spec fn uuid_text(id: Uuid) -> Seq<char> {
    Seq::new(
        36,
        |at: int|
            if at == 8 || at == 13 || at == 18 || at == 23 {
                '-'
            } else {
                hex_char((id.value as int / pow(16, (31 - (at - hyphens_before(at))) as nat)) % 16)
            },
    )
}

/// Writes an identifier.
///
/// This is `uuid::Uuid::from_u128` and the `Display` of `uuid::Uuid`. It is
/// trusted to give the hyphenated lower-case form.
#[verifier::external_body]
fn hyphenated(id: Uuid) -> (r: String)
    ensures
        r@ == uuid_text(id),
{
    uuid::Uuid::from_u128(id.value).to_string()
}

impl Uuid {
    /// The identifier whose bits are all zero.
    pub fn nil() -> (r: Uuid)
        ensures
            r.value == 0,
    {
        Uuid { value: 0 }
    }

    /// Writes the identifier in its hyphenated form.
    pub fn to_text(&self) -> (r: String)
        ensures
            r@ == uuid_text(*self),
    {
        hyphenated(*self)
    }
}

} // verus!
