//! Schema identifiers: UUIDs, held as their 128 bits.

use vstd::arithmetic::power::pow;
use vstd::prelude::*;

verus! {

/// The lower-case hexadecimal digit for `n`, which is below 16.
pub open spec fn hex_digit(n: int) -> char {
    if n == 0 {
        '0'
    } else if n == 1 {
        '1'
    } else if n == 2 {
        '2'
    } else if n == 3 {
        '3'
    } else if n == 4 {
        '4'
    } else if n == 5 {
        '5'
    } else if n == 6 {
        '6'
    } else if n == 7 {
        '7'
    } else if n == 8 {
        '8'
    } else if n == 9 {
        '9'
    } else if n == 10 {
        'a'
    } else if n == 11 {
        'b'
    } else if n == 12 {
        'c'
    } else if n == 13 {
        'd'
    } else if n == 14 {
        'e'
    } else {
        'f'
    }
}

/// The value of the digit at place `k` among the 32 hexadecimal digits of
/// `id`, the most significant at place 0.
pub open spec fn uuid_digit(id: u128, k: int) -> int {
    (id as int / pow(16, (31 - k) as nat)) % 16
}

/// How many digits stand before place `i` of the text of a UUID, whose
/// hyphens are at places 8, 13, 18 and 23.
pub open spec fn digits_before(i: int) -> int {
    if i < 8 {
        i
    } else if i < 13 {
        i - 1
    } else if i < 18 {
        i - 2
    } else if i < 23 {
        i - 3
    } else {
        i - 4
    }
}

/// The hyphenated lower-case text of the UUID with these bits: its 32
/// hexadecimal digits, the most significant first, with a hyphen after the
/// digits 8, 12, 16 and 20.
pub open spec fn uuid_text(id: u128) -> Seq<char> {
    Seq::new(
        36,
        |i: int|
            if i == 8 || i == 13 || i == 18 || i == 23 {
                '-'
            } else {
                hex_digit(uuid_digit(id, digits_before(i)))
            },
    )
}

/// Whether `id` is the nil UUID, which stands for no schema.
pub open spec fn nil(id: u128) -> bool {
    id == 0
}

/// `Uuid::new_v4` and `Uuid::as_u128`: the bits of a random UUID.  A UUID
/// of version 4 carries its version and variant bits, so it is never nil.
#[verifier::external_body]
pub(crate) fn random_id() -> (r: u128)
    ensures
        !nil(r),
{
    uuid::Uuid::new_v4().as_u128()
}

/// `Uuid::from_u128` and `Uuid::to_string`: the hyphenated lower-case text.
#[verifier::external_body]
pub(crate) fn hyphenated(id: u128) -> (r: String)
    ensures
        r@ == uuid_text(id),
{
    uuid::Uuid::from_u128(id).to_string()
}

/// Whether `id` is the nil UUID.
pub fn is_nil(id: u128) -> (r: bool)
    ensures
        r == nil(id),
{
    id == 0
}

} // verus!
