//! Random identifiers, through the uuid crate.

use vstd::prelude::*;

verus! {

pub open spec fn hex_digit(d: nat) -> char {
    if d < 10 {
        crate::text::digit(d)
    } else if d == 10 {
        'a'
    } else if d == 11 {
        'b'
    } else if d == 12 {
        'c'
    } else if d == 13 {
        'd'
    } else if d == 14 {
        'e'
    } else {
        'f'
    }
}

/// The last `n` hexadecimal digits of `v`, lowercase, most significant first.
pub open spec fn hex_digits(v: nat, n: nat) -> Seq<char>
    decreases n,
{
    if n == 0 {
        Seq::empty()
    } else {
        hex_digits(v / 16, (n - 1) as nat).push(hex_digit(v % 16))
    }
}

/// `Uuid::simple()`: 32 lowercase hexadecimal digits.
pub open spec fn uuid_simple_text(v: u128) -> Seq<char> {
    hex_digits(v as nat, 32)
}

/// A UUID's `Display`: the 32 digits grouped 8-4-4-4-12 by hyphens.
pub open spec fn uuid_hyphenated_text(v: u128) -> Seq<char> {
    let h = hex_digits(v as nat, 32);
    h.subrange(0, 8) + seq!['-'] + h.subrange(8, 12) + seq!['-'] + h.subrange(12, 16) + seq!['-']
        + h.subrange(16, 20) + seq!['-'] + h.subrange(20, 32)
}

/// A version 4 UUID: version 4 in bits 76..80 and the RFC 4122 variant in bits 62..64.
pub open spec fn is_v4(v: u128) -> bool {
    (v >> 76u128) & 0xfu128 == 4u128 && (v >> 62u128) & 0x3u128 == 2u128
}

/// uuid's `Uuid::new_v4()`, as its 128-bit value (`as_u128`). Stated: the version and
/// variant bits that the source sets; the other bits are random.
#[verifier::external_body]
pub(crate) fn new_v4() -> (v: u128)
    ensures
        is_v4(v),
{
    uuid::Uuid::new_v4().as_u128()
}

/// uuid's `Display` of `Uuid::from_u128(v)` (hyphenated, lowercase), through `to_string`.
/// Stated exactly, as uuid's documentation shows the format.
#[verifier::external_body]
pub(crate) fn hyphenated(v: u128) -> (s: String)
    ensures
        s@ == uuid_hyphenated_text(v),
{
    uuid::Uuid::from_u128(v).to_string()
}

/// uuid's `Uuid::from_u128(v).simple()`, through `to_string`. Stated exactly.
#[verifier::external_body]
pub(crate) fn simple(v: u128) -> (s: String)
    ensures
        s@ == uuid_simple_text(v),
{
    uuid::Uuid::from_u128(v).simple().to_string()
}

} // verus!
