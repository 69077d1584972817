//! The canonical hyphenated form of a module's little-endian UUID bytes.
//!
//! The firmware stores each UUID as 16 little-endian bytes; the canonical
//! string swaps the first three fields back to big-endian order and prints
//! two lowercase hex digits per byte with dashes after the 8th, 12th, 16th
//! and 20th digit.

use vstd::prelude::*;

verus! {

/// The lowercase hex digit of a nibble.
pub open spec fn spec_hex_digit(n: u8) -> char
    recommends
        n < 16,
{
    if n == 0 {
        '0'
    } else if n == 1 {
        '1'
    } else if n == 2 {
        '2'
    } else if n == 3 {
        '3'
    } else if n == 4 {
        '4'
    } else if n == 5 {
        '5'
    } else if n == 6 {
        '6'
    } else if n == 7 {
        '7'
    } else if n == 8 {
        '8'
    } else if n == 9 {
        '9'
    } else if n == 10 {
        'a'
    } else if n == 11 {
        'b'
    } else if n == 12 {
        'c'
    } else if n == 13 {
        'd'
    } else if n == 14 {
        'e'
    } else {
        'f'
    }
}

/// The two lowercase hex digits of a byte, high nibble first.
pub open spec fn spec_hex_byte(b: u8) -> Seq<char> {
    seq![spec_hex_digit(b / 16), spec_hex_digit(b % 16)]
}

/// The canonical hyphenated string of 16 little-endian UUID bytes: the
/// 4-byte, 2-byte and 2-byte leading fields are byte-swapped, the rest
/// kept in order; 36 characters in all.
pub open spec fn spec_uuid_str_le(s: Seq<u8>) -> Seq<char>
    recommends
        s.len() == 16,
{
    spec_hex_byte(s[3]) + spec_hex_byte(s[2]) + spec_hex_byte(s[1]) + spec_hex_byte(s[0]) + seq![
        '-',
    ] + spec_hex_byte(s[5]) + spec_hex_byte(s[4]) + seq!['-'] + spec_hex_byte(s[7]) + spec_hex_byte(
        s[6],
    ) + seq!['-'] + spec_hex_byte(s[8]) + spec_hex_byte(s[9]) + seq!['-'] + spec_hex_byte(s[10])
        + spec_hex_byte(s[11]) + spec_hex_byte(s[12]) + spec_hex_byte(s[13]) + spec_hex_byte(s[14])
        + spec_hex_byte(s[15])
}

/// Relies on uuid::Uuid::from_bytes_le and the lowercase Display of
/// uuid::fmt::Hyphenated: from_bytes_le swaps the bytes of the first
/// three fields, and the hyphenated form prints two lowercase hex digits
/// per byte with dashes after the 8th, 12th, 16th and 20th digit.
#[verifier::external_body]
pub(crate) fn uuid_string_le(b: &[u8]) -> (r: String)
    requires
        b@.len() == 16,
    ensures
        r@ == spec_uuid_str_le(b@),
{
    let mut arr = [0u8; 16];
    arr.copy_from_slice(b);
    uuid::Uuid::from_bytes_le(arr).hyphenated().to_string()
}

} // verus!
