//! UUIDs as the `uuid` crate reads and writes them, carried as their 128-bit
//! value.

use vstd::prelude::*;

verus! {

/// The value that `uuid::Uuid::parse_str` reads from `text`, if it accepts
/// it (simple, hyphenated, braced or URN form, hexadecimal digits in either
/// case).
pub uninterp spec fn uuid_parse_str(text: Seq<char>) -> Option<u128>;

/// `uuid::Uuid::parse_str`, with the UUID given by its 128-bit value.
#[verifier::external_body]
pub(crate) fn parse_uuid(text: &str) -> (r: Option<u128>)
    ensures
        r == uuid_parse_str(text@),
{
    match uuid::Uuid::parse_str(text) {
        Ok(id) => Some(id.as_u128()),
        Err(_) => None,
    }
}

pub open spec fn pow16(n: nat) -> nat
    decreases n,
{
    if n == 0 {
        1
    } else {
        16 * pow16((n - 1) as nat)
    }
}

pub open spec fn lower_hex_digit(d: int) -> char {
    if d < 10 {
        (('0' as u32) + d) as char
    } else {
        (('a' as u32) + d - 10) as char
    }
}

/// The 32 lower-case hexadecimal digits of `v`, most significant first.
pub open spec fn hex_digits(v: u128) -> Seq<char> {
    Seq::new(32, |i: int| lower_hex_digit(((v as int) / (pow16((31 - i) as nat) as int)) % 16))
}

/// The hyphenated lower-case form `xxxxxxxx-xxxx-xxxx-xxxx-xxxxxxxxxxxx`.
pub open spec fn uuid_hyphenated_text(v: u128) -> Seq<char> {
    let h = hex_digits(v);
    h.subrange(0, 8) + seq!['-'] + h.subrange(8, 12) + seq!['-'] + h.subrange(12, 16) + seq!['-']
        + h.subrange(16, 20) + seq!['-'] + h.subrange(20, 32)
}

/// The `Display` form of the `uuid::Uuid` with this value, which the crate
/// documents as the hyphenated lower-case form.
#[verifier::external_body]
pub(crate) fn uuid_to_string(v: u128) -> (s: String)
    ensures
        s@ == uuid_hyphenated_text(v),
{
    uuid::Uuid::from_u128(v).to_string()
}

} // verus!
