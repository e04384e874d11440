//! Identifiers and clock readings: random UUIDs (held as their 128-bit
//! value), their hyphenated text, and the current Unix time.

use vstd::prelude::*;

verus! {

/// The version nibble of a UUID is 4 and its variant bits are `10`.
pub open spec fn is_uuid_v4(id: u128) -> bool {
    &&& (id >> 76u128) & 0xfu128 == 4
    &&& (id >> 62u128) & 0x3u128 == 2
}

/// `uuid::Uuid::new_v4`: a fresh random UUID. It is random, so only its
/// version and variant bits are stated.
#[verifier::external_body]
pub fn new_uuid() -> (id: u128)
    ensures
        is_uuid_v4(id),
{
    uuid::Uuid::new_v4().as_u128()
}

/// The lowercase hexadecimal digit for `d < 16`.
pub open spec fn hex_digit(d: u128) -> char {
    if d < 10 {
        (d + 48) as char
    } else {
        (d + 87) as char
    }
}

/// The `k`-th hexadecimal digit of `id`, counted from the most significant.
pub open spec fn uuid_nibble(id: u128, k: int) -> u128 {
    (id >> ((124 - 4 * k) as u128)) & 0xfu128
}

/// How many of the hyphens of the 8-4-4-4-12 layout stand before position `i`.
pub open spec fn hyphens_before(i: int) -> int {
    (if i > 8 { 1int } else { 0 }) + (if i > 13 { 1int } else { 0 }) + (if i > 18 {
        1int
    } else {
        0
    }) + (if i > 23 { 1int } else { 0 })
}

/// The hyphenated lowercase text of a UUID: 32 hexadecimal digits in
/// groups of 8, 4, 4, 4 and 12, separated by `-`.
pub open spec fn uuid_text_spec(id: u128) -> Seq<char> {
    Seq::new(
        36,
        |i: int|
            if i == 8 || i == 13 || i == 18 || i == 23 {
                '-'
            } else {
                hex_digit(uuid_nibble(id, i - hyphens_before(i)))
            },
    )
}

/// `uuid::Uuid::hyphenated` written out with `to_string`: the UUID as 36
/// characters, lowercase hexadecimal digits in groups 8-4-4-4-12.
#[verifier::external_body]
pub fn uuid_text(id: u128) -> (s: String)
    ensures
        s@ == uuid_text_spec(id),
{
    uuid::Uuid::from_u128(id).hyphenated().to_string()
}

/// `chrono::Utc::now().timestamp()`: the current Unix time in seconds.
/// It reads the clock, so of its value only this is stated: it is not
/// negative (`Utc::now` takes the time since the Unix epoch and panics,
/// rather than return, when the system clock reads before 1970).
#[verifier::external_body]
pub fn now_timestamp() -> (t: i64)
    ensures
        t >= 0,
{
    chrono::Utc::now().timestamp()
}

} // verus!
