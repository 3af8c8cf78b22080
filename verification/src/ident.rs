//! Identifiers and timestamps: random UUIDs, their hyphenated text, and the
//! current Unix time.

use crate::text::digit_char;
use vstd::prelude::*;

verus! {

/// Lower-case hexadecimal digit of `d` (`0 <= d < 16`).
pub open spec fn hex_lower(d: u128) -> char {
    if d < 10 {
        digit_char(d as nat)
    } else if d == 10 {
        'a'
    } else if d == 11 {
        'b'
    } else if d == 12 {
        'c'
    } else if d == 13 {
        'd'
    } else if d == 14 {
        'e'
    } else {
        'f'
    }
}

/// The `k`-th hexadecimal digit (0 is the most significant) of a 128-bit value.
pub open spec fn uuid_nibble(id: u128, k: int) -> u128 {
    (id >> ((4 * (31 - k)) as u128)) & 0xf
}

/// Which hexadecimal digit stands at position `i` of the hyphenated form.
pub open spec fn uuid_digit_pos(i: int) -> int {
    if i < 8 {
        i
    } else if i < 13 {
        i - 1
    } else if i < 18 {
        i - 2
    } else if i < 23 {
        i - 3
    } else {
        i - 4
    }
}

/// Hyphenated lower-case text of a UUID: `xxxxxxxx-xxxx-xxxx-xxxx-xxxxxxxxxxxx`,
/// the digits of the value from the most significant down.
pub open spec fn uuid_text(id: u128) -> Seq<char> {
    Seq::new(36, |i: int|
        if i == 8 || i == 13 || i == 18 || i == 23 {
            '-'
        } else {
            hex_lower(uuid_nibble(id, uuid_digit_pos(i)))
        })
}

/// A random (version 4) UUID: version nibble 4 and variant bits `10`.
pub open spec fn is_v4_uuid(id: u128) -> bool {
    (id >> 76u128) & 0xf == 4 && (id >> 62u128) & 0x3 == 2
}

/// Calls `uuid::Uuid::new_v4` and gives its 128-bit value (`as_u128`).
/// The value is random; the crate's source sets the version nibble to 4 and
/// the variant bits to `10`, and this is all that is claimed of it.
#[verifier::external_body]
pub fn new_uuid() -> (r: u128)
    ensures
        (r >> 76u128) & 0xf == 4,
        (r >> 62u128) & 0x3 == 2,
{
    uuid::Uuid::new_v4().as_u128()
}

/// Calls `Display` of `uuid::Uuid::from_u128(id)` (via `to_string`), which the
/// crate renders as the hyphenated lower-case form of the big-endian value.
#[verifier::external_body]
pub fn uuid_string(id: u128) -> (r: String)
    ensures
        r@ == uuid_text(id),
{
    uuid::Uuid::from_u128(id).to_string()
}

/// Calls `std::time::SystemTime::now` and gives the whole seconds since the Unix
/// epoch, or `None` when the clock is before the epoch. Nothing else is claimed:
/// the value depends on the clock.
#[verifier::external_body]
fn seconds_since_epoch() -> (r: Option<u64>)
{
    std::time::SystemTime::now().duration_since(std::time::UNIX_EPOCH).ok().map(|d| d.as_secs())
}

/// Unix time from a clock reading: the whole seconds reinterpreted as `i64`,
/// or 0 when the clock was before the epoch.
pub fn timestamp_from(secs: Option<u64>) -> (r: i64)
    ensures
        r == match secs {
            Some(s) => s as i64,
            None => 0i64,
        },
{
    match secs {
        Some(s) => s as i64,
        None => 0,
    }
}

/// Current Unix time in seconds, as `timestamp_from` makes it of the clock's
/// reading. The reading depends on the clock, so nothing is stated of the
/// value.
pub fn chrono_timestamp() -> (r: i64)
{
    timestamp_from(seconds_since_epoch())
}

} // verus!
