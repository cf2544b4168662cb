//! From register bytes to numbers: packed BCD, the 12-hour clock, and the
//! full year.
//!
//! Nothing here validates what the device says. A byte that is no packed BCD,
//! or an hour beyond the clock face, is decoded by the same formulas and comes
//! out as an implausible number.

use crate::registers::{is_12_hour, is_bcd, BINARY_MODE, HOUR_24_MODE, PM_FLAG};
use vstd::prelude::*;

verus! {

/// The largest baseline year from which a year can be resolved without a
/// century register: the first year of its century and the largest byte that a
/// year register can hold still add up within 16 bits.
pub const MAX_CURRENT_YEAR: u16 = 65_299;

/// The number that the two nibbles of a byte spell: the high nibble counts
/// tens, the low nibble units.
pub open spec fn bcd_value(byte: u8) -> int {
    (byte % 16) + 10 * (byte / 16)
}

/// Whether both nibbles of a byte are decimal digits.
pub open spec fn is_packed_bcd(byte: u8) -> bool {
    byte % 16 <= 9 && byte / 16 <= 9
}

/// The value of an hour register in BCD mode: the low seven bits are packed
/// BCD, the top bit is the PM flag and stays where it is.
pub open spec fn bcd_hour_value(raw: u8) -> int {
    bcd_value(raw % 128) + 128 * (raw / 128)
}

/// The hour on a 24-hour clock for an hour register of a 12-hour clock, whose
/// top bit is the PM flag: an afternoon hour moves on by twelve, modulo 24.
pub open spec fn hour_on_24_clock(hour: u8) -> int {
    if hour >= 128 {
        ((hour - 128) + 12) % 24
    } else {
        hour as int
    }
}

/// The value of a time register other than the hour under the device's mode.
pub open spec fn field_value(raw: u8, status_b: u8) -> int {
    if is_bcd(status_b) {
        bcd_value(raw)
    } else {
        raw as int
    }
}

/// The hour on a 24-hour clock that an hour register holds under the device's
/// mode.
pub open spec fn hour_value(raw: u8, status_b: u8) -> int {
    let binary: u8 = if is_bcd(status_b) {
        bcd_hour_value(raw) as u8
    } else {
        raw
    };
    if is_12_hour(status_b) {
        hour_on_24_clock(binary)
    } else {
        binary as int
    }
}

/// The full year where the device reports the century.
pub open spec fn year_in_century(year: int, century: int) -> int {
    year + century * 100
}

/// The full year where the device reports two digits only: the year is placed
/// in the century of `current_year`, and a result before `current_year` is
/// taken to lie one century later.
pub open spec fn year_from_baseline(year: int, current_year: int) -> int {
    let candidate = year + (current_year / 100) * 100;
    if candidate < current_year {
        candidate + 100
    } else {
        candidate
    }
}

/// Whether a reading of status register B asks for BCD decoding.
pub fn reads_bcd(status_b: u8) -> (r: bool)
    ensures
        r == is_bcd(status_b),
{
    status_b & BINARY_MODE == 0
}

/// Whether a reading of status register B asks for conversion from the
/// 12-hour clock.
pub fn reads_12_hour(status_b: u8) -> (r: bool)
    ensures
        r == is_12_hour(status_b),
{
    status_b & HOUR_24_MODE == 0
}

/// Decodes one byte of packed BCD.
pub fn bcd_to_binary(byte: u8) -> (r: u8)
    ensures
        r == bcd_value(byte),
        r == (byte & 0x0F) + (byte >> 4) * 10,
        r <= 165,
{
    proof {
        lemma_nibbles(byte);
    }
    (byte & 0x0F) + (byte / 16) * 10
}

/// Decodes an hour register in BCD mode, keeping the PM flag.
pub fn bcd_hour_to_binary(raw: u8) -> (r: u8)
    ensures
        r == bcd_hour_value(raw),
        r & PM_FLAG == raw & PM_FLAG,
        r & 0x7F == bcd_value(raw & 0x7F),
{
    let units: u8 = raw & 0x0F;
    let tens: u8 = (raw & 0x70) / 16;
    let flag: u8 = raw & 0x80;
    proof {
        lemma_hour_parts(raw);
    }
    let low: u8 = units + tens * 10;
    proof {
        lemma_flag_joins(low, flag);
        lemma_nibbles(raw & 0x7F);
    }
    low | flag
}

/// Converts an hour register of a 12-hour clock to the 24-hour clock.
pub fn to_24_hour(hour: u8) -> (r: u8)
    ensures
        r == hour_on_24_clock(hour),
        hour & PM_FLAG != 0 ==> r == ((hour & 0x7F) + 12) % 24,
        hour & PM_FLAG == 0 ==> r == hour,
        hour & PM_FLAG != 0 ==> r < 24,
{
    proof {
        lemma_pm_flag(hour);
    }
    if hour & 0x80 != 0 {
        ((hour & 0x7F) + 12) % 24
    } else {
        hour
    }
}

/// Decodes a time register other than the hour under the device's mode.
pub fn decode_field(raw: u8, status_b: u8) -> (r: u8)
    ensures
        r == field_value(raw, status_b),
{
    if reads_bcd(status_b) {
        bcd_to_binary(raw)
    } else {
        raw
    }
}

/// Decodes the hour register under the device's mode.
pub fn decode_hour(raw: u8, status_b: u8) -> (r: u8)
    ensures
        r == hour_value(raw, status_b),
{
    let binary: u8 = if reads_bcd(status_b) {
        bcd_hour_to_binary(raw)
    } else {
        raw
    };
    if reads_12_hour(status_b) {
        to_24_hour(binary)
    } else {
        binary
    }
}

/// The full year from a decoded two-digit year and a decoded century.
pub fn resolve_with_century(year: u8, century: u8) -> (r: u16)
    ensures
        r == year_in_century(year as int, century as int),
{
    let hundreds: u16 = century as u16 * 100;
    year as u16 + hundreds
}

/// The full year from a decoded two-digit year and the year that the caller
/// takes to be the present one.
pub fn resolve_from_baseline(year: u8, current_year: u16) -> (r: u16)
    requires
        current_year <= MAX_CURRENT_YEAR,
    ensures
        r == year_from_baseline(year as int, current_year as int),
        r >= current_year,
{
    let candidate: u16 = year as u16 + (current_year / 100) * 100;
    if candidate < current_year {
        candidate + 100
    } else {
        candidate
    }
}

/// A byte's nibbles by mask and shift are its remainder and quotient by 16.
pub proof fn lemma_nibbles(byte: u8)
    ensures
        byte & 0x0F == byte % 16,
        byte >> 4 == byte / 16,
{
    assert(byte & 0x0F == byte % 16) by (bit_vector);
    assert(byte >> 4 == byte / 16) by (bit_vector);
}

/// The top bit of a byte by mask is its quotient by 128, and the low seven
/// bits are its remainder.
pub proof fn lemma_pm_flag(byte: u8)
    ensures
        (byte & 0x80 != 0) <==> byte >= 128,
        byte & 0x80 == 128 * (byte / 128),
        byte & 0x7F == byte % 128,
{
    assert((byte & 0x80 != 0) <==> byte >= 128) by (bit_vector);
    assert(byte & 0x80 == 128 * (byte / 128)) by (bit_vector);
    assert(byte & 0x7F == byte % 128) by (bit_vector);
}

/// The three parts of an hour register in BCD mode.
proof fn lemma_hour_parts(raw: u8)
    ensures
        raw & 0x0F == (raw % 128) % 16,
        (raw & 0x70) / 16 == (raw % 128) / 16,
        raw & 0x80 == 128 * (raw / 128),
        raw & 0x7F == raw % 128,
{
    assert(raw & 0x0F == (raw % 128) % 16) by (bit_vector);
    assert((raw & 0x70) / 16 == (raw % 128) / 16) by (bit_vector);
    lemma_pm_flag(raw);
}

/// Joining a seven-bit value with a flag in the top bit adds the two, and
/// each can be read back.
proof fn lemma_flag_joins(low: u8, flag: u8)
    requires
        low < 128,
        flag == 0 || flag == 128,
    ensures
        low | flag == low + flag,
        (low | flag) & 0x80 == flag,
        (low | flag) & 0x7F == low,
{
    assert(low | flag == low + flag) by (bit_vector)
        requires
            low < 128,
            flag == 0 || flag == 128,
    ;
    assert((low | flag) & 0x80 == flag) by (bit_vector)
        requires
            low < 128,
            flag == 0 || flag == 128,
    ;
    assert((low | flag) & 0x7F == low) by (bit_vector)
        requires
            low < 128,
            flag == 0 || flag == 128,
    ;
}

/// A byte of packed BCD decodes to the number whose decimal digits are its
/// nibbles, and so to less than a hundred.
pub proof fn lemma_bcd_digits(byte: u8)
    requires
        is_packed_bcd(byte),
    ensures
        bcd_value(byte) / 10 == byte / 16,
        bcd_value(byte) % 10 == byte % 16,
        0 <= bcd_value(byte) <= 99,
{
}

} // verus!
