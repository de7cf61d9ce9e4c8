//! Timestamps stored as three 32-bit words: the nanoseconds of the day in
//! the first two, the Julian day in the third.

use vstd::prelude::*;

verus! {

pub const JULIAN_DAY_OF_EPOCH: i64 = 2_440_588;

pub const SECONDS_PER_DAY: i64 = 86_400;

/// The first two words read as one signed 64-bit number, low word first.
pub open spec fn day_nanos(value: [u32; 3]) -> int {
    let raw = value[1] as int * 0x1_0000_0000 + value[0] as int;
    if raw < 0x8000_0000_0000_0000 {
        raw
    } else {
        raw - 0x1_0000_0000_0000_0000
    }
}

/// Integer division that rounds toward zero.
pub open spec fn div_toward_zero(x: int, d: int) -> int
    recommends
        d > 0,
{
    if x >= 0 {
        x / d
    } else {
        -((-x) / d)
    }
}

/// The seconds from the epoch to the start of the stored day.
pub open spec fn epoch_seconds(value: [u32; 3]) -> int {
    (value[2] as int - JULIAN_DAY_OF_EPOCH as int) * SECONDS_PER_DAY as int
}

fn read_day_nanos(value: &[u32; 3]) -> (nanos: i64)
    ensures
        nanos == day_nanos(*value),
{
    let raw: u64 = (value[1] as u64) * 0x1_0000_0000 + (value[0] as u64);
    if raw < 0x8000_0000_0000_0000 {
        raw as i64
    } else {
        ((raw - 0x8000_0000_0000_0000) as i64) + i64::MIN
    }
}

fn divide_toward_zero(x: i64, d: i64) -> (q: i64)
    requires
        d > 0,
    ensures
        q == div_toward_zero(x as int, d as int),
{
    x / d
}

/// Whether the microseconds of a stored timestamp fit in 64 bits.
pub open spec fn micros_fit(value: [u32; 3]) -> bool {
    let total = epoch_seconds(value) * 1_000_000 + div_toward_zero(day_nanos(value), 1_000);
    i64::MIN <= total <= i64::MAX
}

/// Whether the nanoseconds of a stored timestamp fit in 64 bits.
pub open spec fn nanos_fit(value: [u32; 3]) -> bool {
    let scaled = epoch_seconds(value) * 1_000_000_000;
    let total = scaled + day_nanos(value);
    i64::MIN <= scaled <= i64::MAX && i64::MIN <= total <= i64::MAX
}

/// Says whether `int96_to_i64_us` can take a value.
pub fn int96_fits_us(value: [u32; 3]) -> (fits: bool)
    ensures
        fits == micros_fit(value),
{
    let day: i64 = value[2] as i64;
    let micros: i64 = divide_toward_zero(read_day_nanos(&value), 1_000);
    let seconds: i64 = (day - JULIAN_DAY_OF_EPOCH) * SECONDS_PER_DAY;
    let total: i128 = (seconds as i128) * 1_000_000 + (micros as i128);
    -0x8000_0000_0000_0000 <= total && total <= 0x7fff_ffff_ffff_ffff
}

/// Says whether the nanoseconds of a stored timestamp can be computed.
pub fn int96_fits_ns(value: [u32; 3]) -> (fits: bool)
    ensures
        fits == nanos_fit(value),
{
    let day: i64 = value[2] as i64;
    let nanos: i64 = read_day_nanos(&value);
    let seconds: i64 = (day - JULIAN_DAY_OF_EPOCH) * SECONDS_PER_DAY;
    let scaled: i128 = (seconds as i128) * 1_000_000_000;
    let total: i128 = scaled + (nanos as i128);
    -0x8000_0000_0000_0000 <= scaled && scaled <= 0x7fff_ffff_ffff_ffff
        && -0x8000_0000_0000_0000 <= total && total <= 0x7fff_ffff_ffff_ffff
}

/// The microseconds since the epoch of a stored timestamp. The time of day
/// is cut, not rounded, to whole microseconds.
#[inline]
pub fn int96_to_i64_us(value: [u32; 3]) -> (micros: i64)
    requires
        micros_fit(value),
    ensures
        micros == epoch_seconds(value) * 1_000_000 + div_toward_zero(day_nanos(value), 1_000),
{
    let day: i64 = value[2] as i64;
    let microseconds: i64 = divide_toward_zero(read_day_nanos(&value), 1_000);
    let seconds: i64 = (day - JULIAN_DAY_OF_EPOCH) * SECONDS_PER_DAY;
    let total: i128 = (seconds as i128) * 1_000_000 + (microseconds as i128);
    total as i64
}

/// The milliseconds since the epoch of a stored timestamp. The time of day
/// is cut, not rounded, to whole milliseconds.
#[inline]
pub fn int96_to_i64_ms(value: [u32; 3]) -> (millis: i64)
    ensures
        millis == epoch_seconds(value) * 1_000 + div_toward_zero(day_nanos(value), 1_000_000),
{
    let day: i64 = value[2] as i64;
    let milliseconds: i64 = divide_toward_zero(read_day_nanos(&value), 1_000_000);
    let seconds: i64 = (day - JULIAN_DAY_OF_EPOCH) * SECONDS_PER_DAY;
    seconds * 1_000 + milliseconds
}

/// The seconds since the epoch of a stored timestamp. The time of day is
/// cut, not rounded, to whole seconds.
#[inline]
pub fn int96_to_i64_s(value: [u32; 3]) -> (secs: i64)
    ensures
        secs == epoch_seconds(value) + div_toward_zero(day_nanos(value), 1_000_000_000),
{
    let day: i64 = value[2] as i64;
    let seconds: i64 = divide_toward_zero(read_day_nanos(&value), 1_000_000_000);
    let day_seconds: i64 = (day - JULIAN_DAY_OF_EPOCH) * SECONDS_PER_DAY;
    day_seconds + seconds
}

/// The nanoseconds since the epoch of a stored timestamp, as the Parquet
/// library computes them: `parquet2::types::int96_to_i64_ns`. That function
/// multiplies the seconds of the day's start by a billion and adds the time
/// of day, in 64-bit arithmetic; the contract leaves out the values on which
/// either step overflows.
#[verifier::external_body]
pub(crate) fn int96_to_i64_ns(value: [u32; 3]) -> (nanos: i64)
    requires
        nanos_fit(value),
    ensures
        nanos == epoch_seconds(value) * 1_000_000_000 + day_nanos(value),
{
    parquet2::types::int96_to_i64_ns(value)
}

} // verus!
