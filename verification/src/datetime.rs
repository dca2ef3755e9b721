//! Server-time offset applied to timestamps.
use vstd::prelude::*;

verus! {

/// Upper bound (exclusive) of every millisecond reading of the system clock.
pub open spec fn clock_millis_bound() -> int {
    0x20_0000_0000_0000
}

/// Rust's `/` on signed integers: the quotient rounded toward zero.
pub open spec fn trunc_div(a: int, b: int) -> int
    recommends
        b > 0,
{
    if a >= 0 {
        a / b
    } else {
        -((-a) / b)
    }
}

/// The offset (in milliseconds) between the server's clock and the local one.
pub struct TimeOffset {
    pub offset_millis: i64,
}

impl TimeOffset {
    /// A zero offset.
    pub fn new() -> (r: TimeOffset)
        ensures
            r.offset_millis == 0,
    {
        TimeOffset { offset_millis: 0 }
    }

    /// Offsets for which adding any clock reading cannot overflow.
    pub open spec fn fits_clock(self) -> bool {
        self.offset_millis + clock_millis_bound() - 1 <= i64::MAX
    }
}

/// Milliseconds since the Unix epoch, read from the system clock
/// (`SystemTime::now`, then `duration_since(UNIX_EPOCH)`) and made a chrono
/// time with `DateTime::from_timestamp`, as chrono's `Utc::now` does, but
/// without its panics: none when the clock lies before the epoch or past the
/// last time chrono represents. A reading is at least zero and, as every
/// chrono time lies before the year 262143, below 2^53. Nothing else is
/// stated: the value depends on the time.
#[verifier::external_body]
fn utc_now_millis() -> (r: Option<i64>)
    ensures
        r matches Some(m) ==> 0 <= m < clock_millis_bound(),
{
    let d = std::time::SystemTime::now().duration_since(std::time::UNIX_EPOCH).ok()?;
    let secs = i64::try_from(d.as_secs()).ok()?;
    Some(chrono::DateTime::from_timestamp(secs, d.subsec_nanos())?.timestamp_millis())
}

/// Stores a new offset.
pub fn set_time_offset(clock: &mut TimeOffset, offset: i64)
    ensures
        final(clock).offset_millis == offset,
{
    clock.offset_millis = offset;
}

/// The stored offset.
pub fn get_time_offset(clock: &TimeOffset) -> (r: i64)
    ensures
        r == clock.offset_millis,
{
    clock.offset_millis
}

/// The current time in milliseconds, without the offset; none when the
/// system clock cannot be read as a chrono time.
pub fn get_raw_timestamp_millis() -> (r: Option<i64>)
    ensures
        r matches Some(m) ==> 0 <= m < clock_millis_bound(),
{
    utc_now_millis()
}

/// Adds the offset to a clock reading.
pub fn offset_clock_reading(clock: &TimeOffset, now_millis: i64) -> (r: i64)
    requires
        0 <= now_millis < clock_millis_bound(),
        clock.fits_clock(),
    ensures
        r == now_millis + clock.offset_millis,
{
    now_millis + clock.offset_millis
}

/// The current time in milliseconds, with the offset applied; none when the
/// system clock cannot be read.
pub fn get_timestamp_millis(clock: &TimeOffset) -> (r: Option<i64>)
    requires
        clock.fits_clock(),
    ensures
        r matches Some(m) ==> 0 <= m - clock.offset_millis < clock_millis_bound(),
{
    match utc_now_millis() {
        Some(now) => Some(offset_clock_reading(clock, now)),
        None => None,
    }
}

/// Converts milliseconds to whole seconds, rounding toward zero.
pub fn timestamp_seconds_from_millis(millis: i64) -> (r: i64)
    ensures
        r == trunc_div(millis as int, 1000),
{
    let q = millis.checked_div(1000);
    match q {
        Some(v) => v,
        None => 0,
    }
}

/// The current time in seconds, with the offset applied; none when the
/// system clock cannot be read.
pub fn get_timestamp_seconds(clock: &TimeOffset) -> (r: Option<i64>)
    requires
        clock.fits_clock(),
    ensures
        r matches Some(sec) ==> exists|m: int|
            0 <= m - clock.offset_millis < clock_millis_bound() && sec == trunc_div(m, 1000),
{
    match get_timestamp_millis(clock) {
        Some(m) => Some(timestamp_seconds_from_millis(m)),
        None => None,
    }
}

/// Applies the offset to a timestamp given in milliseconds.
pub fn apply_offset_to_timestamp_millis(clock: &TimeOffset, timestamp: i64) -> (r: i64)
    requires
        i64::MIN <= timestamp + clock.offset_millis <= i64::MAX,
    ensures
        r == timestamp + clock.offset_millis,
{
    timestamp + clock.offset_millis
}

/// Applies the offset, in whole seconds rounded toward zero, to a timestamp
/// given in seconds.
pub fn apply_offset_to_timestamp_seconds(clock: &TimeOffset, timestamp: i64) -> (r: i64)
    requires
        i64::MIN <= timestamp + trunc_div(clock.offset_millis as int, 1000) <= i64::MAX,
    ensures
        r == timestamp + trunc_div(clock.offset_millis as int, 1000),
{
    let secs = timestamp_seconds_from_millis(clock.offset_millis);
    timestamp + secs
}

} // verus!
