//! The time of day.

use vstd::prelude::*;

verus! {

/// A point in time, as the system's clock gives it.
#[verifier::external_type_specification]
#[verifier::external_body]
pub struct ExSystemTime(std::time::SystemTime);

/// What comes of asking for the time since a point that lies ahead.
#[verifier::external_type_specification]
#[verifier::external_body]
pub struct ExSystemTimeError(std::time::SystemTimeError);

/// `SystemTime::now` reads the system's clock. What it reads is left open.
pub assume_specification[ std::time::SystemTime::now ]() -> std::time::SystemTime;

/// Calls `SystemTime::duration_since` with `UNIX_EPOCH`: the time from the start of
/// 1970 to `at`, or an error if `at` is earlier. As `at` comes from the clock, the
/// result is left open.
#[verifier::external_body]
pub(crate) fn since_epoch(at: &std::time::SystemTime) -> (r: Result<
    std::time::Duration,
    std::time::SystemTimeError,
>) {
    at.duration_since(std::time::UNIX_EPOCH)
}

/// `Duration::as_secs` gives the whole seconds of a duration. As the duration comes
/// from the clock, the result is left open.
pub assume_specification[ std::time::Duration::as_secs ](d: &std::time::Duration) -> u64;

/// `Duration::as_millis` gives the whole milliseconds of a duration. As the
/// duration comes from the clock, the result is left open.
pub assume_specification[ std::time::Duration::as_millis ](d: &std::time::Duration) -> u128;

/// The time stamp for a clock that stands this many seconds after the start of
/// 1970, or before it.
pub open spec fn stamp(seconds: Option<u64>) -> i64 {
    match seconds {
        Some(s) => s as i64,
        None => 0,
    }
}

/// The time stamp for a clock that stands this many milliseconds after the start of
/// 1970, or before it.
pub open spec fn stamp_ms(millis: Option<u128>) -> i64 {
    match millis {
        Some(m) => m as i64,
        None => 0,
    }
}

/// The time stamp for a clock that stands this many seconds after the start of
/// 1970, or before it.
pub fn ts_at(seconds: Option<u64>) -> (r: i64)
    ensures
        r == stamp(seconds),
{
    match seconds {
        Some(s) => s as i64,
        None => 0,
    }
}

/// The time stamp for a clock that stands this many milliseconds after the start of
/// 1970, or before it.
pub fn ms_at(millis: Option<u128>) -> (r: i64)
    ensures
        r == stamp_ms(millis),
{
    match millis {
        Some(m) => m as i64,
        None => 0,
    }
}

/// The time now, in seconds since the start of 1970.
pub fn now_ts() -> (r: i64)
    ensures
        exists|seconds: Option<u64>| r == #[trigger] stamp(seconds),
{
    let seconds: Option<u64> = match since_epoch(&std::time::SystemTime::now()) {
        Ok(d) => Some(d.as_secs()),
        Err(_) => None,
    };
    ts_at(seconds)
}

/// The time now, in milliseconds since the start of 1970.
pub fn now_ms() -> (r: i64)
    ensures
        exists|millis: Option<u128>| r == #[trigger] stamp_ms(millis),
{
    let millis: Option<u128> = match since_epoch(&std::time::SystemTime::now()) {
        Ok(d) => Some(d.as_millis()),
        Err(_) => None,
    };
    ms_at(millis)
}

/// The offset from UTC that the machine's time zone has now, in seconds, as the
/// `time` crate's `UtcOffset::current_local_offset` finds it, or none if it cannot
/// be found. Which offset comes is left open, but it is less than 26 hours.
#[verifier::external_body]
pub(crate) fn local_offset() -> (r: i32)
    ensures
        -93_600 < r < 93_600,
{
    time::UtcOffset::current_local_offset().unwrap_or(time::UtcOffset::UTC).whole_seconds()
}

/// What the `time` crate shows for a time stamp in a time zone `offset` seconds from
/// UTC, laid out as `layout` describes; nothing if the time lies outside its
/// calendar or the layout is not one.
pub uninterp spec fn time_shown(ts: i64, offset: i32, layout: Seq<char>) -> Option<Seq<char>>;

/// Calls `OffsetDateTime::from_unix_timestamp`, `checked_to_offset` and `format` of
/// the `time` crate, with the layout that `format_description::parse_borrowed`
/// reads.
#[verifier::external_body]
pub(crate) fn show_time(ts: i64, offset: i32, layout: &str) -> (r: Option<String>)
    ensures
        crate::text::opt_text(r) == time_shown(ts, offset, layout@),
{
    let at = time::OffsetDateTime::from_unix_timestamp(ts).ok()?;
    let offset = time::UtcOffset::from_whole_seconds(offset).ok()?;
    let layout = time::format_description::parse_borrowed::<1>(layout).ok()?;
    at.checked_to_offset(offset)?.format(&layout).ok()
}

} // verus!
