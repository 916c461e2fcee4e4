//! The wall clock, read as whole numbers.
use std::time::{Duration, SystemTime, SystemTimeError, UNIX_EPOCH};

use vstd::prelude::*;

verus! {

/// A reading of the system's clock.
#[verifier::external_type_specification]
#[verifier::external_body]
pub struct ExSystemTime(std::time::SystemTime);

/// What it says where a reading stands before the one it is measured from.
#[verifier::external_type_specification]
#[verifier::external_body]
pub struct ExSystemTimeError(std::time::SystemTimeError);

/// The whole milliseconds of a span.
pub uninterp spec fn span_ms(span: Duration) -> u128;

/// The span from the Unix epoch to a reading; none for a reading that stands
/// before it.
pub uninterp spec fn epoch_span(time: SystemTime) -> Option<Duration>;

/// `SystemTime::now`. Of the reading nothing is said: it is the machine's.
#[verifier::external_body]
fn now() -> SystemTime {
    SystemTime::now()
}

/// `SystemTime::duration_since`, from the Unix epoch: the span to the reading,
/// or an error where the reading stands before it.
#[verifier::external_body]
fn since_epoch(time: &SystemTime) -> (span: Result<Duration, SystemTimeError>)
    ensures
        epoch_span(*time) == match span {
            Ok(span) => Some(span),
            Err(_) => None,
        },
{
    time.duration_since(UNIX_EPOCH)
}

/// `Duration::as_millis`: the whole milliseconds of a span. Its seconds are a
/// number of 64 bits, so there are at most 999 more than a thousand for each.
#[verifier::external_body]
fn as_millis(span: &Duration) -> (ms: u128)
    ensures
        ms == span_ms(*span),
        ms <= u64::MAX * 1000 + 999,
{
    span.as_millis()
}

/// What a reading of the clock gives in milliseconds since the Unix epoch;
/// nothing where it stands before that.
pub open spec fn reading_ms(time: SystemTime) -> Option<u128> {
    match epoch_span(time) {
        Some(span) => Some(span_ms(span)),
        None => None,
    }
}

/// The time that a reading gives: zero where it gives none.
pub open spec fn time_read(reading: Option<u128>) -> u128 {
    match reading {
        Some(span) => span,
        None => 0,
    }
}

/// The time that a reading of the clock gives: zero for a clock that stands
/// before the epoch.
pub fn ms_read(reading: Option<u128>) -> (ms: u128)
    ensures
        ms == time_read(reading),
{
    match reading {
        Some(span) => span,
        None => 0,
    }
}

/// The minute of a time in milliseconds.
pub fn minute_of(ms: u128) -> (minute: u64)
    requires
        ms <= u64::MAX * 1000 + 999,
    ensures
        minute == ms / 60_000,
{
    (ms / 60_000) as u64
}

/// The low 64 bits of a time in milliseconds.
pub fn low_ms(ms: u128) -> (low: u64)
    ensures
        low == ms % 0x1_0000_0000_0000_0000,
{
    (ms % 0x1_0000_0000_0000_0000) as u64
}

/// The current minute since the Unix epoch, as a reading of the clock gives it;
/// none comes after the last one that 64 bits of seconds reach.
pub fn epoch_minute() -> (minute: u64)
    ensures
        minute <= u64::MAX / 60,
        exists|time: SystemTime| minute == time_read(#[trigger] reading_ms(time)) / 60_000,
{
    minute_of(unix_timestamp_ms())
}

/// The current time in milliseconds since the Unix epoch, as a reading of the
/// clock gives it; zero for a clock that stands before it.
pub fn unix_timestamp_ms() -> (ms: u128)
    ensures
        ms <= u64::MAX * 1000 + 999,
        exists|time: SystemTime| ms == time_read(#[trigger] reading_ms(time)),
{
    let time = now();
    let reading = match since_epoch(&time) {
        Ok(span) => Some(as_millis(&span)),
        Err(_) => None,
    };
    assert(reading == reading_ms(time));
    ms_read(reading)
}

/// The low 64 bits of the current time in milliseconds, as a reading of the
/// clock gives it.
pub fn unix_ms() -> (ms: u64)
    ensures
        exists|time: SystemTime|
            ms == time_read(#[trigger] reading_ms(time)) % 0x1_0000_0000_0000_0000,
{
    low_ms(unix_timestamp_ms())
}

/// The time is what the clock gives, and nothing where it gives none; a minute
/// is sixty thousand milliseconds, and each of them is of one minute.
pub proof fn law_times_are_as_read(ms: u128, time: SystemTime)
    ensures
        time_read(Some(ms)) == ms,
        time_read(None) == 0,
        epoch_span(time) matches Some(span) ==> reading_ms(time) == Some(span_ms(span)),
        epoch_span(time) is None ==> reading_ms(time) is None,
        ms / 60_000 * 60_000 <= ms < (ms / 60_000 + 1) * 60_000,
{
}

} // verus!
