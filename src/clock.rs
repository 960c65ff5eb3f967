use vstd::prelude::*;

verus! {

pub const NANOS_PER_SECOND: i128 = 1_000_000_000;

pub const SECONDS_PER_DAY: i128 = 86400;

/// Seconds since midnight UTC of the Unix time `nanos` (nanoseconds since the epoch).
pub open spec fn utc_second_of_day(nanos: int) -> int {
    (nanos / (NANOS_PER_SECOND as int)) % (SECONDS_PER_DAY as int)
}

/// Earliest Unix time in nanoseconds that the clock functions accept (0001-01-01 UTC).
pub const EARLIEST_NANOS: i128 = -62_135_596_800_000_000_000;

/// Unix time in nanoseconds past the last one the clock functions accept (10000-01-01 UTC).
pub const END_NANOS: i128 = 253_402_300_800_000_000_000;

/// The UTC hour, minute and second of the Unix time `nanos`.
pub open spec fn utc_hms(nanos: i128) -> (u8, u8, u8) {
    let d = utc_second_of_day(nanos as int);
    ((d / 3600) as u8, ((d % 3600) / 60) as u8, (d % 60) as u8)
}

/// Relies on time::OffsetDateTime::now_utc and unix_timestamp_nanos: the current wall clock.
#[verifier::external_body]
pub(crate) fn now_nanos() -> (r: i128) {
    time::OffsetDateTime::now_utc().unix_timestamp_nanos()
}

/// Relies on time::OffsetDateTime::from_unix_timestamp_nanos with hour, minute and second:
/// the UTC wall-clock time of day of a Unix timestamp, or `None` outside the supported range.
#[verifier::external_body]
pub(crate) fn utc_time_of_day(nanos: i128) -> (r: Option<(u8, u8, u8)>)
    ensures
        r matches Some(t) ==> t == utc_hms(nanos),
        EARLIEST_NANOS <= nanos < END_NANOS ==> r is Some,
{
    match time::OffsetDateTime::from_unix_timestamp_nanos(nanos) {
        Ok(t) => Some((t.hour(), t.minute(), t.second())),
        Err(_) => None,
    }
}

} // verus!
