use vstd::prelude::*;

verus! {

/// The earliest second, counted from the Unix epoch, that a UTC date-time can hold:
/// the first second of year -262143.
pub const MIN_UTC_TIMESTAMP: i64 = -8_334_601_228_800;

/// The latest second, counted from the Unix epoch, that a UTC date-time can hold:
/// the last second of year 262142.
pub const MAX_UTC_TIMESTAMP: i64 = 8_210_266_876_799;

/// Whether `secs` names a second that a UTC date-time can hold.
pub open spec fn representable(secs: int) -> bool {
    MIN_UTC_TIMESTAMP <= secs <= MAX_UTC_TIMESTAMP
}

/// Relies on chrono's `Utc::now` and `DateTime::timestamp`: the current time in
/// whole seconds since the Unix epoch. Nothing is known of the value.
#[verifier::external_body]
pub(crate) fn now_timestamp() -> (r: i64) {
    chrono::Utc::now().timestamp()
}

/// Relies on chrono's `DateTime::<Utc>::from_timestamp(secs, 0)`, which gives a
/// date-time exactly when the number of days stays within the years
/// -262143 ..= 262142, and on `DateTime::timestamp`, which gives `secs` back.
#[verifier::external_body]
pub(crate) fn utc_from_timestamp(secs: i64) -> (r: Option<i64>)
    ensures
        r == (if representable(secs as int) {
            Some(secs)
        } else {
            None
        }),
{
    chrono::DateTime::from_timestamp(secs, 0).map(|t| t.timestamp())
}

} // verus!
