use vstd::prelude::*;

verus! {

/// The last second of the year 9999, the latest instant the core handles.
pub const MAX_TIMESTAMP: i64 = 253402300799;

/// An instant, in seconds since 1970-01-01 00:00:00 UTC, that the core can handle.
pub open spec fn valid_time(t: int) -> bool {
    0 <= t <= MAX_TIMESTAMP
}

/// How chrono writes an instant as `%Y-%m-%d %H:%M:%S` in UTC.
pub uninterp spec fn utc_text(secs: int) -> Seq<char>;

/// Relies on chrono's `DateTime::from_timestamp`, which accepts every instant up to the year
/// 262143, and on its `format("%Y-%m-%d %H:%M:%S")`, which depends on the instant alone.
#[verifier::external_body]
pub(crate) fn format_utc(secs: i64) -> (r: String)
    requires
        valid_time(secs as int),
    ensures
        r@ == utc_text(secs as int),
{
    match chrono::DateTime::from_timestamp(secs, 0) {
        Some(t) => t.format("%Y-%m-%d %H:%M:%S").to_string(),
        None => String::new(),
    }
}

/// Relies on chrono's `Utc::now` and `timestamp`: the current time in whole seconds. Nothing
/// is promised of the value.
#[verifier::external_body]
pub(crate) fn current_time() -> (r: i64) {
    chrono::Utc::now().timestamp()
}

} // verus!
