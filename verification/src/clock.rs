//! The current time, as the text that names a download without a file name.
use vstd::prelude::*;

verus! {

/// Reads the clock as the time elapsed since the Unix epoch, in whole
/// seconds and the nanoseconds beyond them (`UNIX_EPOCH.elapsed()`).
/// `None` when the clock reads before the epoch. The reading depends on the
/// clock, so only what `Duration::subsec_nanos` documents is stated: the
/// nanoseconds are fewer than one billion.
#[verifier::external_body]
fn elapsed_since_epoch() -> (elapsed: Option<(u64, u32)>)
    ensures
        elapsed matches Some(e) ==> e.1 < 1_000_000_000,
{
    std::time::UNIX_EPOCH.elapsed().ok().map(|duration| (duration.as_secs(), duration.subsec_nanos()))
}

/// What `chrono::DateTime::<Utc>::from_timestamp(secs, nanos)` followed by
/// `to_string()` gives: `None` when the timestamp is out of chrono's range.
pub uninterp spec fn utc_timestamp_text(secs: i64, nanos: u32) -> Option<Seq<char>>;

/// Whether `text` ends with ` UTC`, as the `Display` text of a
/// `DateTime<Utc>` does.
pub open spec fn ends_with_utc(text: Seq<char>) -> bool {
    text.len() >= 4 && text.subrange(text.len() - 4, text.len() as int) == " UTC"@
}

/// Calls `chrono::DateTime::from_timestamp` and writes the date with
/// `Display`. The contract names the result and states what chrono's
/// `Display` for `DateTime<Utc>` shows in its source: the date and time, a
/// space, then the offset `UTC`. Which timestamps are in range is not stated.
#[verifier::external_body]
fn timestamp_text(secs: i64, nanos: u32) -> (text: Option<String>)
    ensures
        match text {
            Some(t) => utc_timestamp_text(secs, nanos) == Some(t@) && ends_with_utc(t@),
            None => utc_timestamp_text(secs, nanos) is None,
        },
{
    chrono::DateTime::from_timestamp(secs, nanos).map(|time| time.to_string())
}

/// Whether `text` is what chrono writes for some instant after the Unix
/// epoch, as a reading of the clock gives it.
pub open spec fn is_clock_text(text: Seq<char>) -> bool {
    exists|secs: i64, nanos: u32|
        0 <= secs && nanos < 1_000_000_000 && #[trigger] utc_timestamp_text(secs, nanos) == Some(
            text,
        )
}

/// The text of the instant `secs` seconds and `nanos` nanoseconds after the
/// Unix epoch, as chrono writes it; `None` when the seconds do not fit the
/// `i64` that chrono takes, or the instant is beyond chrono's range.
pub fn time_text(secs: u64, nanos: u32) -> (text: Option<String>)
    ensures
        secs > i64::MAX ==> text is None,
        secs <= i64::MAX ==> match text {
            Some(t) => utc_timestamp_text(secs as i64, nanos) == Some(t@),
            None => utc_timestamp_text(secs as i64, nanos) is None,
        },
        text matches Some(t) ==> ends_with_utc(t@),
{
    if secs > 9_223_372_036_854_775_807u64 {
        None
    } else {
        timestamp_text(secs as i64, nanos)
    }
}

/// The current date and time in UTC as chrono writes it, such as
/// `2024-05-01 10:00:00.123456789 UTC`: the text of the clock's reading.
/// `None` when the clock reads a time before the Unix epoch or beyond
/// chrono's range.
pub fn current_time_text() -> (text: Option<String>)
    ensures
        text matches Some(t) ==> ends_with_utc(t@) && is_clock_text(t@),
{
    match elapsed_since_epoch() {
        None => None,
        Some((secs, nanos)) => {
            let text = time_text(secs, nanos);
            assert(text matches Some(t) ==> utc_timestamp_text(secs as i64, nanos) == Some(t@)
                && secs as i64 >= 0);
            text
        },
    }
}

} // verus!
