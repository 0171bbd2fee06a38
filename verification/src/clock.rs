//! Points in time as they stand at the head of log lines.

use vstd::prelude::*;

verus! {

/// The text of the point in time `nanos` nanoseconds after the second `secs` of the Unix epoch, in
/// UTC and with six digits of the fraction of the second, as chrono's `DateTime::format` writes it.
/// None where chrono has no such point in time.
pub uninterp spec fn utc_text(secs: i64, nanos: u32) -> Option<Seq<char>>;

/// Writes a point in time by `chrono::DateTime::format` with the pattern
/// `%Y-%m-%dT%H:%M:%S%.6fZ`. The text depends on the two numbers alone, and there is none for
/// numbers that `chrono::DateTime::from_timestamp` refuses.
#[verifier::external_body]
fn format_utc(secs: i64, nanos: u32) -> (text: Option<String>)
    ensures
        utc_text(secs, nanos) == (match text {
            Some(t) => Some(t@),
            None => None,
        }),
{
    chrono::DateTime::from_timestamp(secs, nanos).map(
        |time| time.format("%Y-%m-%dT%H:%M:%S%.6fZ").to_string(),
    )
}

/// Reads the clock by `chrono::Utc::now`. The clock decides what comes back; what is claimed is that
/// it is a point in time that chrono can write.
#[verifier::external_body]
fn utc_now() -> (now: (i64, u32))
    ensures
        utc_text(now.0, now.1) is Some,
{
    let now = chrono::Utc::now();
    (now.timestamp(), now.timestamp_subsec_nanos())
}

/// The text of a point in time, where there is one.
pub fn timestamp_text(secs: i64, nanos: u32) -> (text: Option<String>)
    ensures
        text is Some <==> utc_text(secs, nanos) is Some,
        text matches Some(t) ==> utc_text(secs, nanos) == Some(t@),
{
    format_utc(secs, nanos)
}

/// Whether a point in time is one that the clock can show.
pub closed spec fn clock_shows(secs: i64, nanos: u32) -> bool {
    call_ensures(utc_now, (), (secs, nanos))
}

/// The text of the present point in time.
pub fn format_timestamp() -> (text: String)
    ensures
        exists|secs: i64, nanos: u32| #[trigger] utc_text(secs, nanos) == Some(text@),
        exists|secs: i64, nanos: u32| #[trigger]
            clock_shows(secs, nanos) && utc_text(secs, nanos) == Some(text@),
{
    let (secs, nanos): (i64, u32) = utc_now();
    assert(clock_shows(secs, nanos));
    match timestamp_text(secs, nanos) {
        Some(text) => text,
        None => String::new(),
    }
}

} // verus!
