//! Trusted interface to chrono for the journal parser: rendering a UNIX
//! timestamp as a UTC calendar date and time of day.

use vstd::prelude::*;

verus! {

/// The text `YYYY-MM-DD HH:MM:SS` (UTC, second resolution) that chrono
/// renders for a UNIX timestamp of `secs` seconds; `None` when `secs` lies
/// outside chrono's calendar range. A function of `secs` alone.
pub uninterp spec fn utc_datetime_text(secs: int) -> Option<Seq<char>>;

/// Relies on `chrono::DateTime::<Utc>::from_timestamp` (documented to return
/// `None` exactly on an out-of-range number of seconds, `Some` otherwise)
/// and on `format` with `%Y-%m-%d %H:%M:%S`, which renders the UTC date and
/// time of day; both are deterministic in `secs` and never panic.
#[verifier::external_body]
pub fn format_utc_seconds(secs: i64) -> (r: Option<String>)
    ensures
        r is Some <==> utc_datetime_text(secs as int) is Some,
        r matches Some(s) ==> utc_datetime_text(secs as int) == Some(s@),
{
    chrono::DateTime::<chrono::Utc>::from_timestamp(secs, 0).map(
        |dt| dt.format("%Y-%m-%d %H:%M:%S").to_string(),
    )
}

} // verus!
