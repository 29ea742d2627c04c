use vstd::prelude::*;

verus! {

/// The earliest timestamp the store accepts: 0000-01-01T00:00:00Z in seconds
/// since the Unix epoch. Within this range an RFC 3339 rendering carries a
/// four-digit year, so the lexical order of the stored strings agrees with
/// the order of the instants.
pub const TS_MIN: i64 = -62_167_219_200;

/// The latest timestamp the store accepts: 9999-12-31T23:59:59Z in seconds
/// since the Unix epoch.
pub const TS_MAX: i64 = 253_402_300_799;

/// A timestamp the store can hold and render in the fixed textual format.
pub open spec fn ts_storable(t: int) -> bool {
    TS_MIN <= t <= TS_MAX
}

/// The RFC 3339 rendering of a timestamp (seconds since the Unix epoch, UTC).
pub uninterp spec fn rfc3339_of(t: int) -> Seq<char>;

/// The instant an RFC 3339 string denotes, if the string parses at all.
pub uninterp spec fn rfc3339_parsed(s: Seq<char>) -> Option<int>;

/// Relies on chrono's `Local::now`: a clock reading, handed on as seconds
/// since the Unix epoch. Nothing is stated of it: the clock may say anything.
#[verifier::external_body]
pub(crate) fn now_seconds() -> i64 {
    chrono::Local::now().timestamp()
}

/// Relies on chrono's `DateTime::from_timestamp` and `DateTime::to_rfc3339`:
/// a timestamp within years 0000..=9999 is representable, formats as an RFC
/// 3339 string with a four-digit year, and `parse_from_rfc3339` reads that
/// string back to the same instant.
#[verifier::external_body]
pub(crate) fn format_rfc3339(t: i64) -> (r: String)
    requires
        ts_storable(t as int),
    ensures
        r@ == rfc3339_of(t as int),
        rfc3339_parsed(r@) == Some(t as int),
{
    let dt = chrono::DateTime::<chrono::Utc>::from_timestamp(t, 0)
        .expect("timestamp is within chrono's range");
    dt.to_rfc3339()
}

/// Relies on chrono's `DateTime::parse_from_rfc3339`: whether a string parses,
/// and to which instant, depends on the string alone.
#[verifier::external_body]
pub(crate) fn parse_rfc3339(s: &str) -> (r: Option<i64>)
    ensures
        match r {
            Some(t) => rfc3339_parsed(s@) == Some(t as int),
            None => rfc3339_parsed(s@) is None,
        },
{
    chrono::DateTime::parse_from_rfc3339(s).ok().map(|d| d.timestamp())
}

/// Relies on chrono's formatting in the local time zone. The rendering
/// depends on the machine's time zone, so nothing is stated of it.
#[verifier::external_body]
pub(crate) fn format_local(t: i64) -> String
    requires
        ts_storable(t as int),
{
    let dt = chrono::DateTime::<chrono::Utc>::from_timestamp(t, 0)
        .expect("timestamp is within chrono's range");
    dt.with_timezone(&chrono::Local).format("%Y-%m-%d %H:%M").to_string()
}

} // verus!
