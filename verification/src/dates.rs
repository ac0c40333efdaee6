use vstd::prelude::*;

verus! {

/// The earliest second, counted from the Unix epoch, that a UTC date-time
/// can hold: the start of year -262143.
pub const MIN_TIMESTAMP: i64 = -8334601315200i64;

/// The latest second, counted from the Unix epoch, that a UTC date-time can
/// hold: the end of year 262142.
pub const MAX_TIMESTAMP: i64 = 8210266876799i64;

/// The RFC 3339 text, in whole seconds with a `Z` suffix, of the UTC
/// date-time `secs` seconds after the Unix epoch.
pub uninterp spec fn rfc3339_utc_seconds(secs: i64) -> Seq<char>;

/// Formats the UTC date-time `secs` seconds after the Unix epoch with
/// `chrono::DateTime::to_rfc3339_opts(SecondsFormat::Secs, true)`, after
/// `chrono::DateTime::from_timestamp(secs, 0)`, which yields a date-time for
/// every second of the representable range. The contract claims only that
/// the text is a fixed function of `secs`.
#[verifier::external_body]
pub(crate) fn format_rfc3339_utc(secs: i64) -> (r: String)
    requires
        MIN_TIMESTAMP <= secs <= MAX_TIMESTAMP,
    ensures
        r@ == rfc3339_utc_seconds(secs),
{
    chrono::DateTime::from_timestamp(secs, 0).unwrap().to_rfc3339_opts(
        chrono::SecondsFormat::Secs,
        true,
    )
}

} // verus!
