use vstd::prelude::*;

verus! {

/// A point in time, as seconds since the Unix epoch (UTC).
pub type Timestamp = i64;

/// What `time`'s RFC-2822 parser yields for a string: the Unix second of the
/// parsed instant, or `None` when the string is not in that format. The
/// result depends on the characters alone.
pub uninterp spec fn rfc2822_ts(s: Seq<char>) -> Option<i64>;

/// What `time`'s RFC-3339 parser yields for a string, as a Unix second.
pub uninterp spec fn rfc3339_ts(s: Seq<char>) -> Option<i64>;

/// What `time`'s ISO-8601 parser (default configuration) yields for a
/// string, as a Unix second.
pub uninterp spec fn iso8601_ts(s: Seq<char>) -> Option<i64>;

/// What `time` yields when parsing a string against a runtime format
/// description and assuming UTC: the Unix second, or `None` when either the
/// format description or the string is rejected.
pub uninterp spec fn format_utc_ts(fmt: Seq<char>, s: Seq<char>) -> Option<i64>;

/// Relies on `time::OffsetDateTime::parse` with the RFC-2822 well-known
/// format, and `OffsetDateTime::unix_timestamp` to read the instant out.
#[verifier::external_body]
fn parse_rfc2822(s: &str) -> (r: Option<i64>)
    ensures
        r == rfc2822_ts(s@),
{
    match time::OffsetDateTime::parse(s, &time::format_description::well_known::Rfc2822) {
        Ok(d) => Some(d.unix_timestamp()),
        Err(_) => None,
    }
}

/// Relies on `time::OffsetDateTime::parse` with the RFC-3339 well-known
/// format, and `OffsetDateTime::unix_timestamp` to read the instant out.
#[verifier::external_body]
fn parse_rfc3339(s: &str) -> (r: Option<i64>)
    ensures
        r == rfc3339_ts(s@),
{
    match time::OffsetDateTime::parse(s, &time::format_description::well_known::Rfc3339) {
        Ok(d) => Some(d.unix_timestamp()),
        Err(_) => None,
    }
}

/// Relies on `time::OffsetDateTime::parse` with the default ISO-8601
/// well-known format, and `OffsetDateTime::unix_timestamp`.
#[verifier::external_body]
fn parse_iso8601(s: &str) -> (r: Option<i64>)
    ensures
        r == iso8601_ts(s@),
{
    let iso = time::format_description::well_known::Iso8601::DEFAULT;
    match time::OffsetDateTime::parse(s, &iso) {
        Ok(d) => Some(d.unix_timestamp()),
        Err(_) => None,
    }
}

/// Relies on `time::format_description::parse` to compile the format,
/// `time::PrimitiveDateTime::parse` against it, and
/// `assume_utc`/`unix_timestamp` to read the instant out as UTC.
#[verifier::external_body]
fn parse_with_format_utc(fmt: &str, s: &str) -> (r: Option<i64>)
    ensures
        r == format_utc_ts(fmt@, s@),
{
    let Ok(items) = time::format_description::parse(fmt) else {
        return None;
    };
    match time::PrimitiveDateTime::parse(s, &items) {
        Ok(d) => Some(d.assume_utc().unix_timestamp()),
        Err(_) => None,
    }
}

/// The fallback pattern for feeds that end their dates in a literal `UTC`
/// instead of a numeric offset.
pub open spec fn spec_custom_utc_format() -> Seq<char> {
    "[weekday repr:short], [day] [month repr:short] [year] [hour]:[minute]:[second] UTC"@
}

/// The date normalizer's result: the formats are tried in a fixed order —
/// RFC-2822 first, then RFC-3339, then ISO-8601, and last the custom
/// literal-UTC pattern — and the first that matches wins.
pub open spec fn spec_parse_date(s: Seq<char>) -> Option<i64> {
    if rfc2822_ts(s) is Some {
        rfc2822_ts(s)
    } else if rfc3339_ts(s) is Some {
        rfc3339_ts(s)
    } else if iso8601_ts(s) is Some {
        iso8601_ts(s)
    } else {
        format_utc_ts(spec_custom_utc_format(), s)
    }
}

/// A date string that none of the accepted formats matched.
#[derive(Debug, Clone, PartialEq)]
pub struct DateError {
    pub text: String,
}

/// Parses an article publication timestamp, trying RFC-2822, RFC-3339,
/// ISO-8601 and the literal-UTC fallback in that order; fails exactly when
/// none of them matches, and then reports the offending text.
pub fn parse_date(value: &str) -> (r: Result<Timestamp, DateError>)
    ensures
        r is Ok <==> spec_parse_date(value@) is Some,
        r matches Ok(t) ==> spec_parse_date(value@) == Some(t),
        r matches Err(e) ==> e.text@ == value@,
{
    if let Some(t) = parse_rfc2822(value) {
        return Ok(t);
    }
    if let Some(t) = parse_rfc3339(value) {
        return Ok(t);
    }
    if let Some(t) = parse_iso8601(value) {
        return Ok(t);
    }
    let fmt =
        "[weekday repr:short], [day] [month repr:short] [year] [hour]:[minute]:[second] UTC";
    if let Some(t) = parse_with_format_utc(fmt, value) {
        return Ok(t);
    }
    Err(DateError { text: String::from_str(value) })
}

} // verus!
