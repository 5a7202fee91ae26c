//! Calendar time through `chrono`: the current time, and dates in the form
//! HTTP headers use (`Tue, 15 Nov 1994 08:12:31 GMT`).
use vstd::prelude::*;

verus! {

/// The text of `chrono::DateTime::from_timestamp(secs, 0)` formatted with
/// `"%a, %d %b %Y %H:%M:%S GMT"`, or `None` where `secs` is out of chrono's
/// range.
pub uninterp spec fn spec_http_date(secs: int) -> Option<Seq<char>>;

/// The Unix timestamp of `chrono::NaiveDateTime::parse_from_str(text,
/// "%a, %d %b %Y %H:%M:%S GMT")`, or `None` where that parse fails.
pub uninterp spec fn spec_parse_http_date(text: Seq<char>) -> Option<int>;

/// `chrono::Utc::now().timestamp()`: the current time in whole seconds
/// since the Unix epoch. `Utc::now` panics unless the system clock is past
/// the epoch and `DateTime::from_timestamp` accepts the seconds it read, so
/// every value returned is non-negative and has a date. Which value comes
/// back is not stated: it is the clock's.
#[verifier::external_body]
pub(crate) fn now_timestamp() -> (t: i64)
    ensures
        t >= 0,
        spec_http_date(t as int) is Some,
{
    chrono::Utc::now().timestamp()
}

/// `chrono::DateTime::from_timestamp(secs, 0)` formatted as an HTTP date;
/// the text itself is named, not stated.
#[verifier::external_body]
pub(crate) fn http_date(secs: i64) -> (r: Option<String>)
    ensures
        match r {
            Some(s) => spec_http_date(secs as int) == Some(s@),
            None => spec_http_date(secs as int) is None,
        },
{
    chrono::DateTime::from_timestamp(secs, 0).map(|d| d.format("%a, %d %b %Y %H:%M:%S GMT").to_string())
}

/// `chrono::NaiveDateTime::parse_from_str` with the HTTP date format, taken
/// as a Unix timestamp (`and_utc().timestamp()`); the result is named, not
/// stated.
#[verifier::external_body]
pub(crate) fn parse_http_date(text: &str) -> (r: Option<i64>)
    ensures
        match r {
            Some(t) => spec_parse_http_date(text@) == Some(t as int),
            None => spec_parse_http_date(text@) is None,
        },
{
    chrono::NaiveDateTime::parse_from_str(text, "%a, %d %b %Y %H:%M:%S GMT").ok().map(|d| d.and_utc().timestamp())
}

/// The current time in whole seconds since the Unix epoch; it is never
/// before the epoch and always has an HTTP date. Which time it is, is the
/// clock's.
pub fn current_time() -> (t: i64)
    ensures
        t >= 0,
        spec_http_date(t as int) is Some,
{
    now_timestamp()
}

} // verus!
