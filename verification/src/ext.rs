use vstd::prelude::*;

use crate::dates::days_in_month_spec;
use crate::text::seq_contains_sub;

verus! {

/// What `str::to_lowercase` returns for a given sequence of characters.
pub uninterp spec fn lower_of(s: Seq<char>) -> Seq<char>;

/// Relies on str::to_lowercase: the result depends on the characters alone.
#[verifier::external_body]
pub(crate) fn lowercase(s: &str) -> (r: String)
    ensures
        r@ == lower_of(s@),
{
    s.to_lowercase()
}

/// Relies on str::contains with a string pattern: true exactly when the
/// pattern occurs as a contiguous run of characters in the haystack.
#[verifier::external_body]
pub(crate) fn str_contains(hay: &str, needle: &str) -> (r: bool)
    ensures
        r == seq_contains_sub(hay@, needle@),
{
    hay.contains(needle)
}

/// What `slug::slugify` returns for a given sequence of characters.
pub uninterp spec fn slug_of(s: Seq<char>) -> Seq<char>;

/// Relies on slug::slugify: an ASCII slug derived from the characters alone.
#[verifier::external_body]
pub(crate) fn slugify(name: &str) -> (r: String)
    ensures
        r@ == slug_of(name@),
{
    slug::slugify(name)
}

/// Relies on jiff::Timestamp::now, printed with its Display impl as an
/// RFC 3339 instant string. The value depends on the clock, so nothing is
/// promised of it.
#[verifier::external_body]
pub(crate) fn now_timestamp() -> (r: String) {
    jiff::Timestamp::now().to_string()
}

/// Relies on uuid::Uuid::new_v4, printed in its hyphenated Display form: a
/// randomly generated unique id. The value is random, so nothing is
/// promised of it.
#[verifier::external_body]
pub(crate) fn fresh_id() -> (r: String) {
    uuid::Uuid::new_v4().to_string()
}

/// The instant a timestamp string denotes, as nanoseconds since the Unix
/// epoch, or None when the string is not a valid timestamp.
pub uninterp spec fn ts_instant_of(s: Seq<char>) -> Option<int>;

/// Relies on str::parse::<jiff::Timestamp> (read out with
/// Timestamp::as_nanosecond): the instant encoded by the string. The outcome
/// depends on the characters alone.
#[verifier::external_body]
pub(crate) fn timestamp_instant(s: &str) -> (r: Option<i128>)
    ensures
        r is Some <==> ts_instant_of(s@) is Some,
        r is Some ==> r->0 as int == ts_instant_of(s@)->0,
{
    match s.parse::<jiff::Timestamp>() {
        Ok(t) => Some(t.as_nanosecond()),
        Err(_) => None,
    }
}

/// What parsing a string as a calendar date yields: the year / month / day
/// triple, or the failure reason.
pub uninterp spec fn date_parse_of(s: Seq<char>) -> Result<(i16, i8, i8), Seq<char>>;

/// Relies on str::parse::<jiff::civil::Date> (fields read out with
/// Date::year / month / day; the failure reason with the error's Display
/// impl). The outcome depends on the characters alone. jiff documents the
/// ranges of a civil date: year -9999..=9999, month 1..=12, day within the
/// month's length in the proleptic Gregorian calendar.
#[verifier::external_body]
pub(crate) fn parse_civil_date(s: &str) -> (r: Result<(i16, i8, i8), String>)
    ensures
        r is Ok <==> date_parse_of(s@) is Ok,
        r matches Ok(d) ==> d == date_parse_of(s@)->Ok_0,
        r matches Err(e) ==> e@ == date_parse_of(s@)->Err_0,
        r matches Ok(d) ==> -9999 <= d.0 <= 9999 && 1 <= d.1 <= 12 && 1 <= d.2
            <= days_in_month_spec(d.0 as int, d.1 as int),
{
    match s.parse::<jiff::civil::Date>() {
        Ok(d) => Ok((d.year(), d.month(), d.day())),
        Err(e) => Err(e.to_string()),
    }
}

} // verus!
