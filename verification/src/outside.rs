//! The calls into the `regex` and `chrono` crates. Their results are named,
//! not restated: regular-expression matching and calendar arithmetic are
//! those crates' own logic.
use vstd::prelude::*;

verus! {

/// The number of matches that `regex::Regex::find_iter` yields when the
/// expression `pattern` is searched for in `haystack`, or `None` when
/// `regex::Regex::new` refuses `pattern`.
pub uninterp spec fn regex_match_count(pattern: Seq<char>, haystack: Seq<char>) -> Option<usize>;

/// Compiles `pattern` with `regex::Regex::new` and counts the matches that
/// `regex::Regex::find_iter` yields on `haystack`. The contract claims only
/// that the result is the named count for these two strings; what that count
/// is, the `regex` crate decides.
#[verifier::external_body]
pub(crate) fn count_regex_matches(pattern: &str, haystack: &str) -> (res: Option<usize>)
    ensures
        res == regex_match_count(pattern@, haystack@),
{
    match regex::Regex::new(pattern) {
        Ok(re) => Some(re.find_iter(haystack).count()),
        Err(_) => None,
    }
}

/// The text that `chrono`'s `Display` gives the instant `secs`/`nanos` after
/// the Unix epoch seen at the fixed offset `offset_secs`, or `None` when
/// `chrono::DateTime::from_timestamp` or `chrono::FixedOffset::east_opt`
/// refuses those values.
pub uninterp spec fn chrono_datetime_text(secs: i64, nanos: u32, offset_secs: i32) -> Option<
    Seq<char>,
>;

/// Builds a `chrono::DateTime<chrono::FixedOffset>` from its parts and
/// renders it with `to_string`. The contract claims only that the result is
/// the named text for these parts.
#[verifier::external_body]
pub(crate) fn datetime_text(secs: i64, nanos: u32, offset_secs: i32) -> (res: Option<String>)
    ensures
        res.deep_view() == chrono_datetime_text(secs, nanos, offset_secs),
{
    let utc = match chrono::DateTime::from_timestamp(secs, nanos) {
        Some(utc) => utc,
        None => return None,
    };
    match chrono::FixedOffset::east_opt(offset_secs) {
        Some(offset) => Some(utc.with_timezone(&offset).to_string()),
        None => None,
    }
}

/// The text that `chrono::NaiveDate`'s `Display` gives the local calendar
/// date of the instant `secs`/`nanos` after the Unix epoch at the fixed
/// offset `offset_secs`, or `None` when `chrono` refuses those values or the
/// local date lies outside its range.
pub uninterp spec fn chrono_local_date_text(secs: i64, nanos: u32, offset_secs: i32) -> Option<
    Seq<char>,
>;

/// Builds the same `chrono` instant as `datetime_text`, shifts it by the
/// offset with `chrono::NaiveDateTime::checked_add_offset` and renders its
/// date with `to_string`; this is the text of `DateTime::date_naive`, which
/// panics where the shift leaves `chrono`'s range and this returns `None`.
/// The contract claims only that the result is the named text for these parts.
#[verifier::external_body]
pub(crate) fn local_date_text(secs: i64, nanos: u32, offset_secs: i32) -> (res: Option<String>)
    ensures
        res.deep_view() == chrono_local_date_text(secs, nanos, offset_secs),
{
    let utc = match chrono::DateTime::from_timestamp(secs, nanos) {
        Some(utc) => utc,
        None => return None,
    };
    let offset = match chrono::FixedOffset::east_opt(offset_secs) {
        Some(offset) => offset,
        None => return None,
    };
    match utc.naive_utc().checked_add_offset(offset) {
        Some(local) => Some(local.date().to_string()),
        None => None,
    }
}

}
