//! The calls into `chrono` and `urlencoding`. Nothing in this module is proved:
//! each contract states what the outside function is documented to do.

use vstd::prelude::*;
use crate::text::is_digit;

verus! {

/// Earliest wall-clock reading the library handles, 0000-01-01T00:00:00.000,
/// in milliseconds from 1970-01-01T00:00:00.000 on the same clock.
pub const WALL_CLOCK_MIN: i64 = -62_167_219_200_000;

/// Latest wall-clock reading the library handles, 9999-12-31T23:59:59.999,
/// in milliseconds from 1970-01-01T00:00:00.000 on the same clock.
pub const WALL_CLOCK_MAX: i64 = 253_402_300_799_999;

/// The percent-decoding of a text by `urlencoding::decode`; `None` where the
/// decoded bytes are not UTF-8.
pub uninterp spec fn percent_decoded(text: Seq<char>) -> Option<Seq<char>>;

/// The reading of `text` under the strftime pattern `format` by chrono's
/// `NaiveDateTime::parse_from_str`, in milliseconds from 1970-01-01T00:00:00 on
/// the clock the text was written on; `None` where chrono rejects the text.
pub uninterp spec fn naive_reading(text: Seq<char>, format: Seq<char>) -> Option<i64>;

/// The reading of `text` under the strftime pattern `format` by chrono's
/// `DateTime::parse_from_str`, which asks for an offset in the text, in
/// milliseconds from 1970-01-01T00:00:00 UTC; `None` where chrono rejects the
/// text.
pub uninterp spec fn offset_reading(text: Seq<char>, format: Seq<char>) -> Option<i64>;

/// The rendering by chrono of a wall-clock reading under the pattern
/// `%Y-%m-%dT%H:%M:%S%.3f`.
pub uninterp spec fn wall_clock_text(millis: int) -> Seq<char>;

/// The shape `YYYY-MM-DDTHH:MM:SS.mmm`: twenty-three characters, digits
/// everywhere but at the six separators.
pub open spec fn is_timestamp_shape(text: Seq<char>) -> bool {
    &&& text.len() == 23
    &&& text[4] == '-'
    &&& text[7] == '-'
    &&& text[10] == 'T'
    &&& text[13] == ':'
    &&& text[16] == ':'
    &&& text[19] == '.'
    &&& forall|i: int|
        0 <= i < 23 && i != 4 && i != 7 && i != 10 && i != 13 && i != 16 && i != 19
            ==> is_digit(#[trigger] text[i])
}

/// `urlencoding::decode`: replaces each `%XX` escape by its byte and leaves
/// everything else, a `+` included, as it is. The call fails only where the
/// decoded bytes are not UTF-8.
#[verifier::external_body]
pub(crate) fn percent_decode(text: &str) -> (decoded: Option<String>)
    ensures
        match decoded {
            Some(d) => percent_decoded(text@) == Some(d@),
            None => percent_decoded(text@) is None,
        },
{
    urlencoding::decode(text).ok().map(|d| d.into_owned())
}

/// `NaiveDateTime::parse_from_str`, followed by the conversion of the date and
/// time it read to milliseconds from 1970-01-01T00:00:00 (sub-millisecond
/// digits are cut off). The whole text must match the pattern.
#[verifier::external_body]
pub(crate) fn read_naive(text: &str, format: &str) -> (millis: Option<i64>)
    ensures
        millis == naive_reading(text@, format@),
{
    chrono::NaiveDateTime::parse_from_str(text, format).ok().map(|t| t.and_utc().timestamp_millis())
}

/// `DateTime::parse_from_str`, followed by the conversion of the instant it
/// read to milliseconds from 1970-01-01T00:00:00 UTC (sub-millisecond digits
/// are cut off). The whole text must match the pattern and carry an offset.
#[verifier::external_body]
pub(crate) fn read_with_offset(text: &str, format: &str) -> (millis: Option<i64>)
    ensures
        millis == offset_reading(text@, format@),
{
    chrono::DateTime::parse_from_str(text, format).ok().map(|t| t.timestamp_millis())
}

/// `DateTime::from_timestamp_millis` and `DateTime::format` under the pattern
/// `%Y-%m-%dT%H:%M:%S%.3f`. For a reading between the years 0000 and 9999
/// chrono writes the year with four digits and no sign, every other field
/// zero-padded to its fixed width, and exactly three fractional digits.
#[verifier::external_body]
pub(crate) fn render_wall_clock(millis: i64) -> (text: String)
    requires
        WALL_CLOCK_MIN <= millis <= WALL_CLOCK_MAX,
    ensures
        text@ == wall_clock_text(millis as int),
        is_timestamp_shape(text@),
{
    chrono::DateTime::from_timestamp_millis(millis)
        .map(|t| t.format("%Y-%m-%dT%H:%M:%S%.3f").to_string())
        .unwrap_or_default()
}

/// `Utc::now`, as milliseconds from 1970-01-01T00:00:00 UTC. Nothing is
/// promised of the reading. chrono refuses to run on a machine whose clock is
/// set before 1970.
#[verifier::external_body]
pub(crate) fn utc_clock_millis() -> i64 {
    chrono::Utc::now().timestamp_millis()
}

} // verus!
