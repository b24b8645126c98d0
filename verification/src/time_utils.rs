//! The time normalizer: timestamp text in its several forms to an instant, an
//! instant back to the one form the verifier expects, and the minute
//! differences built on them.

use vstd::prelude::*;
use crate::calendar::{
    is_timestamp_shape, naive_reading, offset_reading, percent_decode, percent_decoded,
    read_naive, read_with_offset, render_wall_clock, wall_clock_text,
};
use crate::instant::{
    elapsed_minutes, elapsed_minutes_spec, quantize_forward, quantize_forward_spec,
    representable, GridPeriod, Instant, DEFAULT_GRID_PERIOD_MILLIS, LOCAL_OFFSET_MILLIS,
};

verus! {

/// The forms of a timestamp without offset, in the order in which they are
/// tried: with `T`, with `+` and with a space between date and time, each with
/// and without a fraction of a second.
pub open spec fn naive_patterns() -> Seq<Seq<char>> {
    seq![
        "%Y-%m-%dT%H:%M:%S%.f"@,
        "%Y-%m-%dT%H:%M:%S"@,
        "%Y-%m-%d+%H:%M:%S%.f"@,
        "%Y-%m-%d+%H:%M:%S"@,
        "%Y-%m-%d %H:%M:%S%.f"@,
        "%Y-%m-%d %H:%M:%S"@,
    ]
}

/// The reading of `text` under the first of the patterns from number `from`
/// on that accepts it.
pub open spec fn first_naive_reading(text: Seq<char>, from: int) -> Option<i64>
    decreases naive_patterns().len() - from,
{
    if from < 0 || from >= naive_patterns().len() {
        None
    } else if naive_reading(text, naive_patterns()[from]) is Some {
        naive_reading(text, naive_patterns()[from])
    } else {
        first_naive_reading(text, from + 1)
    }
}

/// The forms of a timestamp with an explicit offset (`Z`, `+08`, `+0800` or
/// `+08:00`), in the order in which they are tried: with `T`, with `+` and
/// with a space between date and time; the fraction of a second may be
/// missing.
pub open spec fn offset_patterns() -> Seq<Seq<char>> {
    seq![
        "%Y-%m-%dT%H:%M:%S%.f%#z"@,
        "%Y-%m-%d+%H:%M:%S%.f%#z"@,
        "%Y-%m-%d %H:%M:%S%.f%#z"@,
    ]
}

/// The reading of `text` under the first of the patterns with offset, from
/// number `from` on, that accepts it.
pub open spec fn first_offset_reading(text: Seq<char>, from: int) -> Option<i64>
    decreases offset_patterns().len() - from,
{
    if from < 0 || from >= offset_patterns().len() {
        None
    } else if offset_reading(text, offset_patterns()[from]) is Some {
        offset_reading(text, offset_patterns()[from])
    } else {
        first_offset_reading(text, from + 1)
    }
}

/// The instant that a decoded timestamp names, in milliseconds from the epoch
/// in UTC. A text without offset is taken to be written on the local wall
/// clock; one that no form without offset accepts is read with the offset it
/// carries.
pub open spec fn utc_reading(decoded: Seq<char>) -> Option<int> {
    match first_naive_reading(decoded, 0) {
        Some(local) => Some(local - LOCAL_OFFSET_MILLIS),
        None => match first_offset_reading(decoded, 0) {
            Some(utc) => Some(utc as int),
            None => None,
        },
    }
}

/// The instant that a timestamp text names: the text is percent-decoded, read
/// under the first form that accepts it, and kept if the library can represent
/// the instant.
pub open spec fn parsed_time(text: Seq<char>) -> Option<int> {
    match percent_decoded(text) {
        Some(decoded) => match utc_reading(decoded) {
            Some(utc) => if representable(utc) {
                Some(utc)
            } else {
                None
            },
            None => None,
        },
        None => None,
    }
}

/// The text of an instant: the reading of the local wall clock as
/// `YYYY-MM-DDTHH:MM:SS.mmm`.
pub open spec fn formatted_time(utc_millis: int) -> Seq<char> {
    wall_clock_text(utc_millis + LOCAL_OFFSET_MILLIS)
}

/// The signed whole minutes from the instant that the first text names to the
/// instant that the second names, negative where the second lies before the
/// first; none where either text names no instant.
pub open spec fn time_diff_spec(time1: Seq<char>, time2: Seq<char>) -> Option<int> {
    match (parsed_time(time1), parsed_time(time2)) {
        (Some(from), Some(to)) => Some(elapsed_minutes_spec(from, to)),
        _ => None,
    }
}

/// The signed whole minutes from the instant that a text names to `now`,
/// negative where the text names an instant after `now`; zero where the text
/// names no instant.
pub open spec fn minutes_since_spec(from_time: Seq<char>, now: int) -> int {
    match parsed_time(from_time) {
        Some(from) => elapsed_minutes_spec(from, now),
        None => 0,
    }
}

/// A timestamp text that matches no known form. Carries the text as it was
/// given.
#[derive(Debug, PartialEq, Eq)]
pub struct UnparseableTime {
    pub text: String,
}

impl Clone for UnparseableTime {
    fn clone(&self) -> (copy: Self)
        ensures
            copy == *self,
    {
        UnparseableTime { text: self.text.clone() }
    }
}

fn naive_pattern(number: usize) -> (pattern: &'static str)
    requires
        number < 6,
    ensures
        pattern@ == naive_patterns()[number as int],
{
    if number == 0 {
        "%Y-%m-%dT%H:%M:%S%.f"
    } else if number == 1 {
        "%Y-%m-%dT%H:%M:%S"
    } else if number == 2 {
        "%Y-%m-%d+%H:%M:%S%.f"
    } else if number == 3 {
        "%Y-%m-%d+%H:%M:%S"
    } else if number == 4 {
        "%Y-%m-%d %H:%M:%S%.f"
    } else {
        "%Y-%m-%d %H:%M:%S"
    }
}

fn offset_pattern(number: usize) -> (pattern: &'static str)
    requires
        number < 3,
    ensures
        pattern@ == offset_patterns()[number as int],
{
    if number == 0 {
        "%Y-%m-%dT%H:%M:%S%.f%#z"
    } else if number == 1 {
        "%Y-%m-%d+%H:%M:%S%.f%#z"
    } else {
        "%Y-%m-%d %H:%M:%S%.f%#z"
    }
}

/// The reading of a decoded timestamp without offset, under the first form
/// that accepts it.
fn read_first_naive(decoded: &str) -> (local: Option<i64>)
    ensures
        local == first_naive_reading(decoded@, 0),
{
    let mut local: Option<i64> = None;
    let mut number: usize = 0;
    while number < 6 && local.is_none()
        invariant
            number <= 6,
            naive_patterns().len() == 6,
            first_naive_reading(decoded@, 0) == if local is Some {
                local
            } else {
                first_naive_reading(decoded@, number as int)
            },
        decreases 6 - number,
    {
        local = read_naive(decoded, naive_pattern(number));
        number += 1;
    }
    local
}

/// The reading of a decoded timestamp with offset, under the first form that
/// accepts it.
fn read_first_offset(decoded: &str) -> (utc: Option<i64>)
    ensures
        utc == first_offset_reading(decoded@, 0),
{
    let mut utc: Option<i64> = None;
    let mut number: usize = 0;
    while number < 3 && utc.is_none()
        invariant
            number <= 3,
            offset_patterns().len() == 3,
            first_offset_reading(decoded@, 0) == if utc is Some {
                utc
            } else {
                first_offset_reading(decoded@, number as int)
            },
        decreases 3 - number,
    {
        utc = read_with_offset(decoded, offset_pattern(number));
        number += 1;
    }
    utc
}

/// The time normalizer.
pub struct TimeProcessor {}

impl TimeProcessor {
    /// Reads a timestamp text. Fails, with the text, where it is not
    /// percent-decodable, where no form accepts it, or where it names an
    /// instant outside the years 0000 to 9999.
    pub fn parse_time_string(time_str: &str) -> (result: Result<Instant, UnparseableTime>)
        ensures
            match result {
                Ok(instant) => parsed_time(time_str@) == Some(instant@),
                Err(e) => parsed_time(time_str@) is None && e.text@ == time_str@,
            },
    {
        let decoded = match percent_decode(time_str) {
            Some(d) => d,
            None => {
                return Err(UnparseableTime { text: time_str.to_owned() });
            },
        };
        let instant = match read_first_naive(decoded.as_str()) {
            Some(local) => Instant::from_wall_clock_millis(local),
            None => match read_first_offset(decoded.as_str()) {
                Some(utc) => Instant::from_millis(utc),
                None => None,
            },
        };
        match instant {
            Some(t) => Ok(t),
            None => Err(UnparseableTime { text: time_str.to_owned() }),
        }
    }

    /// The latest point of the grid of `scanned_time` that is not after the
    /// reading of the system clock, under the default grid period.
    pub fn calculate_final_time(scanned_time: Instant) -> (final_time: Instant)
        ensures
            final_time@ >= scanned_time@,
            (final_time@ - scanned_time@) % (DEFAULT_GRID_PERIOD_MILLIS as int) == 0,
            exists|now: int|
                final_time@ == quantize_forward_spec(
                    scanned_time@,
                    now,
                    DEFAULT_GRID_PERIOD_MILLIS as int,
                ),
    {
        let now = Instant::now();
        quantize_forward(scanned_time, now, GridPeriod::default())
    }

    /// Writes an instant as the local wall clock reads it, in the shape
    /// `YYYY-MM-DDTHH:MM:SS.mmm`.
    pub fn format_time_with_centiseconds(time: Instant) -> (text: String)
        ensures
            text@ == formatted_time(time@),
            is_timestamp_shape(text@),
    {
        render_wall_clock(time.wall_clock_millis())
    }
}

/// The reading of the system clock, written as the local wall clock reads it.
pub fn format_current_time() -> (text: String)
    ensures
        is_timestamp_shape(text@),
        exists|now: int| representable(now) && text@ == formatted_time(now),
{
    let now = Instant::now();
    TimeProcessor::format_time_with_centiseconds(now)
}

/// The reading of the system clock, written as the local wall clock reads it.
pub fn get_formatted_time() -> (text: String)
    ensures
        is_timestamp_shape(text@),
        exists|now: int| representable(now) && text@ == formatted_time(now),
{
    format_current_time()
}

/// The signed whole minutes from the instant that `time1` names to the
/// instant that `time2` names, negative where `time2` lies before `time1`;
/// none where either text names no instant. The sign is kept for the caller to
/// use or to drop.
pub fn time_diff_in_minutes(time1: &str, time2: &str) -> (minutes: Option<i64>)
    ensures
        match minutes {
            Some(m) => time_diff_spec(time1@, time2@) == Some(m as int),
            None => time_diff_spec(time1@, time2@) is None,
        },
{
    let from = match TimeProcessor::parse_time_string(time1) {
        Ok(t) => t,
        Err(_) => {
            return None;
        },
    };
    let to = match TimeProcessor::parse_time_string(time2) {
        Ok(t) => t,
        Err(_) => {
            return None;
        },
    };
    Some(elapsed_minutes(from, to))
}

/// The signed whole minutes from the instant that `from_time` names to `now`,
/// negative where `from_time` lies after `now`; zero where `from_time` names
/// no instant.
pub fn minutes_since(from_time: &str, now: Instant) -> (minutes: i64)
    ensures
        minutes == minutes_since_spec(from_time@, now@),
        -6_000_000_000 < minutes < 6_000_000_000,
{
    match TimeProcessor::parse_time_string(from_time) {
        Ok(from) => elapsed_minutes(from, now),
        Err(_) => 0,
    }
}

/// The signed whole minutes from the instant that `from_time` names to the
/// reading of the system clock; zero where `from_time` names no instant.
pub fn time_diff_from_now(from_time: &str) -> (minutes: i64)
    ensures
        parsed_time(from_time@) is None ==> minutes == 0,
        exists|now: int| representable(now) && minutes == minutes_since_spec(from_time@, now),
{
    let now = Instant::now();
    minutes_since(from_time, now)
}

/// Whether both texts name instants and the second lies at least zero and at
/// most `gap_time` whole minutes after the first.
pub fn compare_formatted_time(time1: &str, time2: &str, gap_time: u64) -> (within: bool)
    ensures
        within == match (parsed_time(time1@), parsed_time(time2@)) {
            (Some(from), Some(to)) => 0 <= elapsed_minutes_spec(from, to) <= gap_time,
            _ => false,
        },
{
    let from = match TimeProcessor::parse_time_string(time1) {
        Ok(t) => t,
        Err(_) => {
            return false;
        },
    };
    let to = match TimeProcessor::parse_time_string(time2) {
        Ok(t) => t,
        Err(_) => {
            return false;
        },
    };
    let signed: i64 = elapsed_minutes(from, to);
    signed >= 0 && (signed as u64) <= gap_time
}

} // verus!
