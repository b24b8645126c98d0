use class_checkin::instant::{
    elapsed_minutes, quantize_forward, GridPeriod, Instant, DEFAULT_GRID_PERIOD_MILLIS,
    LOCAL_OFFSET_MILLIS,
};
use class_checkin::time_utils::{
    compare_formatted_time, format_current_time, get_formatted_time, minutes_since,
    time_diff_from_now, time_diff_in_minutes, TimeProcessor,
};

fn at(text: &str) -> Instant {
    TimeProcessor::parse_time_string(text).expect("a timestamp")
}

fn text_of(instant: Instant) -> String {
    TimeProcessor::format_time_with_centiseconds(instant)
}

fn has_timestamp_shape(text: &str) -> bool {
    let bytes = text.as_bytes();
    bytes.len() == 23
        && bytes.iter().enumerate().all(|(i, b)| match i {
            4 | 7 => *b == b'-',
            10 => *b == b'T',
            13 | 16 => *b == b':',
            19 => *b == b'.',
            _ => b.is_ascii_digit(),
        })
}

#[test]
fn parses_local_timestamp_to_utc_millis() {
    // 2025-06-04T09:52:14.040 at UTC+8 is 2025-06-04T01:52:14.040Z.
    assert_eq!(at("2025-06-04T09:52:14.040").millis(), 1_749_001_934_040);
    assert_eq!(at("2025-06-04T09:52:14.040").wall_clock_millis(), 1_749_001_934_040 + LOCAL_OFFSET_MILLIS);
    assert_eq!(at("1970-01-01T08:00:00").millis(), 0);
}

#[test]
fn accepts_every_form_of_the_same_instant() {
    let expected = at("2025-06-04T09:52:14.040");
    assert_eq!(at("2025-06-04T09:52:14.04"), expected);
    assert_eq!(at("2025-06-04+09:52:14.04"), expected);
    assert_eq!(at("2025-06-04 09:52:14.040"), expected);
    assert_eq!(at("2025-06-04T09:52:14.040+08:00"), expected);
    assert_eq!(at("2025-06-04T01:52:14.040Z"), expected);
    assert_eq!(at("2025-06-04 03:52:14.040+02:00"), expected);
    assert_eq!(at("2025-06-04+09:52:14.040+08:00"), expected);
    assert_eq!(at("2025-06-04+01:52:14.04Z"), expected);
    assert_eq!(at("2025-06-03T20:52:14.040-0500"), expected);
    assert_eq!(at("2025-06-04T01:52:14.040Z").millis(), 1_749_001_934_040);
    let whole = at("2025-06-04T09:52:14");
    assert_eq!(whole.millis(), 1_749_001_934_000);
    assert_eq!(at("2025-06-04+09:52:14"), whole);
    assert_eq!(at("2025-06-04 09:52:14"), whole);
    assert_eq!(at("2025-06-04T09:52:14+08:00"), whole);
}

#[test]
fn accepts_single_digit_month_and_day() {
    assert_eq!(at("2025-6-9T21:30:04.003"), at("2025-06-09T21:30:04.003"));
}

#[test]
fn decodes_percent_escapes_before_reading() {
    let expected = at("2025-06-04T09:52:14.040");
    assert_eq!(at("2025-06-04T09%3A52%3A14.040"), expected);
    assert_eq!(at("2025-06-04%2B09%3A52%3A14.04"), expected);
    assert_eq!(at("2025-06-04%2009:52:14.04"), expected);
}

#[test]
fn unparseable_time_carries_the_text() {
    for text in ["", "yesterday", "2025-06-04", "2025-13-04T09:52:14", "2025-06-04T25:00:00",
        "2025-06-04T09:52:14.040 trailing", "2025/06/04 09:52:14"]
    {
        let error = TimeProcessor::parse_time_string(text).expect_err("no timestamp");
        assert_eq!(error.text, text);
    }
}

#[test]
fn undecodable_escape_is_unparseable() {
    let error = TimeProcessor::parse_time_string("2025-06-04T09:52:14%FF").expect_err("no text");
    assert_eq!(error.text, "2025-06-04T09:52:14%FF");
}

#[test]
fn years_beyond_four_digits_are_unparseable() {
    assert!(TimeProcessor::parse_time_string("+10000-01-01T00:00:00").is_err());
    assert!(TimeProcessor::parse_time_string("-0001-12-31T23:59:59").is_err());
    assert!(TimeProcessor::parse_time_string("9999-12-31T23:59:59.999").is_ok());
    assert!(TimeProcessor::parse_time_string("0000-01-01T00:00:00").is_ok());
}

#[test]
fn formats_with_three_fraction_digits() {
    assert_eq!(text_of(at("2025-06-04T09:52:14.04")), "2025-06-04T09:52:14.040");
    assert_eq!(text_of(at("2025-06-04 09:52:14")), "2025-06-04T09:52:14.000");
    assert_eq!(text_of(at("2025-06-04T09:52:14.0409")), "2025-06-04T09:52:14.040");
    assert_eq!(text_of(at("0000-01-01T00:00:00")), "0000-01-01T00:00:00.000");
    assert_eq!(text_of(at("9999-12-31T23:59:59.999")), "9999-12-31T23:59:59.999");
    assert_eq!(text_of(Instant::from_millis(0).unwrap()), "1970-01-01T08:00:00.000");
}

#[test]
fn wall_clock_range_is_the_four_digit_years() {
    assert_eq!(at("0000-01-01T00:00:00").wall_clock_millis(), -62_167_219_200_000);
    assert_eq!(at("9999-12-31T23:59:59.999").wall_clock_millis(), 253_402_300_799_999);
    assert_eq!(text_of(Instant::saturating_from_millis(i64::MIN)), "0000-01-01T00:00:00.000");
    assert_eq!(text_of(Instant::saturating_from_millis(i64::MAX)), "9999-12-31T23:59:59.999");
}

#[test]
fn formatted_text_reads_back() {
    for text in ["2025-06-04T09:52:14.040", "1999-12-31T23:59:59.999", "2024-02-29T00:00:00.001"] {
        assert_eq!(text_of(at(text)), text);
    }
}

#[test]
fn instant_bounds() {
    let min = -62_167_219_200_000 - LOCAL_OFFSET_MILLIS;
    let max = 253_402_300_799_999 - LOCAL_OFFSET_MILLIS;
    assert_eq!(Instant::from_millis(min).map(|t| t.millis()), Some(min));
    assert_eq!(Instant::from_millis(max).map(|t| t.millis()), Some(max));
    assert_eq!(Instant::from_millis(min - 1), None);
    assert_eq!(Instant::from_millis(max + 1), None);
    assert_eq!(Instant::from_millis(i64::MIN), None);
    assert_eq!(Instant::saturating_from_millis(i64::MIN).millis(), min);
    assert_eq!(Instant::saturating_from_millis(i64::MAX).millis(), max);
    assert_eq!(Instant::saturating_from_millis(42).millis(), 42);
    assert_eq!(Instant::from_wall_clock_millis(LOCAL_OFFSET_MILLIS).map(|t| t.millis()), Some(0));
    assert_eq!(Instant::from_wall_clock_millis(253_402_300_800_000), None);
}

#[test]
fn grid_period_must_be_positive() {
    assert_eq!(GridPeriod::from_millis(0), None);
    assert_eq!(GridPeriod::from_seconds(0), None);
    assert_eq!(GridPeriod::from_seconds(u64::MAX), None);
    assert_eq!(GridPeriod::from_seconds(5).map(|p| p.millis()), Some(5_000));
    assert_eq!(GridPeriod::from_millis(1).map(|p| p.millis()), Some(1));
    assert_eq!(GridPeriod::default().millis(), DEFAULT_GRID_PERIOD_MILLIS);
}

#[test]
fn quantizes_to_latest_grid_point() {
    let base = at("2025-06-04T09:52:14.040");
    let now = at("2025-06-04T09:52:27.500");
    let period = GridPeriod::from_seconds(5).unwrap();
    let point = quantize_forward(base, now, period);
    assert_eq!(text_of(point), "2025-06-04T09:52:24.040");
}

#[test]
fn quantize_keeps_base_before_it() {
    let base = at("2025-06-04T09:52:14.040");
    let period = GridPeriod::from_seconds(5).unwrap();
    assert_eq!(quantize_forward(base, at("2025-06-04T09:52:14.039"), period), base);
    assert_eq!(quantize_forward(base, at("2020-01-01T00:00:00"), period), base);
    assert_eq!(quantize_forward(base, base, period), base);
}

#[test]
fn quantize_lands_on_grid_edges() {
    let base = at("2025-06-04T09:52:14.040");
    let period = GridPeriod::from_seconds(5).unwrap();
    assert_eq!(text_of(quantize_forward(base, at("2025-06-04T09:52:19.039"), period)), "2025-06-04T09:52:14.040");
    assert_eq!(text_of(quantize_forward(base, at("2025-06-04T09:52:19.040"), period)), "2025-06-04T09:52:19.040");
    assert_eq!(text_of(quantize_forward(base, at("2025-06-05T09:52:14.041"), period)), "2025-06-05T09:52:14.040");
}

#[test]
fn quantize_properties_on_a_sweep_of_values() {
    let base = at("2025-06-04T09:52:14.040");
    for period_ms in [1u64, 7, 1_000, 5_000, 86_400_000] {
        let period = GridPeriod::from_millis(period_ms).unwrap();
        for step in 0..500i64 {
            let now = Instant::from_millis(base.millis() + step * 1_237).unwrap();
            let point = quantize_forward(base, now, period);
            assert!(point.millis() <= now.millis());
            assert!(point.millis() >= base.millis());
            assert_eq!((point.millis() - base.millis()) % period_ms as i64, 0);
            assert!(point.millis() + period_ms as i64 > now.millis());
        }
    }
}

#[test]
fn quantize_spans_the_whole_range() {
    let first = Instant::saturating_from_millis(i64::MIN);
    let last = Instant::saturating_from_millis(i64::MAX);
    let period = GridPeriod::from_millis(u64::MAX).unwrap();
    assert_eq!(quantize_forward(first, last, period), first);
    let second = GridPeriod::from_seconds(1).unwrap();
    assert_eq!(text_of(quantize_forward(first, last, second)), "9999-12-31T23:59:59.000");
}

#[test]
fn elapsed_minutes_is_signed() {
    let a = at("2025-06-04T09:00:00");
    let b = at("2025-06-04T09:21:59");
    assert_eq!(elapsed_minutes(a, b), 21);
    assert_eq!(elapsed_minutes(b, a), -21);
    assert_eq!(elapsed_minutes(a, a), 0);
    assert_eq!(elapsed_minutes(a, at("2025-06-04T09:00:59.999")), 0);
    assert_eq!(elapsed_minutes(at("2025-06-04T09:00:59.999"), a), 0);
    assert_eq!(elapsed_minutes(a, at("2025-06-04T09:01:00")), 1);
    assert_eq!(elapsed_minutes(a, at("2025-06-05T09:00:00")), 1440);
}

#[test]
fn time_diff_is_signed() {
    assert_eq!(time_diff_in_minutes("2025-06-04T09:00:00", "2025-06-04T09:21:59"), Some(21));
    assert_eq!(time_diff_in_minutes("2025-06-04T09:21:59", "2025-06-04T09:00:00"), Some(-21));
    assert_eq!(
        time_diff_in_minutes("2025-06-04T10:12:14+08:00", "2025-06-04T09:52:14+08:00"),
        Some(-20)
    );
    assert_eq!(
        time_diff_in_minutes("2025-06-04T09:52:14+08:00", "2025-06-04T10:12:14+08:00"),
        Some(20)
    );
    assert_eq!(time_diff_in_minutes("2025-06-04T09:00:30", "2025-06-04T09:00:00"), Some(0));
    assert_eq!(time_diff_in_minutes("2025-06-04T09:00:00", "2025-06-04T01:00:00Z"), Some(0));
    assert_eq!(time_diff_in_minutes("never", "2025-06-04T09:00:00"), None);
    assert_eq!(time_diff_in_minutes("2025-06-04T09:00:00", "never"), None);
}

#[test]
fn minutes_since_counts_from_the_text() {
    let now = at("2025-06-04T12:00:00");
    assert_eq!(minutes_since("2025-06-04T08:39:30", now), 200);
    assert_eq!(minutes_since("2025-06-04T15:20:30", now), -200);
    assert_eq!(minutes_since("2025-06-04T12:00:00", now), 0);
    assert_eq!(minutes_since("garbled", now), 0);
}

#[test]
fn time_diff_from_now_reads_the_clock() {
    assert_eq!(time_diff_from_now("garbled"), 0);
    assert!(time_diff_from_now("2000-01-01T00:00:00") > 13_000_000);
    assert!(time_diff_from_now("9000-01-01T00:00:00") < -13_000_000);
    let now_text = get_formatted_time();
    let since = time_diff_from_now(&now_text);
    assert!(0 <= since && since <= 1);
}

#[test]
fn compares_within_a_gap() {
    assert!(compare_formatted_time("2025-06-04T09:00:00.000", "2025-06-04T09:05:59.999", 5));
    assert!(!compare_formatted_time("2025-06-04T09:00:00.000", "2025-06-04T09:06:00.000", 5));
    assert!(compare_formatted_time("2025-06-04T09:00:00.000", "2025-06-04T09:00:00.000", 0));
    assert!(!compare_formatted_time("2025-06-04T09:01:00.000", "2025-06-04T09:00:00.000", 5));
    assert!(!compare_formatted_time("soon", "2025-06-04T09:00:00.000", 5));
    assert!(!compare_formatted_time("2025-06-04T09:00:00.000", "soon", 5));
    assert!(compare_formatted_time("0000-01-01T00:00:00", "9999-12-31T23:59:59", u64::MAX));
}

#[test]
fn current_time_has_the_timestamp_shape() {
    let a = get_formatted_time();
    let b = format_current_time();
    assert!(has_timestamp_shape(&a), "{}", a);
    assert!(has_timestamp_shape(&b), "{}", b);
    assert!(at(&a).millis() <= at(&b).millis());
    let now = Instant::now();
    assert!(now.millis() >= at(&b).millis());
}

#[test]
fn final_time_lies_on_the_default_grid() {
    let scanned = at("2025-06-04T09:52:14.040");
    let before = Instant::now();
    let point = TimeProcessor::calculate_final_time(scanned);
    let after = Instant::now();
    assert_eq!((point.millis() - scanned.millis()) % 5_000, 0);
    assert!(point.millis() > before.millis() - 5_000);
    assert!(point.millis() <= after.millis());
    let ahead = Instant::saturating_from_millis(i64::MAX);
    assert_eq!(TimeProcessor::calculate_final_time(ahead), ahead);
}
