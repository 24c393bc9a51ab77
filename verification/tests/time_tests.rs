//! Wall-clock behaviour: the day boundary, civil-date conversion, and the
//! fixed test clock, cross-checked against chrono.

use better_tactics::rating::DEFAULT_VOLATILITY_BITS;
use better_tactics::srs::{ReviewOrder, SrsConfig};
use better_tactics::time::{timestamp_from_civil, LocalTimeProvider, TestTimeProvider, Timestamp};

fn config_with_day_end(day_end_seconds: u32) -> SrsConfig {
    SrsConfig {
        default_ease: 250,
        minimum_ease: 130,
        easy_bonus: 130,
        day_end_seconds,
        review_order: ReviewOrder::DueTime,
    }
}

fn chrono_utc_seconds(rfc3339: &str) -> i64 {
    chrono::DateTime::parse_from_rfc3339(rfc3339)
        .unwrap()
        .timestamp()
}

#[test]
fn test_day_end_datetime() {
    let srs = config_with_day_end(4 * 3600);

    let expected = chrono_utc_seconds("2023-10-07T04:00:00+00:00");

    // A regular-ish time in the middle of the day rolls to the following
    // day's boundary.
    let now = timestamp_from_civil(2023, 10, 6, 9, 26, 0, 0);
    assert_eq!(srs.day_end_datetime(now).utc_seconds, expected);

    // Just before midnight.
    let now = timestamp_from_civil(2023, 10, 6, 23, 59, 59, 0);
    assert_eq!(srs.day_end_datetime(now).utc_seconds, expected);

    // At midnight the boundary does not skip a day.
    let now = timestamp_from_civil(2023, 10, 7, 0, 0, 0, 0);
    assert_eq!(srs.day_end_datetime(now).utc_seconds, expected);

    // Just after midnight.
    let now = timestamp_from_civil(2023, 10, 7, 0, 0, 1, 0);
    assert_eq!(srs.day_end_datetime(now).utc_seconds, expected);

    // Just before the boundary.
    let now = timestamp_from_civil(2023, 10, 7, 3, 59, 59, 0);
    assert_eq!(srs.day_end_datetime(now).utc_seconds, expected);

    // At the boundary itself the next one is a day later.
    let now = timestamp_from_civil(2023, 10, 7, 4, 0, 0, 0);
    assert_eq!(
        srs.day_end_datetime(now).utc_seconds,
        chrono_utc_seconds("2023-10-08T04:00:00+00:00")
    );
}

#[test]
fn test_provider_now() {
    let positive_offset = 4 * 3600 + 5 * 60;
    let tp_positive = TestTimeProvider::new(timestamp_from_civil(2000, 7, 14, 1, 2, 3, positive_offset));
    let tp_negative = TestTimeProvider::new(timestamp_from_civil(2000, 7, 14, 1, 2, 3, -positive_offset));

    assert_eq!(
        tp_positive.now().utc_seconds,
        chrono_utc_seconds("2000-07-14T01:02:03+04:05")
    );
    assert_eq!(tp_positive.now().offset_seconds, positive_offset);
    assert_eq!(
        tp_negative.now().utc_seconds,
        chrono_utc_seconds("2000-07-14T01:02:03-04:05")
    );
    assert_eq!(tp_negative.now().offset_seconds, -positive_offset);
}

#[test]
fn day_end_respects_the_clock_offset() {
    // 01:00 UTC on a clock five hours behind is 20:00 local the previous
    // day, so the next 04:00 local boundary is 09:00 UTC.
    let srs = config_with_day_end(4 * 3600);
    let now = Timestamp::new(chrono_utc_seconds("2023-06-02T01:00:00+00:00"), -5 * 3600);
    let day_end = srs.day_end_datetime(now);
    assert_eq!(day_end.utc_seconds, chrono_utc_seconds("2023-06-02T09:00:00+00:00"));
    assert_eq!(day_end.offset_seconds, now.offset_seconds);
}

#[test]
fn civil_conversion_matches_chrono() {
    let cases = [
        (1970, 1, 1, 0, 0, 0, 0, "1970-01-01T00:00:00+00:00"),
        (2000, 2, 29, 12, 30, 15, 0, "2000-02-29T12:30:15+00:00"),
        (2023, 10, 7, 4, 0, 0, 0, "2023-10-07T04:00:00+00:00"),
        (2100, 3, 1, 23, 59, 59, 0, "2100-03-01T23:59:59+00:00"),
        (1999, 12, 31, 1, 2, 3, 3600, "1999-12-31T01:02:03+01:00"),
    ];
    for (y, mo, d, h, mi, s, off, rfc) in cases {
        let ts = timestamp_from_civil(y, mo, d, h, mi, s, off);
        assert_eq!(ts.utc_seconds, chrono_utc_seconds(rfc), "mismatch for {rfc}");
    }
}

#[test]
fn local_time_provider_reports_a_sane_clock() {
    let now = LocalTimeProvider::now();
    assert!(now.offset_seconds > -86_400 && now.offset_seconds < 86_400);
    // The build environment's clock is after 2020.
    assert!(now.utc_seconds > 1_577_836_800);
}

#[test]
fn default_volatility_bits_encode_the_default_volatility() {
    assert_eq!(f64::from_bits(DEFAULT_VOLATILITY_BITS), 0.06);
}
