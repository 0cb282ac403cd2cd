use precompress::algorithm::Algorithm;
use precompress::report::{alg_savings, calc_savings, format_duration, to_decimal};
use precompress::stats::{AlgStat, Stats};

#[test]
fn savings_are_the_saved_share_in_whole_percent() {
    assert_eq!(calc_savings(50, 50), 50);
    assert_eq!(calc_savings(1300, 700), 65);
    assert_eq!(calc_savings(1, 2), 33);
    assert_eq!(calc_savings(2, 1), 66);
    assert_eq!(calc_savings(29, 71), 29);
    assert_eq!(calc_savings(100, 0), 100);
    assert_eq!(calc_savings(999, 1), 99);
    assert_eq!(calc_savings(i64::MAX, u64::MAX), 33);
}

#[test]
fn savings_are_zero_without_a_source_or_without_a_gain() {
    assert_eq!(calc_savings(0, 0), 0);
    assert_eq!(calc_savings(0, 100), 0);
    assert_eq!(calc_savings(-10, 110), 0);
    assert_eq!(calc_savings(-10, 10), 0);
    assert_eq!(calc_savings(i64::MIN, u64::MAX), 0);
}

#[test]
fn savings_stay_within_a_byte() {
    assert_eq!(calc_savings(-10, 5), 200);
    assert_eq!(calc_savings(-10, 7), 255);
    assert_eq!(calc_savings(-1000, 1), 100);
}

#[test]
fn decimal_text_of_numbers() {
    assert_eq!(to_decimal(0), "0");
    assert_eq!(to_decimal(9), "9");
    assert_eq!(to_decimal(10), "10");
    assert_eq!(to_decimal(1234567890), "1234567890");
    assert_eq!(to_decimal(u128::MAX), format!("{}", u128::MAX));
}

#[test]
fn durations_below_a_second_are_given_in_milliseconds() {
    assert_eq!(format_duration(0), "0ms");
    assert_eq!(format_duration(999_999), "0ms");
    assert_eq!(format_duration(1_000_000), "1ms");
    assert_eq!(format_duration(250_000_000), "250ms");
    assert_eq!(format_duration(999_999_999), "999ms");
}

#[test]
fn durations_from_a_second_are_given_in_seconds() {
    assert_eq!(format_duration(1_000_000_000), "1s");
    assert_eq!(format_duration(1_999_999_999), "1s");
    assert_eq!(format_duration(61_000_000_000), "61s");
    assert_eq!(format_duration(86_400_000_000_000), "86400s");
}

#[test]
fn format_duration_agrees_with_the_standard_duration() {
    for nanos in [0u64, 1, 999_999, 1_000_000, 999_999_999, 1_000_000_000, 123_456_789_012] {
        let dur = std::time::Duration::from_nanos(nanos);
        let expected = if dur.as_millis() < 1_000 {
            format!("{}ms", dur.as_millis())
        } else {
            format!("{}s", dur.as_secs())
        };
        assert_eq!(format_duration(dur.as_nanos()), expected);
    }
}

#[test]
fn the_report_line_of_an_algorithm() {
    let mut stats = Stats::default();
    stats.brotli = AlgStat { total_time: 5, total_bytes: 250, saved_bytes: 750 };
    stats.gzip = AlgStat { total_time: 5, total_bytes: 120, saved_bytes: -20 };
    assert_eq!(alg_savings(Algorithm::Brotli, &stats), "  brotli: 75%");
    assert_eq!(alg_savings(Algorithm::Gzip, &stats), "  gzip: 0%");
    assert_eq!(alg_savings(Algorithm::Zstd, &stats), "  zstd: 0%");
    assert_eq!(alg_savings(Algorithm::Deflate, &stats), "  deflate: 0%");
}
