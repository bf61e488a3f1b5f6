use sift::duration::{
    Duration, TIMESPAN_MAX, fmt_duration, format_iso8601, is_unlimited, parse_iso8601, unlimited,
};

#[test]
fn formats_common_durations() {
    assert_eq!(format_iso8601(Duration::from_mins(1)), "PT1M");
    assert_eq!(format_iso8601(Duration::from_mins(10)), "PT10M");
    assert_eq!(format_iso8601(Duration::from_secs(16)), "PT16S");
    assert_eq!(format_iso8601(Duration::from_secs(14 * 86_400)), "P14D");
    assert_eq!(format_iso8601(Duration::from_secs(0)), "PT0S");
    assert_eq!(format_iso8601(Duration::from_secs(90_061)), "P1DT1H1M1S");
}

#[test]
fn unlimited_round_trips_verbatim() {
    let parsed = parse_iso8601(TIMESPAN_MAX).unwrap();
    assert!(is_unlimited(parsed));
    assert_eq!(format_iso8601(parsed), TIMESPAN_MAX);
}

#[test]
fn parses_what_it_formats() {
    for d in [
        Duration::from_mins(1),
        Duration::from_secs(16),
        Duration::from_secs(14 * 86_400),
        Duration::from_secs(90_061),
        Duration::new(5, 477_580_700),
    ] {
        assert_eq!(parse_iso8601(&format_iso8601(d)).unwrap(), d, "{d:?}");
    }
}

#[test]
fn rejects_year_month_durations() {
    assert!(parse_iso8601("P1Y").is_none());
    assert!(parse_iso8601("P1M").is_none()); // month in date part
    assert!(parse_iso8601("PT1M").is_some()); // minute in time part
}

#[test]
fn parse_reads_each_unit() {
    assert_eq!(parse_iso8601("P2D").unwrap(), Duration::from_secs(2 * 86_400));
    assert_eq!(parse_iso8601("PT3H").unwrap(), Duration::from_secs(3 * 3_600));
    assert_eq!(parse_iso8601("PT1.5S").unwrap(), Duration::new(1, 500_000_000));
    assert_eq!(parse_iso8601("PT0.0000000019S").unwrap(), Duration::new(0, 2));
    assert_eq!(parse_iso8601("P").unwrap(), Duration::from_secs(0));
}

#[test]
fn parse_rejects_malformed_input() {
    assert!(parse_iso8601("").is_none());
    assert!(parse_iso8601("T1M").is_none());
    assert!(parse_iso8601("PT5").is_none());
    assert!(parse_iso8601("PT1.2.3S").is_none());
    assert!(parse_iso8601("PT1.5M").is_none());
    assert!(parse_iso8601("P1H").is_none());
    assert!(parse_iso8601("PT1D").is_none());
    assert!(parse_iso8601("PT1TS").is_none());
    assert!(parse_iso8601("PT99999999999999999999S").is_none());
}

#[test]
fn format_writes_fractions_without_trailing_zeros() {
    assert_eq!(format_iso8601(Duration::new(5, 477_580_700)), "PT5.4775807S");
    assert_eq!(format_iso8601(Duration::new(0, 1)), "PT0.000000001S");
    assert_eq!(format_iso8601(Duration::new(3_600, 0)), "PT1H");
    assert_eq!(format_iso8601(Duration::new(86_400 + 30, 0)), "P1DT30S");
}

#[test]
fn at_or_above_the_sentinel_formats_as_the_sentinel() {
    let mut beyond = unlimited();
    beyond.secs += 1;
    assert!(is_unlimited(beyond));
    assert_eq!(format_iso8601(beyond), TIMESPAN_MAX);
    assert!(!is_unlimited(Duration::from_secs(86_400)));
}

#[test]
fn friendly_durations() {
    assert_eq!(fmt_duration(Duration::from_mins(1)), "1m");
    assert_eq!(fmt_duration(Duration::from_secs(30)), "30s");
    assert_eq!(fmt_duration(Duration::from_secs(14 * 86_400)), "14d");
    assert_eq!(fmt_duration(Duration::from_secs(7_200)), "2h");
    assert_eq!(fmt_duration(Duration::from_secs(0)), "0s");
    assert_eq!(fmt_duration(unlimited()), "unlimited");
}
