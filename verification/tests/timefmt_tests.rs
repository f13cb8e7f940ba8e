use ani_gui::timefmt::{days_to_ymd, format_epoch_secs, parse_iso8601_z, ymd_to_days};

#[test]
fn format_epoch_secs_epoch_start() {
    assert_eq!(format_epoch_secs(0), "1970-01-01T00:00:00Z");
}

#[test]
fn format_epoch_secs_known_instant() {
    assert_eq!(format_epoch_secs(1_700_000_000), "2023-11-14T22:13:20Z");
}

#[test]
fn format_epoch_secs_leap_day() {
    assert_eq!(format_epoch_secs(951_782_400), "2000-02-29T00:00:00Z");
}

#[test]
fn format_epoch_secs_last_second_of_day() {
    assert_eq!(format_epoch_secs(86_399), "1970-01-01T23:59:59Z");
}

#[test]
fn format_epoch_secs_last_four_digit_year() {
    assert_eq!(format_epoch_secs(253_402_300_799), "9999-12-31T23:59:59Z");
}

#[test]
fn parse_iso8601_z_known_instant() {
    assert_eq!(parse_iso8601_z("2023-11-14T22:13:20Z"), Some(1_700_000_000));
}

#[test]
fn parse_iso8601_z_round_trips_formatted_values() {
    for secs in [0u64, 59, 3_600, 86_399, 951_782_400, 1_700_000_000, 253_402_300_799] {
        assert_eq!(parse_iso8601_z(&format_epoch_secs(secs)), Some(secs));
    }
}

#[test]
fn parse_iso8601_z_rejects_wrong_shapes() {
    assert_eq!(parse_iso8601_z(""), None);
    assert_eq!(parse_iso8601_z("2023-11-14T22:13:20"), None);
    assert_eq!(parse_iso8601_z("2023-11-14 22:13:20Z"), None);
    assert_eq!(parse_iso8601_z("2023-11-14T22:13:20+"), None);
    assert_eq!(parse_iso8601_z("2023-11-14T22:13:20ZZ"), None);
    assert_eq!(parse_iso8601_z("20x3-11-14T22:13:20Z"), None);
    assert_eq!(parse_iso8601_z("2023-1a-14T22:13:20Z"), None);
}

#[test]
fn parse_iso8601_z_rejects_month_and_day_out_of_range() {
    assert_eq!(parse_iso8601_z("2023-13-14T22:13:20Z"), None);
    assert_eq!(parse_iso8601_z("2023-00-14T22:13:20Z"), None);
    assert_eq!(parse_iso8601_z("2023-11-32T22:13:20Z"), None);
    assert_eq!(parse_iso8601_z("2023-11-00T22:13:20Z"), None);
}

#[test]
fn parse_iso8601_z_does_not_check_separators_or_clock_ranges() {
    // Only the `T` and `Z` positions are checked; hours past 23 count on.
    assert_eq!(parse_iso8601_z("1970/01/01T00:00:00Z"), Some(0));
    assert_eq!(parse_iso8601_z("1970-01-01T25:00:00Z"), Some(90_000));
    // A day past the month's end counts on into the next month.
    assert_eq!(parse_iso8601_z("2023-02-31T00:00:00Z"), parse_iso8601_z("2023-03-03T00:00:00Z"));
}

#[test]
fn parse_iso8601_z_accepts_signed_fields() {
    assert_eq!(parse_iso8601_z("1970-01-01T+1:00:00Z"), Some(3_600));
}

#[test]
fn ymd_to_days_values() {
    assert_eq!(ymd_to_days(1970, 1, 1), Some(0));
    assert_eq!(ymd_to_days(1969, 12, 31), Some(-1));
    assert_eq!(ymd_to_days(2000, 3, 1), Some(11_017));
    assert_eq!(ymd_to_days(1, 1, 1), Some(-719_162));
    assert_eq!(ymd_to_days(2000, 0, 1), None);
    assert_eq!(ymd_to_days(2000, 13, 1), None);
    assert_eq!(ymd_to_days(2000, 1, 0), None);
    assert_eq!(ymd_to_days(2000, 1, 32), None);
    assert_eq!(ymd_to_days(20_000_000_000_000_000, 3, 1), Some(7_304_849_999_999_280_532));
    assert_eq!(ymd_to_days(-20_000_000_000_000_000, 1, 31), Some(-7_304_850_000_000_719_498));
    assert_eq!(ymd_to_days(i64::MIN, 1, 0), None);
}

#[test]
fn days_to_ymd_values() {
    assert_eq!(days_to_ymd(0), (1970, 1, 1));
    assert_eq!(days_to_ymd(-1), (1969, 12, 31));
    assert_eq!(days_to_ymd(11_017), (2000, 3, 1));
    assert_eq!(days_to_ymd(11_016), (2000, 2, 29));
    assert_eq!(days_to_ymd(-719_162), (1, 1, 1));
}

#[test]
fn days_to_ymd_inverts_ymd_to_days() {
    for days in [-800_000i64, -719_162, -1, 0, 1, 59, 11_016, 19_675, 2_932_896] {
        let (y, m, d) = days_to_ymd(days);
        assert_eq!(ymd_to_days(y as i64, m, d), Some(days));
    }
}
