use claw_runtime::usage_dashboard::{civil_from_days, format_date_from_ms, push_stat_card};

#[test]
fn test_format_date_from_ms() {
    // 2024-01-01 00:00:00 UTC = 1704067200 seconds
    let ms = 1_704_067_200_000_u64;
    assert_eq!(format_date_from_ms(ms), "2024-01-01");

    // 1970-01-01
    assert_eq!(format_date_from_ms(0), "1970-01-01");

    // 2025-06-15 12:00:00 UTC = 1750075200 seconds
    let ms2 = 1_750_075_200_000_u64;
    assert_eq!(format_date_from_ms(ms2), "2025-06-16");
}

#[test]
fn test_civil_from_days_known_dates() {
    // 1970-01-01 = day 0
    assert_eq!(civil_from_days(0), (1970, 1, 1));
    // 2000-01-01 = day 10957
    assert_eq!(civil_from_days(10957), (2000, 1, 1));
}

#[test]
fn civil_dates_around_leap_days_and_before_the_epoch() {
    assert_eq!(civil_from_days(-1), (1969, 12, 31));
    assert_eq!(civil_from_days(59), (1970, 3, 1));
    assert_eq!(civil_from_days(11016), (2000, 2, 29));
    assert_eq!(civil_from_days(11017), (2000, 3, 1));
    assert_eq!(civil_from_days(-719468), (0, 3, 1));
    assert_eq!(civil_from_days(-719469), (0, 2, 29));
}

#[test]
fn format_date_pads_and_handles_the_largest_instant() {
    assert_eq!(format_date_from_ms(86_399_999), "1970-01-01");
    assert_eq!(format_date_from_ms(86_400_000), "1970-01-02");
    assert_eq!(format_date_from_ms(u64::MAX), "584556019-04-03");
}

#[test]
fn stat_card_markup() {
    let mut html = String::from("<div>");
    push_stat_card(&mut html, "$0.00", "Total Cost");
    assert_eq!(
        html,
        "<div><div class='stat'><div class='stat-value'>$0.00</div><div class='stat-label'>Total Cost</div></div>"
    );
}
