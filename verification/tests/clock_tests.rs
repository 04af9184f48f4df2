use lokan_hub::clock::{civil_from_days, rfc3339_from_epoch};

#[test]
fn epoch_renders_as_nineteen_seventy() {
    assert_eq!(rfc3339_from_epoch(0), "1970-01-01T00:00:00Z");
}

#[test]
fn leap_day_renders() {
    // 2000-02-29T00:00:00Z
    assert_eq!(rfc3339_from_epoch(951_782_400), "2000-02-29T00:00:00Z");
}

#[test]
fn modern_timestamp_renders() {
    assert_eq!(rfc3339_from_epoch(1_700_000_000), "2023-11-14T22:13:20Z");
    assert_eq!(rfc3339_from_epoch(1_700_000_000 + 86_399), "2023-11-15T22:13:19Z");
}

#[test]
fn last_second_of_a_year() {
    // 2023-12-31T23:59:59Z
    assert_eq!(rfc3339_from_epoch(1_704_067_199), "2023-12-31T23:59:59Z");
}

#[test]
fn civil_dates_follow_the_gregorian_calendar() {
    assert_eq!(civil_from_days(0), (1970, 1, 1));
    assert_eq!(civil_from_days(31), (1970, 2, 1));
    assert_eq!(civil_from_days(365), (1971, 1, 1));
    // 2000-02-29 is day 11016.
    assert_eq!(civil_from_days(11_016), (2000, 2, 29));
    // 1900 was not a leap year: day 0 of 1900-03-01 era checks via 2100.
    assert_eq!(civil_from_days(47_540), (2100, 2, 28));
    assert_eq!(civil_from_days(47_541), (2100, 3, 1));
}
