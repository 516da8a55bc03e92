use dsboard::dates::{
    civil_from_days, date_at, day_text, days_from_civil, local_date_from_rfc3339, local_day_at,
    today_local, unix_now, unix_time_of,
};

#[test]
fn civil_round_trip() {
    for (y, m, d) in [(1970, 1, 1), (2026, 7, 13), (2026, 8, 15), (2000, 2, 29)] {
        let z = days_from_civil(y, m, d);
        assert_eq!(civil_from_days(z), (y, m, d));
    }
}

#[test]
fn rfc3339_plus8_to_local() {
    let d = local_date_from_rfc3339("2026-07-14T00:00:00+08:00", 480).unwrap();
    assert_eq!(d, "2026-07-14");
    let d = local_date_from_rfc3339("2026-07-14T00:00:00+08:00", 0).unwrap();
    assert_eq!(d, "2026-07-13");
    let d = local_date_from_rfc3339("2026-07-14T00:00:00Z", 0).unwrap();
    assert_eq!(d, "2026-07-14");
}

#[test]
fn day_numbers_count_days() {
    assert_eq!(days_from_civil(1970, 1, 1), 0);
    assert_eq!(days_from_civil(1969, 12, 31), -1);
    assert_eq!(days_from_civil(2000, 3, 1), 11_017);
    assert_eq!(days_from_civil(2000, 2, 29) + 1, days_from_civil(2000, 3, 1));
    assert_eq!(days_from_civil(1900, 2, 28) + 1, days_from_civil(1900, 3, 1));
    assert_eq!(days_from_civil(0, 3, 1), -719_468);
}

#[test]
fn day_numbers_run_through_the_calendar() {
    let mut before = civil_from_days(-800_000);
    for z in -799_999..-799_000 {
        let date = civil_from_days(z);
        assert_eq!(days_from_civil(date.0, date.1, date.2), z);
        assert!(date > before);
        before = date;
    }
}

#[test]
fn far_day_numbers_have_dates() {
    let (y, m, d) = civil_from_days(i64::MAX);
    assert!(y > 25_000_000_000_000_000 && (1..=12).contains(&m) && (1..=31).contains(&d));
    let (y, m, d) = civil_from_days(i64::MIN);
    assert!(y < -25_000_000_000_000_000 && (1..=12).contains(&m) && (1..=31).contains(&d));
}

#[test]
fn timestamps_that_are_none() {
    assert_eq!(local_date_from_rfc3339("2026-07-14", 0), None);
    assert_eq!(local_date_from_rfc3339("", 0), None);
    assert_eq!(local_date_from_rfc3339("2026-07-14T00:00:0xZ", 0), None);
    assert_eq!(local_date_from_rfc3339("2026-07-14T00:00:00?", 0), None);
    assert_eq!(local_date_from_rfc3339("2026-07-14T00:00:00+08", 0), None);
    assert_eq!(local_date_from_rfc3339("二〇二六-07-14T00:00:00Z", 0), None);
}

#[test]
fn timestamps_across_zones() {
    let at = |s: &str, off: i32| local_date_from_rfc3339(s, off).unwrap();
    assert_eq!(at("2026-01-01T00:30:00+08:00", -300), "2025-12-31");
    assert_eq!(at("2026-12-31T23:30:00-05:00", 0), "2027-01-01");
    assert_eq!(at("2024-02-28T23:59:59Z", 1), "2024-02-29");
    assert_eq!(at("0000-01-01T00:00:00Z", -1), "-001-12-31");
}

#[test]
fn own_zone_keeps_the_date() {
    for off in [-720, -330, 0, 345, 480, 840] {
        let sign = if off < 0 { '-' } else { '+' };
        let size: i32 = if off < 0 { -off } else { off };
        let s = format!("2026-07-14T13:00:00{}{:02}:{:02}", sign, size / 60, size % 60);
        assert_eq!(local_date_from_rfc3339(&s, off).unwrap(), "2026-07-14");
    }
}

#[test]
fn clock_readings() {
    assert_eq!(unix_time_of(None), 0);
    assert_eq!(unix_time_of(Some(1_754_000_000)), 1_754_000_000);
    assert!(unix_now() > 1_700_000_000);
}

#[test]
fn days_and_their_texts() {
    assert_eq!(day_text(0), "1970-01-01");
    assert_eq!(date_at(1_754_000_000, 480), "2025-08-01");
    assert_eq!(date_at(1_754_000_000, 0), "2025-07-31");
    assert_eq!(local_day_at(-1, 0), -1);
    assert_eq!(local_day_at(86_399, 0), 0);
    let today = today_local(0);
    assert_eq!(today.len(), 10);
    assert!(today.as_str() > "2024-01-01");
}
