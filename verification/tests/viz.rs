use screenhistory::date::{week_start_date, Date, MAX_JULIAN_DAY, MIN_JULIAN_DAY};
use screenhistory::viz::{week_window, WeeklyStats};

fn date(year: i32, month: time::Month, day: u8) -> Date {
    let d = time::Date::from_calendar_date(year, month, day).unwrap();
    Date::from_julian_day(d.to_julian_day()).unwrap()
}

fn as_time(d: Date) -> time::Date {
    time::Date::from_julian_day(d.julian_day()).unwrap()
}

#[test]
fn test_week_start() {
    // 2026-03-31 is a Tuesday
    let date = date(2026, time::Month::March, 31);
    let ws = week_start_date(date);
    // Monday before should be 2026-03-30
    assert_eq!(as_time(ws).weekday(), time::Weekday::Monday);
}

#[test]
fn week_start_is_the_monday_before() {
    let tuesday = date(2026, time::Month::March, 31);
    assert_eq!(week_start_date(tuesday), date(2026, time::Month::March, 30));
    let monday = date(2026, time::Month::March, 30);
    assert_eq!(week_start_date(monday), monday);
    let sunday = date(2026, time::Month::April, 5);
    assert_eq!(week_start_date(sunday), monday);
}

#[test]
fn date_range_matches_time_crate() {
    assert_eq!(time::Date::MIN.to_julian_day(), MIN_JULIAN_DAY);
    assert_eq!(time::Date::MAX.to_julian_day(), MAX_JULIAN_DAY);
    assert!(Date::from_julian_day(MIN_JULIAN_DAY - 1).is_none());
    assert!(Date::from_julian_day(MAX_JULIAN_DAY + 1).is_none());
}

#[test]
fn weekday_numbers_match_time_crate() {
    for jd in [MIN_JULIAN_DAY, -1, 0, 1, 2_440_588, 2_461_131, MAX_JULIAN_DAY] {
        let d = Date::from_julian_day(jd).unwrap();
        assert_eq!(
            d.number_days_from_monday(),
            as_time(d).weekday().number_days_from_monday()
        );
    }
}

#[test]
fn timestamps_match_time_crate() {
    for ts in [
        0i64,
        -1,
        86_399,
        86_400,
        1_546_300_800,
        -377_705_116_800,
        253_402_300_799,
    ] {
        let ours = Date::from_unix_timestamp(ts).map(as_time);
        let theirs = time::OffsetDateTime::from_unix_timestamp(ts).ok().map(|dt| dt.date());
        assert_eq!(ours, theirs);
    }
    assert!(Date::from_unix_timestamp(-377_705_116_801).is_none());
    assert!(Date::from_unix_timestamp(253_402_300_800).is_none());
    let d = date(2019, time::Month::January, 1);
    assert_eq!(d.midnight_unix_timestamp(), 1_546_300_800);
}

#[test]
fn add_days_stays_in_range() {
    let d = date(2026, time::Month::March, 31);
    assert_eq!(d.checked_add_days(7), Some(date(2026, time::Month::April, 7)));
    assert_eq!(d.checked_add_days(-31), Some(date(2026, time::Month::February, 28)));
    let last = Date::from_julian_day(MAX_JULIAN_DAY).unwrap();
    assert!(last.checked_add_days(1).is_none());
}

#[test]
fn week_window_bounds() {
    let w = week_window(date(1970, time::Month::January, 7));
    // 1970-01-05 was a Monday.
    assert_eq!(w.week_start, date(1970, time::Month::January, 5));
    assert_eq!(w.start_ts, 4 * 86_400);
    assert_eq!(w.end_ts, 11 * 86_400 - 1);
}

#[test]
fn weekly_stats_groups_and_sorts() {
    let monday = date(2026, time::Month::March, 30);
    let tuesday = date(2026, time::Month::March, 31);
    let mut stats = WeeklyStats::new(monday);
    assert!(stats.sorted_app_names().is_empty());
    stats.add_usage("Safari".to_string(), monday, 120);
    stats.add_usage("Mail".to_string(), tuesday, 60);
    stats.add_usage("Safari".to_string(), tuesday, 30);
    stats.add_usage("Safari".to_string(), tuesday, 999);
    stats.add_usage("Äpfel".to_string(), monday, 5);
    assert_eq!(stats.sorted_app_names(), vec!["Mail", "Safari", "Äpfel"]);
    assert_eq!(stats.get_usage("Safari", monday), 120);
    // Usage recorded twice for one app and day accumulates.
    assert_eq!(stats.get_usage("Safari", tuesday), 1_029);
    assert_eq!(stats.get_usage("Mail", monday), 0);
    assert_eq!(stats.get_usage("Notes", monday), 0);
    let safari = stats.usages("Safari");
    assert_eq!(safari.len(), 2);
    assert_eq!(safari[0].duration_secs, 120);
    assert_eq!(safari[1].duration_secs, 1_029);
    assert_eq!(safari[1].day, tuesday);
}

#[test]
fn day_totals_become_usages() {
    let monday = date(2026, time::Month::March, 30);
    let mut stats = WeeklyStats::new(monday);
    let ts = monday.midnight_unix_timestamp() + 3_600;
    let rows = vec![
        ("Safari".to_string(), ts, Some(300)),
        ("Mail".to_string(), ts + 86_400, None),
        ("Far".to_string(), i64::MAX, Some(1)),
        ("Odd".to_string(), ts, Some(-1)),
    ];
    stats.add_day_totals(&rows);
    assert_eq!(stats.get_usage("Safari", monday), 300);
    assert_eq!(
        stats.get_usage("Mail", monday.checked_add_days(1).unwrap()),
        0
    );
    assert_eq!(stats.usages("Mail").len(), 1);
    // Out-of-range start times are dropped.
    assert!(stats.usages("Far").is_empty());
    // A negative total wraps like `as u64`.
    assert_eq!(stats.get_usage("Odd", monday), u64::MAX);
    assert_eq!(stats.sorted_app_names(), vec!["Mail", "Odd", "Safari"]);
}

#[test]
fn accumulated_usage_saturates() {
    let monday = date(2026, time::Month::March, 30);
    let mut stats = WeeklyStats::new(monday);
    stats.add_usage("Safari".to_string(), monday, u64::MAX - 1);
    stats.add_usage("Safari".to_string(), monday, 5);
    assert_eq!(stats.get_usage("Safari", monday), u64::MAX);
    assert_eq!(stats.usages("Safari").len(), 1);
}

#[test]
fn weekly_window_excludes_next_monday() {
    let monday = date(2026, time::Month::March, 30);
    let w = week_window(monday);
    let next_monday = date(2026, time::Month::April, 6);
    // The bound is the Sunday's last second, the second before the next Monday.
    assert_eq!(w.end_ts + 1, next_monday.midnight_unix_timestamp());
    let mut stats = WeeklyStats::new(w.week_start);
    let rows = vec![
        ("Safari".to_string(), w.start_ts, Some(60)),
        ("Safari".to_string(), w.end_ts, Some(30)),
        ("Safari".to_string(), w.start_ts + 600, Some(15)),
    ];
    stats.add_day_totals(&rows);
    let sunday = date(2026, time::Month::April, 5);
    assert_eq!(stats.get_usage("Safari", monday), 75);
    assert_eq!(stats.get_usage("Safari", sunday), 30);
    assert_eq!(stats.get_usage("Safari", next_monday), 0);
}
