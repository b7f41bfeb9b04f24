use screenhistory::schedule::{
    label_or_default, launchctl_domain, launchctl_service, parse_duration_secs, parse_hhmm,
    render_plist, schedule_from_args, schedule_parts, sync_program_args, DurationError,
    Schedule, ScheduleError, TimeOfDayError, DEFAULT_LABEL,
};
use screenhistory::text::IntErrorKind;

#[test]
fn durations_in_minutes_hours_and_seconds() {
    assert_eq!(parse_duration_secs("15m"), Ok(900));
    assert_eq!(parse_duration_secs("1h"), Ok(3600));
    assert_eq!(parse_duration_secs("900"), Ok(900));
    assert_eq!(parse_duration_secs("  2 h "), Ok(7200));
    assert_eq!(parse_duration_secs("0m"), Ok(0));
}

#[test]
fn duration_errors() {
    assert_eq!(
        parse_duration_secs("xm"),
        Err(DurationError::Minutes(IntErrorKind::InvalidDigit))
    );
    assert_eq!(
        parse_duration_secs("h"),
        Err(DurationError::Hours(IntErrorKind::Empty))
    );
    assert_eq!(
        parse_duration_secs("15s"),
        Err(DurationError::Seconds(IntErrorKind::InvalidDigit))
    );
    assert_eq!(
        parse_duration_secs(""),
        Err(DurationError::Seconds(IntErrorKind::Empty))
    );
    assert_eq!(
        parse_duration_secs("307445734561825861m"),
        Err(DurationError::Overflow)
    );
    assert_eq!(
        parse_duration_secs("307445734561825860m"),
        Ok(307445734561825860 * 60)
    );
}

#[test]
fn daily_times() {
    assert_eq!(parse_hhmm("02:00"), Ok((2, 0)));
    assert_eq!(parse_hhmm("23:59"), Ok((23, 59)));
    assert_eq!(parse_hhmm("24:00"), Err(TimeOfDayError::OutOfRange));
    assert_eq!(parse_hhmm("12:60"), Err(TimeOfDayError::OutOfRange));
    assert_eq!(parse_hhmm("1200"), Err(TimeOfDayError::Format));
    assert_eq!(parse_hhmm("1:2:3"), Err(TimeOfDayError::Format));
    assert_eq!(
        parse_hhmm("x:00"),
        Err(TimeOfDayError::Hour(IntErrorKind::InvalidDigit))
    );
    assert_eq!(
        parse_hhmm("10:"),
        Err(TimeOfDayError::Minute(IntErrorKind::Empty))
    );
    assert_eq!(
        parse_hhmm(" 1:00"),
        Err(TimeOfDayError::Hour(IntErrorKind::InvalidDigit))
    );
}

#[test]
fn schedule_choice() {
    assert_eq!(schedule_from_args(None, None), Ok(Schedule::Interval(3600)));
    assert_eq!(
        schedule_from_args(Some("15m"), None),
        Ok(Schedule::Interval(900))
    );
    assert_eq!(
        schedule_from_args(None, Some("02:30")),
        Ok(Schedule::Daily(2, 30))
    );
    assert_eq!(
        schedule_from_args(Some("15m"), Some("99:99")),
        Ok(Schedule::Interval(900))
    );
    assert_eq!(
        schedule_from_args(None, Some("99:00")),
        Err(ScheduleError::At(TimeOfDayError::OutOfRange))
    );
    assert_eq!(
        schedule_from_args(Some("soon"), None),
        Err(ScheduleError::Every(DurationError::Seconds(IntErrorKind::InvalidDigit)))
    );
    assert_eq!(
        schedule_parts(Schedule::Daily(2, 30)),
        (None, Some((2, 30)))
    );
    assert_eq!(schedule_parts(Schedule::Interval(60)), (Some(60), None));
}

#[test]
fn program_arguments() {
    assert_eq!(
        sync_program_args("/bin/sh", None, None),
        vec!["/bin/sh", "sync"]
    );
    assert_eq!(
        sync_program_args("/x/screenhistory", Some("/d/local.db"), Some("/d/k.db")),
        vec![
            "/x/screenhistory",
            "sync",
            "--local-db",
            "/d/local.db",
            "--knowledge-db",
            "/d/k.db"
        ]
    );
    assert_eq!(label_or_default(None), DEFAULT_LABEL);
    assert_eq!(label_or_default(Some("x.y".to_string())), "x.y");
    assert_eq!(launchctl_domain("501"), "gui/501");
    assert_eq!(
        launchctl_service("501", DEFAULT_LABEL),
        "gui/501/com.mikkelam.screenhistory"
    );
}

#[test]
fn plist_with_interval() {
    let args = vec!["/usr/local/bin/screenhistory".to_string(), "sync".to_string()];
    let plist = render_plist("com.example", &args, true, Some(3600), None, "/tmp/sync.log");
    let expected = r#"<?xml version="1.0" encoding="UTF-8"?>
<!DOCTYPE plist PUBLIC "-//Apple//DTD PLIST 1.0//EN" "http://www.apple.com/DTDs/PropertyList-1.0.dtd">
<plist version="1.0">
  <dict>
    <key>Label</key>
    <string>com.example</string>
    <key>ProgramArguments</key>
    <array>
        <string>/usr/local/bin/screenhistory</string>
        <string>sync</string>
    </array>
    <key>RunAtLoad</key>
    <true/>
    <key>KeepAlive</key>
    <false/>
    <key>StandardOutPath</key>
    <string>/tmp/sync.log</string>
    <key>StandardErrorPath</key>
    <string>/tmp/sync.log</string>
    <key>StartInterval</key>
    <integer>3600</integer>
  </dict>
</plist>
"#;
    assert_eq!(plist, expected);
}

#[test]
fn plist_with_daily_time() {
    let plist = render_plist("l", &[], false, None, Some((2, 5)), "log");
    let expected = r#"<?xml version="1.0" encoding="UTF-8"?>
<!DOCTYPE plist PUBLIC "-//Apple//DTD PLIST 1.0//EN" "http://www.apple.com/DTDs/PropertyList-1.0.dtd">
<plist version="1.0">
  <dict>
    <key>Label</key>
    <string>l</string>
    <key>ProgramArguments</key>
    <array>
    </array>
    <key>RunAtLoad</key>
    <false/>
    <key>KeepAlive</key>
    <false/>
    <key>StandardOutPath</key>
    <string>log</string>
    <key>StandardErrorPath</key>
    <string>log</string>
    <key>StartCalendarInterval</key>
    <dict>
      <key>Hour</key>
      <integer>2</integer>
      <key>Minute</key>
      <integer>5</integer>
    </dict>
  </dict>
</plist>
"#;
    assert_eq!(plist, expected);
    let none = render_plist("l", &[], false, None, None, "log");
    assert!(none.ends_with("<string>log</string>\n  </dict>\n</plist>\n"));
}
