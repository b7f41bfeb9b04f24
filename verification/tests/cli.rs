use screenhistory::cli::{
    choose_reading, export_filters_from_args, likely_permission_error, parse_datetime_or_date,
    suggests_full_disk_access, DateTimeError, FilterArgError, DATETIME_FORMAT, DATE_FORMAT,
};
use screenhistory::date::Date;

#[test]
fn datetime_forms() {
    assert_eq!(parse_datetime_or_date("2025-01-02T03:04:05Z"), Ok(1_735_787_045));
    assert_eq!(parse_datetime_or_date("2025-01-02T03:04:05+02:00"), Ok(1_735_779_845));
    // `YYYY-MM-DD HH:MM[:SS]` is read in UTC.
    assert!(time::format_description::parse_owned::<1>(DATETIME_FORMAT).is_ok());
    assert!(time::format_description::parse_owned::<1>(DATE_FORMAT).is_ok());
    assert_eq!(parse_datetime_or_date("2025-01-02 03:04"), Ok(1_735_787_040));
    assert_eq!(parse_datetime_or_date("2025-01-02 03:04:05"), Ok(1_735_787_045));
    assert_eq!(
        parse_datetime_or_date("2025-01-02 03"),
        Err(DateTimeError::UnrecognizedFormat)
    );
    assert_eq!(parse_datetime_or_date("2025-01-02"), Ok(1_735_776_000));
    assert_eq!(
        parse_datetime_or_date("yesterday"),
        Err(DateTimeError::UnrecognizedFormat)
    );
    assert_eq!(
        parse_datetime_or_date("2025-13-02"),
        Err(DateTimeError::UnrecognizedFormat)
    );
}

#[test]
fn reading_preference_order() {
    let day = Date::from_julian_day(2_440_589).unwrap();
    assert_eq!(choose_reading(Some(5), Some(6), Some(day)), Ok(5));
    assert_eq!(choose_reading(None, Some(6), Some(day)), Ok(6));
    assert_eq!(choose_reading(None, None, Some(day)), Ok(86_400));
    assert_eq!(
        choose_reading(None, None, None),
        Err(DateTimeError::UnrecognizedFormat)
    );
}

#[test]
fn export_filter_options() {
    let f = export_filters_from_args(Some("2025-01-02"), None, Some("Safari".to_string())).unwrap();
    assert_eq!(f.from, Some(1_735_776_000));
    assert_eq!(f.to, None);
    assert_eq!(f.app.as_deref(), Some("Safari"));
    assert!(matches!(
        export_filters_from_args(Some("x"), Some("y"), None),
        Err(FilterArgError::From(DateTimeError::UnrecognizedFormat))
    ));
    assert!(matches!(
        export_filters_from_args(Some("2025-01-02"), Some("y"), None),
        Err(FilterArgError::To(DateTimeError::UnrecognizedFormat))
    ));
    let none = export_filters_from_args(None, None, None).unwrap();
    assert!(none.from.is_none() && none.to.is_none() && none.app.is_none());
}

#[test]
fn permission_hints() {
    assert!(likely_permission_error(
        "Opening knowledge DB at \"/x\": unable to open database file"
    ));
    assert!(likely_permission_error("Operation not permitted (os error 1)"));
    assert!(likely_permission_error("Permission denied"));
    assert!(!likely_permission_error("no such table: ZOBJECT"));
    assert!(!likely_permission_error(""));
}

#[test]
fn full_disk_access_hint() {
    assert!(suggests_full_disk_access(true, "unable to open database file"));
    assert!(!suggests_full_disk_access(false, "unable to open database file"));
    assert!(!suggests_full_disk_access(true, "no such table: ZOBJECT"));
}
