use screenhistory::models::{LocalUsageRow, SyncSummary};

#[test]
fn summary_counts_rows() {
    let mut s = SyncSummary::default();
    for affected in [1u64, 0, 1, 1, 0] {
        s.record_row(affected);
    }
    assert_eq!(s.scanned, 5);
    assert_eq!(s.inserted, 3);
    assert_eq!(s.skipped, 2);
    assert_eq!(s.scanned, s.inserted + s.skipped);
}

#[test]
fn local_row_timestamps() {
    let row = LocalUsageRow {
        event_id: 1,
        app_name: "Safari".to_string(),
        duration_secs: 60,
        start_unix: 100,
        end_unix: 160,
        created_unix: 170,
        tz_offset_seconds: 3600,
        device_id: None,
        device_model: String::new(),
    };
    assert_eq!(row.start_ts(), 100);
    assert_eq!(row.end_ts(), 160);
    assert_eq!(row.created_ts(), 170);
}

#[test]
fn row_times_are_the_stored_columns() {
    let row = LocalUsageRow {
        event_id: 7,
        app_name: "Safari".to_string(),
        duration_secs: 89,
        start_unix: 1_000,
        end_unix: 1_090,
        created_unix: 1_100,
        tz_offset_seconds: 3_600,
        device_id: None,
        device_model: "Mac".to_string(),
    };
    // The end is the stored end time, not the start plus the truncated duration.
    assert_eq!(row.end_ts(), 1_090);
    assert_eq!(row.start_ts(), 1_000);
    assert_eq!(row.created_ts(), 1_100);
}
