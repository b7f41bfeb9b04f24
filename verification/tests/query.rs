use screenhistory::export::{JsonArrayFramer, CSV_HEADER};
use screenhistory::models::ExportFilters;
use screenhistory::query::{
    build_knowledge_select_query, build_select, Param, EXPORT_SELECT, KNOWLEDGE_SELECT,
};

fn placeholders(sql: &str) -> usize {
    sql.matches('?').count()
}

#[test]
fn select_without_filters() {
    let (sql, binds) = build_select(&ExportFilters::default());
    assert_eq!(sql, format!("{EXPORT_SELECT}ORDER BY end_time ASC\n"));
    assert!(binds.is_empty());
}

#[test]
fn select_with_all_filters() {
    let filters = ExportFilters {
        from: Some(10),
        to: Some(20),
        app: Some("Safari".to_string()),
    };
    let (sql, binds) = build_select(&filters);
    assert_eq!(
        sql,
        format!(
            "{EXPORT_SELECT}WHERE end_time >= ? AND end_time <= ? AND app_name = ?\nORDER BY end_time ASC\n"
        )
    );
    assert_eq!(binds.len(), 3);
    assert!(matches!(binds[0], Param::I64(10)));
    assert!(matches!(binds[1], Param::I64(20)));
    assert!(matches!(&binds[2], Param::Str(s) if s == "Safari"));
    assert_eq!(placeholders(&sql), binds.len());
}

#[test]
fn select_with_some_filters() {
    let filters = ExportFilters {
        from: None,
        to: Some(20),
        app: Some("Mail?".to_string()),
    };
    let (sql, binds) = build_select(&filters);
    assert_eq!(
        sql,
        format!("{EXPORT_SELECT}WHERE end_time <= ? AND app_name = ?\nORDER BY end_time ASC\n")
    );
    assert_eq!(binds.len(), 2);
    assert_eq!(placeholders(&sql), binds.len());
}

#[test]
fn knowledge_query_with_and_without_watermark() {
    let all = build_knowledge_select_query(None);
    assert_eq!(all.sql, format!("{KNOWLEDGE_SELECT} ORDER BY ZOBJECT.ZSTARTDATE ASC"));
    assert_eq!(all.watermark, None);
    assert_eq!(placeholders(&all.sql), 0);
    let newer = build_knowledge_select_query(Some(41));
    assert_eq!(
        newer.sql,
        format!("{KNOWLEDGE_SELECT} AND ZOBJECT.Z_PK > ? ORDER BY ZOBJECT.ZSTARTDATE ASC")
    );
    assert_eq!(newer.watermark, Some(41));
    assert_eq!(placeholders(&newer.sql), 1);
}

#[test]
fn json_array_framing() {
    let mut framer = JsonArrayFramer::new();
    let mut out = String::from(framer.open());
    for rec in ["{\"a\":1}", "{\"a\":2}", "{\"a\":3}"] {
        out.push_str(framer.before_record());
        out.push_str(rec);
    }
    out.push_str(framer.close());
    assert_eq!(out, "[{\"a\":1},{\"a\":2},{\"a\":3}]");
    let empty = JsonArrayFramer::new();
    assert_eq!(format!("{}{}", empty.open(), empty.close()), "[]");
    assert_eq!(
        CSV_HEADER.join(","),
        "event_id,app_name,amount,start_time,end_time,created_at,tz_offset,device_id,device_model"
    );
}
