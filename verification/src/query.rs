//! The SQL statements that sync and export run, with the values bound to
//! their `?` placeholders, in order.

use vstd::prelude::*;

use crate::models::ExportFilters;
use crate::text::{contains_text, lemma_occurs_in_concat, occurs_at};

verus! {

/// A value bound to a placeholder.
#[derive(Debug, Clone)]
pub enum Param {
    /// An integer.
    I64(i64),
    /// A text.
    Str(String),
}

/// A bound value as plain data.
pub enum ParamView {
    /// An integer.
    I64(i64),
    /// A text.
    Str(Seq<char>),
}

impl View for Param {
    type V = ParamView;

    open spec fn view(&self) -> ParamView {
        match self {
            Param::I64(v) => ParamView::I64(*v),
            Param::Str(s) => ParamView::Str(s@),
        }
    }
}

/// The values of a list of bound values.
pub open spec fn params_view(ps: Seq<Param>) -> Seq<ParamView> {
    ps.map_values(|p: Param| p@)
}

/// The start of the export statement: every column of the `usage` table.
pub const EXPORT_SELECT: &'static str = "
        SELECT
            event_id, app_name, amount, start_time, end_time, created_at, tz_offset, device_id, device_model
        FROM usage
        ";

/// The end of the export statement: earliest end time first, then a
/// newline.
pub const EXPORT_ORDER: &'static str = "ORDER BY end_time ASC\n";

/// The condition of the `from` filter, on the end time.
pub const FROM_CLAUSE: &'static str = "end_time >= ?";

/// The condition of the `to` filter, on the end time.
pub const TO_CLAUSE: &'static str = "end_time <= ?";

/// The condition of the `app` filter.
pub const APP_CLAUSE: &'static str = "app_name = ?";

/// The filters as plain values: (from, to, app).
pub open spec fn filters_view(f: &ExportFilters) -> (Option<i64>, Option<i64>, Option<Seq<char>>) {
    (
        f.from,
        f.to,
        match f.app {
            Some(a) => Some(a@),
            None => None,
        },
    )
}

/// The conditions that the filters ask for, in the order from, to, app.
pub open spec fn filter_clauses(f: (Option<i64>, Option<i64>, Option<Seq<char>>)) -> Seq<Seq<char>> {
    (if f.0 is Some {
        seq![FROM_CLAUSE@]
    } else {
        Seq::empty()
    }) + (if f.1 is Some {
        seq![TO_CLAUSE@]
    } else {
        Seq::empty()
    }) + (if f.2 is Some {
        seq![APP_CLAUSE@]
    } else {
        Seq::empty()
    })
}

/// The values bound to the conditions' placeholders, in the same order.
pub open spec fn filter_params(f: (Option<i64>, Option<i64>, Option<Seq<char>>)) -> Seq<ParamView> {
    (match f.0 {
        Some(v) => seq![ParamView::I64(v)],
        None => Seq::empty(),
    }) + (match f.1 {
        Some(v) => seq![ParamView::I64(v)],
        None => Seq::empty(),
    }) + (match f.2 {
        Some(a) => seq![ParamView::Str(a)],
        None => Seq::empty(),
    })
}

/// `parts` joined with `sep` between each two.
pub open spec fn join_with(parts: Seq<Seq<char>>, sep: Seq<char>) -> Seq<char>
    decreases parts.len(),
{
    if parts.len() == 0 {
        Seq::empty()
    } else if parts.len() == 1 {
        parts[0]
    } else {
        join_with(parts.drop_last(), sep) + sep + parts.last()
    }
}

/// The export statement for the filters: the columns, a `WHERE` line with
/// the conditions joined by `AND` when there is any, and the order.
pub open spec fn select_sql(f: (Option<i64>, Option<i64>, Option<Seq<char>>)) -> Seq<char> {
    let clauses = filter_clauses(f);
    EXPORT_SELECT@ + (if clauses.len() > 0 {
        "WHERE "@ + join_with(clauses, " AND "@) + "\n"@
    } else {
        Seq::empty()
    }) + EXPORT_ORDER@
}

/// The filters apply independently of one another: each filter given adds
/// its own condition and its own value, whatever the other filters are;
/// `from` comes first, then `to`, then `app`; there are as many conditions
/// and values as filters given.
pub proof fn lemma_filters_independent(f: (Option<i64>, Option<i64>, Option<Seq<char>>))
    ensures
        filter_clauses(f).len() == filter_params(f).len(),
        filter_params(f).len() == (if f.0 is Some {
            1int
        } else {
            0int
        }) + (if f.1 is Some {
            1int
        } else {
            0int
        }) + (if f.2 is Some {
            1int
        } else {
            0int
        }),
        f.0 matches Some(t) ==> filter_clauses(f)[0] == FROM_CLAUSE@ && filter_params(f)[0]
            == ParamView::I64(t),
        f.1 matches Some(t) ==> ({
            let i = if f.0 is Some {
                1int
            } else {
                0int
            };
            filter_clauses(f)[i] == TO_CLAUSE@ && filter_params(f)[i] == ParamView::I64(t)
        }),
        f.2 matches Some(a) ==> filter_clauses(f).last() == APP_CLAUSE@ && filter_params(f).last()
            == ParamView::Str(a),
{
}

proof fn lemma_join_holds_parts(parts: Seq<Seq<char>>, sep: Seq<char>)
    ensures
        forall|k: int| 0 <= k < parts.len() ==> contains_text(join_with(parts, sep), #[trigger] parts[k]),
    decreases parts.len(),
{
    if parts.len() == 1 {
        assert(occurs_at(join_with(parts, sep), parts[0], 0)) by {
            assert(join_with(parts, sep).subrange(0, parts[0].len() as int) =~= parts[0]);
        }
    } else if parts.len() > 1 {
        let init = parts.drop_last();
        lemma_join_holds_parts(init, sep);
        let j = join_with(init, sep);
        assert forall|k: int| 0 <= k < parts.len() implies contains_text(join_with(parts, sep), #[trigger] parts[k]) by {
            if k < parts.len() - 1 {
                assert(parts[k] == init[k]);
                let i = choose|i: int| occurs_at(j, parts[k], i);
                lemma_occurs_in_concat(Seq::<char>::empty(), j, sep + parts.last(), parts[k], i);
                assert(Seq::<char>::empty() + j + (sep + parts.last()) =~= join_with(parts, sep));
            } else {
                assert(parts.last().subrange(0, parts.last().len() as int) =~= parts.last());
                lemma_occurs_in_concat(j + sep, parts.last(), Seq::<char>::empty(), parts.last(), 0);
                assert((j + sep) + parts.last() + Seq::<char>::empty() =~= join_with(parts, sep));
            }
        }
    }
}

/// The export statement holds the condition of every filter given, so the
/// `app` filter's condition is there whenever an app is asked for, whatever
/// the time filters are.
pub proof fn lemma_select_holds_conditions(f: (Option<i64>, Option<i64>, Option<Seq<char>>))
    ensures
        forall|k: int|
            0 <= k < filter_clauses(f).len() ==> contains_text(select_sql(f), #[trigger] filter_clauses(f)[k]),
        f.2 is Some ==> contains_text(select_sql(f), APP_CLAUSE@),
        f.0 is Some ==> contains_text(select_sql(f), FROM_CLAUSE@),
        f.1 is Some ==> contains_text(select_sql(f), TO_CLAUSE@),
{
    let clauses = filter_clauses(f);
    lemma_filters_independent(f);
    lemma_join_holds_parts(clauses, " AND "@);
    let j = join_with(clauses, " AND "@);
    assert forall|k: int| 0 <= k < clauses.len() implies contains_text(select_sql(f), #[trigger] clauses[k]) by {
        let i = choose|i: int| occurs_at(j, clauses[k], i);
        lemma_occurs_in_concat(EXPORT_SELECT@ + "WHERE "@, j, "\n"@ + EXPORT_ORDER@, clauses[k], i);
        assert((EXPORT_SELECT@ + "WHERE "@) + j + ("\n"@ + EXPORT_ORDER@) =~= select_sql(f));
    }
    if f.2 is Some {
        assert(clauses[clauses.len() - 1] == APP_CLAUSE@);
    }
    if f.1 is Some {
        if f.0 is Some {
            assert(clauses[1] == TO_CLAUSE@);
        } else {
            assert(clauses[0] == TO_CLAUSE@);
        }
    }
    if f.0 is Some {
        assert(clauses[0] == FROM_CLAUSE@);
    }
}

fn push_clause(sql: &mut String, first: bool, clause: &str)
    ensures
        final(sql)@ == old(sql)@ + (if first {
            Seq::empty()
        } else {
            " AND "@
        }) + clause@,
{
    if !first {
        sql.append(" AND ");
    }
    sql.append(clause);
}

/// The export statement for `filters` and the values to bind, in order:
/// `from` and `to` bound the end time inclusively, `app` matches the app
/// name exactly.
pub fn build_select(filters: &ExportFilters) -> (r: (String, Vec<Param>))
    ensures
        r.0@ == select_sql(filters_view(filters)),
        params_view(r.1@) == filter_params(filters_view(filters)),
{
    let ghost fv = filters_view(filters);
    let ghost cl = filter_clauses(fv);
    let mut conditions = String::new();
    let mut binds: Vec<Param> = Vec::new();
    let mut count: usize = 0;
    let ghost mut taken: Seq<Seq<char>> = Seq::empty();
    if let Some(from) = filters.from {
        push_clause(&mut conditions, count == 0, FROM_CLAUSE);
        binds.push(Param::I64(from));
        count += 1;
        proof {
            taken = taken.push(FROM_CLAUSE@);
        }
    }
    assert(conditions@ == join_with(taken, " AND "@));
    if let Some(to) = filters.to {
        proof {
            assert(taken.push(TO_CLAUSE@).drop_last() =~= taken);
        }
        push_clause(&mut conditions, count == 0, TO_CLAUSE);
        binds.push(Param::I64(to));
        count += 1;
        proof {
            taken = taken.push(TO_CLAUSE@);
        }
    }
    assert(conditions@ == join_with(taken, " AND "@));
    if let Some(app) = &filters.app {
        proof {
            assert(taken.push(APP_CLAUSE@).drop_last() =~= taken);
        }
        push_clause(&mut conditions, count == 0, APP_CLAUSE);
        binds.push(Param::Str(app.clone()));
        count += 1;
        proof {
            taken = taken.push(APP_CLAUSE@);
        }
    }
    assert(taken =~= cl);
    assert(params_view(binds@) =~= filter_params(fv));
    let mut sql = String::from_str(EXPORT_SELECT);
    if count > 0 {
        sql.append("WHERE ");
        sql.append(conditions.as_str());
        sql.append("\n");
    }
    sql.append(EXPORT_ORDER);
    (sql, binds)
}

/// How many times `c` occurs in `s`.
pub open spec fn count_char(s: Seq<char>, c: char) -> nat
    decreases s.len(),
{
    if s.len() == 0 {
        0
    } else {
        count_char(s.drop_last(), c) + if s.last() == c {
            1nat
        } else {
            0nat
        }
    }
}

proof fn lemma_count_concat(a: Seq<char>, b: Seq<char>, c: char)
    ensures
        count_char(a + b, c) == count_char(a, c) + count_char(b, c),
    decreases b.len(),
{
    if b.len() == 0 {
        assert(a + b =~= a);
    } else {
        assert((a + b).drop_last() =~= a + b.drop_last());
        lemma_count_concat(a, b.drop_last(), c);
    }
}

proof fn lemma_count_absent(s: Seq<char>, c: char)
    requires
        forall|i: int| 0 <= i < s.len() ==> s[i] != c,
    ensures
        count_char(s, c) == 0,
    decreases s.len(),
{
    if s.len() > 0 {
        lemma_count_absent(s.drop_last(), c);
    }
}

proof fn lemma_count_single(s: Seq<char>, c: char, k: int)
    requires
        0 <= k < s.len(),
        s[k] == c,
        forall|i: int| 0 <= i < s.len() && i != k ==> s[i] != c,
    ensures
        count_char(s, c) == 1,
{
    assert(s =~= s.take(k) + seq![c] + s.skip(k + 1));
    lemma_count_absent(s.take(k), c);
    lemma_count_absent(s.skip(k + 1), c);
    lemma_count_absent(Seq::<char>::empty(), c);
    assert(seq![c].drop_last() =~= Seq::<char>::empty());
    lemma_count_concat(s.take(k), seq![c], c);
    lemma_count_concat(s.take(k) + seq![c], s.skip(k + 1), c);
}

/// The fixed parts of the export statement hold no placeholder; each
/// condition holds exactly one.
proof fn lemma_export_parts_placeholders()
    ensures
        count_char(EXPORT_SELECT@, '?') == 0,
        count_char(EXPORT_ORDER@, '?') == 0,
        count_char("WHERE "@, '?') == 0,
        count_char(" AND "@, '?') == 0,
        count_char("\n"@, '?') == 0,
        count_char(FROM_CLAUSE@, '?') == 1,
        count_char(TO_CLAUSE@, '?') == 1,
        count_char(APP_CLAUSE@, '?') == 1,
{
    reveal_strlit("
        SELECT
            event_id, app_name, amount, start_time, end_time, created_at, tz_offset, device_id, device_model
        FROM usage
        ");
    assert(EXPORT_SELECT@ == "
        SELECT
            event_id, app_name, amount, start_time, end_time, created_at, tz_offset, device_id, device_model
        FROM usage
        "@);
    lemma_count_absent(EXPORT_SELECT@, '?');
    reveal_strlit("ORDER BY end_time ASC\n");
    lemma_count_absent(EXPORT_ORDER@, '?');
    reveal_strlit("WHERE ");
    lemma_count_absent("WHERE "@, '?');
    reveal_strlit(" AND ");
    lemma_count_absent(" AND "@, '?');
    reveal_strlit("\n");
    lemma_count_absent("\n"@, '?');
    reveal_strlit("end_time >= ?");
    lemma_count_single(FROM_CLAUSE@, '?', 12);
    reveal_strlit("end_time <= ?");
    lemma_count_single(TO_CLAUSE@, '?', 12);
    reveal_strlit("app_name = ?");
    lemma_count_single(APP_CLAUSE@, '?', 11);
}

proof fn lemma_count_join(parts: Seq<Seq<char>>)
    requires
        forall|i: int| 0 <= i < parts.len() ==> count_char(#[trigger] parts[i], '?') == 1,
        count_char(" AND "@, '?') == 0,
    ensures
        count_char(join_with(parts, " AND "@), '?') == parts.len(),
    decreases parts.len(),
{
    if parts.len() == 0 {
        lemma_count_absent(Seq::<char>::empty(), '?');
    } else if parts.len() > 1 {
        let init = parts.drop_last();
        assert forall|i: int| 0 <= i < init.len() implies count_char(#[trigger] init[i], '?') == 1 by {
            assert(init[i] == parts[i]);
        }
        lemma_count_join(init);
        lemma_count_concat(join_with(init, " AND "@), " AND "@, '?');
        lemma_count_concat(join_with(init, " AND "@) + " AND "@, parts.last(), '?');
    }
}

/// Every placeholder of the export statement has its value: the statement
/// holds as many `?` as [`build_select`] binds values.
pub proof fn lemma_select_placeholders(f: (Option<i64>, Option<i64>, Option<Seq<char>>))
    ensures
        count_char(select_sql(f), '?') == filter_params(f).len(),
{
    lemma_export_parts_placeholders();
    let clauses = filter_clauses(f);
    assert forall|i: int| 0 <= i < clauses.len() implies count_char(#[trigger] clauses[i], '?')
        == 1 by {
        if f.0 is Some && i == 0 {
            assert(clauses[i] == FROM_CLAUSE@);
        } else if f.2 is Some && i == clauses.len() - 1 {
            assert(clauses[i] == APP_CLAUSE@);
        } else {
            assert(clauses[i] == TO_CLAUSE@);
        }
    }
    assert(clauses.len() == filter_params(f).len());
    lemma_count_join(clauses);
    let middle = if clauses.len() > 0 {
        "WHERE "@ + join_with(clauses, " AND "@) + "\n"@
    } else {
        Seq::empty()
    };
    if clauses.len() > 0 {
        lemma_count_concat("WHERE "@, join_with(clauses, " AND "@), '?');
        lemma_count_concat("WHERE "@ + join_with(clauses, " AND "@), "\n"@, '?');
    } else {
        lemma_count_absent(middle, '?');
    }
    lemma_count_concat(EXPORT_SELECT@, middle, '?');
    lemma_count_concat(EXPORT_SELECT@ + middle, EXPORT_ORDER@, '?');
}

/// The statement that reads app usage from Apple's Screen Time database,
/// with timestamps converted from the Cocoa epoch (2001-01-01) to Unix
/// seconds.
pub const KNOWLEDGE_SELECT: &'static str = "
        SELECT
            ZOBJECT.Z_PK AS event_id,
            ZOBJECT.ZVALUESTRING AS app_name,
            CAST((ZOBJECT.ZENDDATE - ZOBJECT.ZSTARTDATE) AS REAL) AS amount_seconds,
            CAST((ZOBJECT.ZSTARTDATE + 978307200) AS INTEGER) AS start_time,
            CAST((ZOBJECT.ZENDDATE + 978307200) AS INTEGER) AS end_time,
            CAST((ZOBJECT.ZCREATIONDATE + 978307200) AS INTEGER) AS created_at,
            ZOBJECT.ZSECONDSFROMGMT AS tz_offset,
            COALESCE(ZSOURCE.ZDEVICEID, ZSYNCPEER.ZDEVICEID) AS device_id,
            COALESCE(ZSYNCPEER.ZMODEL, ZSYNCPEER.ZRAPPORTID, ZSOURCE.ZSOURCEID) AS device_model
        FROM ZOBJECT
        LEFT JOIN ZSTRUCTUREDMETADATA ON ZOBJECT.ZSTRUCTUREDMETADATA = ZSTRUCTUREDMETADATA.Z_PK
        LEFT JOIN ZSOURCE ON ZOBJECT.ZSOURCE = ZSOURCE.Z_PK
        LEFT JOIN ZSYNCPEER ON (ZSOURCE.ZDEVICEID = ZSYNCPEER.ZDEVICEID OR ZSOURCE.ZSOURCEID = ZSYNCPEER.ZCLOUDID)
        WHERE ZOBJECT.ZSTREAMNAME = '/app/usage'
        ";

/// The condition that keeps only events newer than the watermark.
pub const WATERMARK_CLAUSE: &'static str = " AND ZOBJECT.Z_PK > ?";

/// The order of the Screen Time rows: oldest start first.
pub const KNOWLEDGE_ORDER: &'static str = " ORDER BY ZOBJECT.ZSTARTDATE ASC";

/// The Screen Time statement and the watermark bound to its placeholder.
#[derive(Debug, Clone)]
pub struct KnowledgeQuery {
    /// The statement.
    pub sql: String,
    /// The value bound to the statement's placeholder, when it has one.
    pub watermark: Option<i64>,
}

/// The Screen Time statement after the watermark `last_event_id`: every app
/// usage event, or only those with a larger event id when there is a
/// watermark.
pub open spec fn knowledge_sql(last_event_id: Option<i64>) -> Seq<char> {
    KNOWLEDGE_SELECT@ + (if last_event_id is Some {
        WATERMARK_CLAUSE@
    } else {
        Seq::empty()
    }) + KNOWLEDGE_ORDER@
}

/// Builds the statement that reads the Screen Time events after the
/// watermark `last_event_id` (the largest event id already synced).
pub fn build_knowledge_select_query(last_event_id: Option<i64>) -> (r: KnowledgeQuery)
    ensures
        r.sql@ == knowledge_sql(last_event_id),
        r.watermark == last_event_id,
{
    let mut sql = String::from_str(KNOWLEDGE_SELECT);
    if last_event_id.is_some() {
        sql.append(WATERMARK_CLAUSE);
    }
    sql.append(KNOWLEDGE_ORDER);
    KnowledgeQuery { sql, watermark: last_event_id }
}

/// Every placeholder of the Screen Time statement has its value: the
/// statement holds one `?` when there is a watermark to bind, none without.
pub proof fn lemma_knowledge_placeholders(last_event_id: Option<i64>)
    ensures
        count_char(knowledge_sql(last_event_id), '?') == if last_event_id is Some {
            1nat
        } else {
            0nat
        },
{
    reveal_strlit("
        SELECT
            ZOBJECT.Z_PK AS event_id,
            ZOBJECT.ZVALUESTRING AS app_name,
            CAST((ZOBJECT.ZENDDATE - ZOBJECT.ZSTARTDATE) AS REAL) AS amount_seconds,
            CAST((ZOBJECT.ZSTARTDATE + 978307200) AS INTEGER) AS start_time,
            CAST((ZOBJECT.ZENDDATE + 978307200) AS INTEGER) AS end_time,
            CAST((ZOBJECT.ZCREATIONDATE + 978307200) AS INTEGER) AS created_at,
            ZOBJECT.ZSECONDSFROMGMT AS tz_offset,
            COALESCE(ZSOURCE.ZDEVICEID, ZSYNCPEER.ZDEVICEID) AS device_id,
            COALESCE(ZSYNCPEER.ZMODEL, ZSYNCPEER.ZRAPPORTID, ZSOURCE.ZSOURCEID) AS device_model
        FROM ZOBJECT
        LEFT JOIN ZSTRUCTUREDMETADATA ON ZOBJECT.ZSTRUCTUREDMETADATA = ZSTRUCTUREDMETADATA.Z_PK
        LEFT JOIN ZSOURCE ON ZOBJECT.ZSOURCE = ZSOURCE.Z_PK
        LEFT JOIN ZSYNCPEER ON (ZSOURCE.ZDEVICEID = ZSYNCPEER.ZDEVICEID OR ZSOURCE.ZSOURCEID = ZSYNCPEER.ZCLOUDID)
        WHERE ZOBJECT.ZSTREAMNAME = '/app/usage'
        ");
    assert(KNOWLEDGE_SELECT@ == "
        SELECT
            ZOBJECT.Z_PK AS event_id,
            ZOBJECT.ZVALUESTRING AS app_name,
            CAST((ZOBJECT.ZENDDATE - ZOBJECT.ZSTARTDATE) AS REAL) AS amount_seconds,
            CAST((ZOBJECT.ZSTARTDATE + 978307200) AS INTEGER) AS start_time,
            CAST((ZOBJECT.ZENDDATE + 978307200) AS INTEGER) AS end_time,
            CAST((ZOBJECT.ZCREATIONDATE + 978307200) AS INTEGER) AS created_at,
            ZOBJECT.ZSECONDSFROMGMT AS tz_offset,
            COALESCE(ZSOURCE.ZDEVICEID, ZSYNCPEER.ZDEVICEID) AS device_id,
            COALESCE(ZSYNCPEER.ZMODEL, ZSYNCPEER.ZRAPPORTID, ZSOURCE.ZSOURCEID) AS device_model
        FROM ZOBJECT
        LEFT JOIN ZSTRUCTUREDMETADATA ON ZOBJECT.ZSTRUCTUREDMETADATA = ZSTRUCTUREDMETADATA.Z_PK
        LEFT JOIN ZSOURCE ON ZOBJECT.ZSOURCE = ZSOURCE.Z_PK
        LEFT JOIN ZSYNCPEER ON (ZSOURCE.ZDEVICEID = ZSYNCPEER.ZDEVICEID OR ZSOURCE.ZSOURCEID = ZSYNCPEER.ZCLOUDID)
        WHERE ZOBJECT.ZSTREAMNAME = '/app/usage'
        "@);
    lemma_count_absent(KNOWLEDGE_SELECT@, '?');
    reveal_strlit(" ORDER BY ZOBJECT.ZSTARTDATE ASC");
    lemma_count_absent(KNOWLEDGE_ORDER@, '?');
    reveal_strlit(" AND ZOBJECT.Z_PK > ?");
    lemma_count_single(WATERMARK_CLAUSE@, '?', 20);
    let middle = if last_event_id is Some {
        WATERMARK_CLAUSE@
    } else {
        Seq::empty()
    };
    if last_event_id is None {
        lemma_count_absent(middle, '?');
    }
    lemma_count_concat(KNOWLEDGE_SELECT@, middle, '?');
    lemma_count_concat(KNOWLEDGE_SELECT@ + middle, KNOWLEDGE_ORDER@, '?');
}

} // verus!
