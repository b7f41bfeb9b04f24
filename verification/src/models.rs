//! Domain types shared by sync and export: the export filters, the summary
//! of a sync run, and the rows of the local database.

use vstd::prelude::*;

verus! {

/// Filters applied when exporting usage records.
#[derive(Debug, Clone)]
pub struct ExportFilters {
    /// Inclusive lower bound on end time (Unix timestamp, seconds, UTC).
    pub from: Option<i64>,
    /// Inclusive upper bound on end time (Unix timestamp, seconds, UTC).
    pub to: Option<i64>,
    /// Exact application name to match.
    pub app: Option<String>,
}

impl Default for ExportFilters {
    /// No filter: every record is exported.
    fn default() -> (r: Self)
        ensures
            r.from is None,
            r.to is None,
            r.app is None,
    {
        ExportFilters { from: None, to: None, app: None }
    }
}

/// Summary of a sync run.
#[derive(Clone, Copy, Debug, PartialEq, Eq, Structural)]
pub struct SyncSummary {
    /// Rows read from the Screen Time database.
    pub scanned: u64,
    /// Rows newly inserted into the local database.
    pub inserted: u64,
    /// Rows skipped because the local database already had them.
    pub skipped: u64,
}

impl Default for SyncSummary {
    /// Nothing scanned yet.
    fn default() -> (r: Self)
        ensures
            r.scanned == 0,
            r.inserted == 0,
            r.skipped == 0,
    {
        SyncSummary { scanned: 0, inserted: 0, skipped: 0 }
    }
}

/// Every scanned row is counted once, as inserted or as skipped.
pub open spec fn balanced(s: SyncSummary) -> bool {
    s.scanned == s.inserted + s.skipped
}

/// The counts after the insertions that affected `rows_affected[i]` rows
/// each, starting from none: (scanned, inserted, skipped).
pub open spec fn counts_of(rows_affected: Seq<u64>) -> (nat, nat, nat)
    decreases rows_affected.len(),
{
    if rows_affected.len() == 0 {
        (0, 0, 0)
    } else {
        let (scanned, inserted, skipped) = counts_of(rows_affected.drop_last());
        if rows_affected.last() > 0 {
            (scanned + 1, inserted + 1, skipped)
        } else {
            (scanned + 1, inserted, skipped + 1)
        }
    }
}

impl SyncSummary {
    /// Counts one scanned row whose insertion affected `rows_affected` rows:
    /// inserted when it affected any, else skipped.
    pub fn record_row(&mut self, rows_affected: u64)
        requires
            old(self).scanned < u64::MAX,
            rows_affected > 0 ==> old(self).inserted < u64::MAX,
            rows_affected == 0 ==> old(self).skipped < u64::MAX,
        ensures
            final(self).scanned == old(self).scanned + 1,
            rows_affected > 0 ==> final(self).inserted == old(self).inserted + 1
                && final(self).skipped == old(self).skipped,
            rows_affected == 0 ==> final(self).skipped == old(self).skipped + 1
                && final(self).inserted == old(self).inserted,
            balanced(*old(self)) ==> balanced(*final(self)),
    {
        self.scanned += 1;
        if rows_affected > 0 {
            self.inserted += 1;
        } else {
            self.skipped += 1;
        }
    }
}

/// After any sequence of insertions, the rows scanned are exactly the rows
/// inserted plus the rows skipped, and there is one scanned row per
/// insertion.
pub proof fn lemma_counts_balanced(rows_affected: Seq<u64>)
    ensures
        counts_of(rows_affected).0 == counts_of(rows_affected).1 + counts_of(rows_affected).2,
        counts_of(rows_affected).0 == rows_affected.len(),
    decreases rows_affected.len(),
{
    if rows_affected.len() > 0 {
        lemma_counts_balanced(rows_affected.drop_last());
    }
}

/// Recording rows one by one from an empty summary gives the counts of
/// those rows.
pub proof fn lemma_record_rows(before: SyncSummary, after: SyncSummary, rows_affected: Seq<u64>, last: u64)
    requires
        (before.scanned as nat, before.inserted as nat, before.skipped as nat) == counts_of(
            rows_affected,
        ),
        after.scanned == before.scanned + 1,
        last > 0 ==> after.inserted == before.inserted + 1 && after.skipped == before.skipped,
        last == 0 ==> after.skipped == before.skipped + 1 && after.inserted == before.inserted,
    ensures
        (after.scanned as nat, after.inserted as nat, after.skipped as nat) == counts_of(
            rows_affected.push(last),
        ),
{
    assert(rows_affected.push(last).drop_last() =~= rows_affected);
}

/// A row of the local database's `usage` table.
#[derive(Debug, Clone)]
pub struct LocalUsageRow {
    /// Stable unique identifier of the event.
    pub event_id: i64,
    /// Application identifier or name.
    pub app_name: String,
    /// Duration in seconds, as stored in the `amount` column.
    pub duration_secs: i64,
    /// Start time, Unix seconds.
    pub start_unix: i64,
    /// End time, Unix seconds, as stored in the `end_time` column.
    pub end_unix: i64,
    /// Creation time, Unix seconds.
    pub created_unix: i64,
    /// Seconds offset from GMT.
    pub tz_offset_seconds: i32,
    /// Optional device identifier.
    pub device_id: Option<String>,
    /// Device model.
    pub device_model: String,
}

impl LocalUsageRow {
    /// Start time as whole seconds since the Unix epoch.
    pub fn start_ts(&self) -> (r: i64)
        ensures
            r == self.start_unix,
    {
        self.start_unix
    }

    /// End time as whole seconds since the Unix epoch.
    pub fn end_ts(&self) -> (r: i64)
        ensures
            r == self.end_unix,
    {
        self.end_unix
    }

    /// Creation time as whole seconds since the Unix epoch.
    pub fn created_ts(&self) -> (r: i64)
        ensures
            r == self.created_unix,
    {
        self.created_unix
    }
}

} // verus!
