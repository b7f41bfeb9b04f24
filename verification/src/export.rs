//! The shape of exports: the CSV header, and how a JSON array is framed
//! around records written one at a time.

use vstd::prelude::*;

use crate::query::join_with;

verus! {

/// The CSV header, the same names as the JSON keys of a record.
pub const CSV_HEADER: [&'static str; 9] = [
    "event_id",
    "app_name",
    "amount",
    "start_time",
    "end_time",
    "created_at",
    "tz_offset",
    "device_id",
    "device_model",
];

/// Frames records written one after another as one JSON array: `[` before
/// the first, `,` between two, `]` after the last.
pub struct JsonArrayFramer {
    first: bool,
}

impl JsonArrayFramer {
    /// No record has been framed yet.
    pub closed spec fn at_start(&self) -> bool {
        self.first
    }

    /// A framer before any record.
    pub fn new() -> (r: Self)
        ensures
            r.at_start(),
    {
        JsonArrayFramer { first: true }
    }

    /// What opens the array.
    pub fn open(&self) -> (r: &'static str)
        ensures
            r@ == "["@,
    {
        "["
    }

    /// What goes before the next record: nothing before the first, a comma
    /// before every other.
    pub fn before_record(&mut self) -> (r: &'static str)
        ensures
            !final(self).at_start(),
            r@ == if old(self).at_start() {
                ""@
            } else {
                ","@
            },
    {
        let first = self.first;
        self.first = false;
        if first {
            ""
        } else {
            ","
        }
    }

    /// What closes the array.
    pub fn close(&self) -> (r: &'static str)
        ensures
            r@ == "]"@,
    {
        "]"
    }
}

/// What goes before the record that follows `count` records: the
/// framer's separator, which is empty exactly when it is at the start.
pub open spec fn record_separator(count: nat) -> Seq<char> {
    if count == 0 {
        ""@
    } else {
        ","@
    }
}

/// The text between `[` and `]` after writing `records`, each after its
/// separator.
pub open spec fn framed_records(records: Seq<Seq<char>>) -> Seq<char>
    decreases records.len(),
{
    if records.len() == 0 {
        Seq::empty()
    } else {
        framed_records(records.drop_last()) + record_separator((records.len() - 1) as nat)
            + records.last()
    }
}

/// Writing each record after the separator the framer gives, between the
/// opening and closing brackets, yields the JSON array of the records: `[`,
/// the records joined by commas, `]`.
pub proof fn lemma_framed_array(records: Seq<Seq<char>>)
    ensures
        framed_records(records) == join_with(records, ","@),
    decreases records.len(),
{
    reveal_strlit("");
    if records.len() > 0 {
        lemma_framed_array(records.drop_last());
        if records.len() == 1 {
            assert(records.drop_last() =~= Seq::<Seq<char>>::empty());
            assert(framed_records(records) =~= records[0]);
        }
    }
}

} // verus!
