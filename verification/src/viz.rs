//! Weekly usage statistics: per app, the usage of each day of one week.

use vstd::prelude::*;

use crate::date::{
    date_of, days_from_monday, julian_day_in_range, julian_day_of_timestamp, max_timestamp,
    midnight_timestamp, min_timestamp, week_start_date, Date, SECONDS_PER_DAY,
};
use crate::order::{
    chars_less, lemma_text_less_irreflexive, lemma_text_less_total,
    lemma_text_less_transitive, text_less,
};
use crate::text::to_chars;

verus! {

/// One app's usage on one day.
#[derive(Clone, Copy, Debug, PartialEq, Eq, Structural)]
pub struct DailyAppUsage {
    /// The day of the usage.
    pub day: Date,
    /// Total usage on that day, in seconds.
    pub duration_secs: u64,
}

/// A recorded usage and the app it belongs to.
#[derive(Debug, Clone)]
pub struct UsageEntry {
    /// The app's name.
    pub app: String,
    /// The usage.
    pub usage: DailyAppUsage,
}

/// Usage of all apps over one week.
#[derive(Debug, Clone)]
pub struct WeeklyStats {
    /// The Monday that starts the week (ISO 8601).
    pub week_start: Date,
    /// The usage of each app on each day, one entry per app and day, in
    /// the order they were first recorded.
    pub entries: Vec<UsageEntry>,
}

/// A recorded usage seen as the app's name and the usage.
pub type UsageRecordView = (Seq<char>, DailyAppUsage);

impl View for WeeklyStats {
    type V = Seq<UsageRecordView>;

    /// The entries, each as the app's name and its usage that day.
    open spec fn view(&self) -> Seq<UsageRecordView> {
        self.entries@.map_values(|e: UsageEntry| (e.app@, e.usage))
    }
}

/// The apps that have usage in `es`.
pub open spec fn app_names(es: Seq<UsageRecordView>) -> Set<Seq<char>> {
    Set::new(|n: Seq<char>| exists|i: int| 0 <= i < es.len() && es[i].0 == n)
}

/// The usages of the app `name` in `es`, in the order they were added.
pub open spec fn usages_of(es: Seq<UsageRecordView>, name: Seq<char>) -> Seq<DailyAppUsage>
    decreases es.len(),
{
    if es.len() == 0 {
        Seq::empty()
    } else if es.last().0 == name {
        usages_of(es.drop_last(), name).push(es.last().1)
    } else {
        usages_of(es.drop_last(), name)
    }
}

/// The entry `e` records usage of `name` on `day`.
pub open spec fn is_entry_of(e: UsageRecordView, name: Seq<char>, day: Date) -> bool {
    e.0 == name && e.1.day == day
}

/// The position of the first entry of `es` that records usage of `name` on
/// `day`, if there is one.
pub open spec fn slot_of(es: Seq<UsageRecordView>, name: Seq<char>, day: Date) -> Option<int>
    decreases es.len(),
{
    if es.len() == 0 {
        None
    } else {
        match slot_of(es.drop_last(), name, day) {
            Some(i) => Some(i),
            None => if is_entry_of(es.last(), name, day) {
                Some(es.len() - 1)
            } else {
                None
            },
        }
    }
}

/// `x + d` in seconds, held at `u64::MAX` when the sum does not fit.
pub open spec fn accumulated(x: u64, d: u64) -> u64 {
    if x + d <= u64::MAX {
        (x + d) as u64
    } else {
        u64::MAX
    }
}

/// The entries after recording `d` seconds of usage of `name` on `day`: an
/// entry of that app and day has `d` added to its duration; when there is
/// none, a new entry is added after the others.
pub open spec fn record_usage(es: Seq<UsageRecordView>, name: Seq<char>, day: Date, d: u64) -> Seq<
    UsageRecordView,
> {
    match slot_of(es, name, day) {
        Some(i) => es.update(
            i,
            (name, DailyAppUsage { day, duration_secs: accumulated(es[i].1.duration_secs, d) }),
        ),
        None => es.push((name, DailyAppUsage { day, duration_secs: d })),
    }
}

/// The entries after recording each of `recs` in turn.
pub open spec fn record_all(es: Seq<UsageRecordView>, recs: Seq<UsageRecordView>) -> Seq<
    UsageRecordView,
>
    decreases recs.len(),
{
    if recs.len() == 0 {
        es
    } else {
        let r = recs.last();
        record_usage(record_all(es, recs.drop_last()), r.0, r.1.day, r.1.duration_secs)
    }
}

/// The usage of `name` on `day`: the duration of its entry, or 0 when it
/// has none.
pub open spec fn usage_on(es: Seq<UsageRecordView>, name: Seq<char>, day: Date) -> u64 {
    match slot_of(es, name, day) {
        Some(i) => es[i].1.duration_secs,
        None => 0,
    }
}

/// No app has two entries for one day.
pub open spec fn one_entry_per_day(es: Seq<UsageRecordView>) -> bool {
    forall|i: int, j: int|
        0 <= i < j < es.len() ==> !is_entry_of(#[trigger] es[i], (#[trigger] es[j]).0, es[j].1.day)
}

/// Every entry is on a day whose Julian day lies from `lo` to `hi`.
pub open spec fn days_within(es: Seq<UsageRecordView>, lo: int, hi: int) -> bool {
    forall|i: int| 0 <= i < es.len() ==> lo <= (#[trigger] es[i]).1.day@ <= hi
}

/// What `slot_of` finds: the first entry of that app and day, or, when it
/// finds none, that there is none.
pub proof fn lemma_slot_of(es: Seq<UsageRecordView>, name: Seq<char>, day: Date)
    ensures
        slot_of(es, name, day) matches Some(i) ==> {
            &&& 0 <= i < es.len()
            &&& is_entry_of(es[i], name, day)
            &&& forall|j: int| 0 <= j < i ==> !is_entry_of(#[trigger] es[j], name, day)
        },
        slot_of(es, name, day) is None ==> forall|j: int|
            0 <= j < es.len() ==> !is_entry_of(#[trigger] es[j], name, day),
    decreases es.len(),
{
    if es.len() > 0 {
        let init = es.drop_last();
        lemma_slot_of(init, name, day);
        assert forall|j: int| 0 <= j < init.len() implies #[trigger] es[j] == init[j] by {}
    }
}

/// The first entry of that app and day is what `slot_of` finds.
proof fn lemma_slot_of_first(es: Seq<UsageRecordView>, name: Seq<char>, day: Date, i: int)
    requires
        0 <= i < es.len(),
        is_entry_of(es[i], name, day),
        forall|j: int| 0 <= j < i ==> !is_entry_of(#[trigger] es[j], name, day),
    ensures
        slot_of(es, name, day) == Some(i),
{
    lemma_slot_of(es, name, day);
    if let Some(k) = slot_of(es, name, day) {
        if k < i {
            assert(!is_entry_of(es[k], name, day));
        } else if k > i {
            assert(!is_entry_of(es[i], name, day));
        }
    }
}

/// Entries with the same apps and days, position by position, have their
/// entries of each app and day at the same positions.
proof fn lemma_slot_of_same_keys(a: Seq<UsageRecordView>, b: Seq<UsageRecordView>, name: Seq<char>, day: Date)
    requires
        a.len() == b.len(),
        forall|j: int| 0 <= j < a.len() ==> (#[trigger] a[j]).0 == b[j].0 && a[j].1.day == b[j].1.day,
    ensures
        slot_of(a, name, day) == slot_of(b, name, day),
{
    lemma_slot_of(a, name, day);
    lemma_slot_of(b, name, day);
    if let Some(i) = slot_of(a, name, day) {
        assert(is_entry_of(b[i], name, day));
        assert forall|j: int| 0 <= j < i implies !is_entry_of(#[trigger] b[j], name, day) by {
            assert(!is_entry_of(a[j], name, day));
        }
        lemma_slot_of_first(b, name, day, i);
    } else if let Some(i) = slot_of(b, name, day) {
        assert(!is_entry_of(a[i], name, day));
    }
}

/// Recording usage accumulates per app and day: the usage of that app on
/// that day grows by the duration recorded (held at `u64::MAX`), starting
/// from 0 when it had none; the usage of every other app or day stays as
/// it was; the apps with usage gain that app; and no app comes to have two
/// entries for one day.
pub proof fn lemma_record_usage(es: Seq<UsageRecordView>, name: Seq<char>, day: Date, d: u64)
    ensures
        usage_on(record_usage(es, name, day, d), name, day) == accumulated(usage_on(es, name, day), d),
        forall|n: Seq<char>, t: Date|
            !(n == name && t == day) ==> #[trigger] usage_on(record_usage(es, name, day, d), n, t)
                == usage_on(es, n, t),
        app_names(record_usage(es, name, day, d)) == app_names(es).insert(name),
        one_entry_per_day(es) ==> one_entry_per_day(record_usage(es, name, day, d)),
{
    let r = record_usage(es, name, day, d);
    let e = (name, DailyAppUsage { day, duration_secs: d });
    lemma_slot_of(es, name, day);
    match slot_of(es, name, day) {
        Some(i) => {
            assert forall|j: int| 0 <= j < es.len() implies (#[trigger] es[j]).0 == r[j].0 && es[j].1.day
                == r[j].1.day by {}
            lemma_slot_of_same_keys(es, r, name, day);
            assert forall|n: Seq<char>, t: Date|
                !(n == name && t == day) implies #[trigger] usage_on(r, n, t) == usage_on(es, n, t) by {
                lemma_slot_of_same_keys(es, r, n, t);
                lemma_slot_of(es, n, t);
                if let Some(k) = slot_of(es, n, t) {
                    assert(k != i);
                }
            }
            assert(app_names(r) =~= app_names(es).insert(name)) by {
                assert forall|n: Seq<char>| app_names(es).insert(name).contains(n) implies app_names(r).contains(n) by {
                    if n == name {
                        assert(r[i].0 == n);
                    } else {
                        let k = choose|k: int| 0 <= k < es.len() && es[k].0 == n;
                        assert(r[k].0 == n);
                    }
                }
                assert forall|n: Seq<char>| app_names(r).contains(n) implies app_names(es).insert(name).contains(n) by {
                    let k = choose|k: int| 0 <= k < r.len() && r[k].0 == n;
                    assert(es[k].0 == n);
                }
            }
            if one_entry_per_day(es) {
                assert forall|a: int, b: int| 0 <= a < b < r.len() implies !is_entry_of(#[trigger] r[a], (#[trigger] r[b]).0, r[b].1.day) by {
                    assert(!is_entry_of(es[a], es[b].0, es[b].1.day));
                }
            }
        },
        None => {
            assert(r == es.push(e));
            assert forall|j: int| 0 <= j < es.len() implies #[trigger] r[j] == es[j] by {}
            assert(r.drop_last() =~= es);
            assert(slot_of(r, name, day) == Some(es.len() as int));
            assert forall|n: Seq<char>, t: Date|
                !(n == name && t == day) implies #[trigger] usage_on(r, n, t) == usage_on(es, n, t) by {
                assert(!is_entry_of(e, n, t));
                assert(r.last() == e);
                assert(slot_of(r, n, t) == slot_of(es, n, t));
                lemma_slot_of(es, n, t);
                if let Some(k) = slot_of(es, n, t) {
                    assert(r[k] == es[k]);
                }
            }
            assert(app_names(r) =~= app_names(es).insert(name)) by {
                assert forall|n: Seq<char>| app_names(es).insert(name).contains(n) implies app_names(r).contains(n) by {
                    if n == name {
                        assert(r[es.len() as int].0 == n);
                    } else {
                        let k = choose|k: int| 0 <= k < es.len() && es[k].0 == n;
                        assert(r[k].0 == n);
                    }
                }
                assert forall|n: Seq<char>| app_names(r).contains(n) implies app_names(es).insert(name).contains(n) by {
                    let k = choose|k: int| 0 <= k < r.len() && r[k].0 == n;
                    if k < es.len() {
                        assert(es[k].0 == n);
                    }
                }
            }
            if one_entry_per_day(es) {
                assert forall|a: int, b: int| 0 <= a < b < r.len() implies !is_entry_of(#[trigger] r[a], (#[trigger] r[b]).0, r[b].1.day) by {
                    if b < es.len() {
                        assert(!is_entry_of(es[a], es[b].0, es[b].1.day));
                    } else {
                        assert(!is_entry_of(es[a], name, day));
                    }
                }
            }
        },
    }
}

/// `names` is in strictly increasing order (so without repeats).
pub open spec fn strictly_sorted(names: Seq<Seq<char>>) -> bool {
    forall|i: int, j: int| 0 <= i < j < names.len() ==> text_less(names[i], names[j])
}

/// The texts of a list of strings.
pub open spec fn string_views(v: Seq<String>) -> Seq<Seq<char>> {
    v.map_values(|s: String| s@)
}

impl WeeklyStats {
    /// Empty statistics for the week starting on `week_start`.
    pub fn new(week_start: Date) -> (r: Self)
        ensures
            r.week_start == week_start,
            r@ == Seq::<UsageRecordView>::empty(),
    {
        let r = WeeklyStats { week_start, entries: Vec::new() };
        assert(r@ =~= Seq::<UsageRecordView>::empty());
        r
    }

    /// The position of the entry of `app_name` on `day`, if there is one.
    fn find_slot(&self, app_name: &str, day: Date) -> (r: Option<usize>)
        ensures
            r matches Some(i) ==> slot_of(self@, app_name@, day) == Some(i as int) && i < self@.len(),
            r is None ==> slot_of(self@, app_name@, day) is None,
            self@.len() == self.entries@.len(),
    {
        let target = to_chars(app_name);
        let mut i: usize = 0;
        while i < self.entries.len()
            invariant
                target@ == app_name@,
                i <= self@.len(),
                self@.len() == self.entries@.len(),
                forall|j: int| 0 <= j < i ==> !is_entry_of(#[trigger] self@[j], app_name@, day),
            decreases self@.len() - i,
        {
            let entry = &self.entries[i];
            assert(self@[i as int] == (entry.app@, entry.usage));
            if entry.usage.day == day {
                let key = to_chars(entry.app.as_str());
                if crate::order::chars_equal(&key, &target) {
                    proof {
                        lemma_slot_of_first(self@, app_name@, day, i as int);
                    }
                    return Some(i);
                }
            }
            i += 1;
        }
        proof {
            lemma_slot_of(self@, app_name@, day);
            if let Some(k) = slot_of(self@, app_name@, day) {
                assert(!is_entry_of(self@[k], app_name@, day));
            }
        }
        None
    }

    /// Records `duration_secs` of usage of `app_name` on `day`: an entry for
    /// that app and day is created, or, when there is one, the duration is
    /// added to it (held at `u64::MAX` should the sum not fit).
    pub fn add_usage(&mut self, app_name: String, day: Date, duration_secs: u64)
        ensures
            final(self).week_start == old(self).week_start,
            final(self)@ == record_usage(old(self)@, app_name@, day, duration_secs),
            usage_on(final(self)@, app_name@, day) == accumulated(
                usage_on(old(self)@, app_name@, day),
                duration_secs,
            ),
            forall|n: Seq<char>, t: Date|
                !(n == app_name@ && t == day) ==> #[trigger] usage_on(final(self)@, n, t) == usage_on(
                    old(self)@,
                    n,
                    t,
                ),
            one_entry_per_day(old(self)@) ==> one_entry_per_day(final(self)@),
    {
        let ghost name = app_name@;
        proof {
            lemma_record_usage(old(self)@, name, day, duration_secs);
        }
        match self.find_slot(app_name.as_str(), day) {
            Some(i) => {
                let old_secs = self.entries[i].usage.duration_secs;
                let secs = old_secs.saturating_add(duration_secs);
                let usage = DailyAppUsage { day, duration_secs: secs };
                self.entries.set(i, UsageEntry { app: app_name, usage });
                assert(self@ =~= record_usage(old(self)@, name, day, duration_secs));
            },
            None => {
                self.entries.push(UsageEntry { app: app_name, usage: DailyAppUsage { day, duration_secs } });
                assert(self@ =~= record_usage(old(self)@, name, day, duration_secs));
            },
        }
    }

    /// The usages of `app_name`, in the order they were recorded.
    pub fn usages(&self, app_name: &str) -> (r: Vec<DailyAppUsage>)
        ensures
            r@ == usages_of(self@, app_name@),
    {
        let target = to_chars(app_name);
        let mut r: Vec<DailyAppUsage> = Vec::new();
        let mut i: usize = 0;
        while i < self.entries.len()
            invariant
                target@ == app_name@,
                i <= self@.len(),
                self@.len() == self.entries@.len(),
                r@ == usages_of(self@.take(i as int), app_name@),
            decreases self@.len() - i,
        {
            let entry = &self.entries[i];
            let key = to_chars(entry.app.as_str());
            assert(self@.take(i + 1).drop_last() =~= self@.take(i as int));
            assert(self@[i as int] == (entry.app@, entry.usage));
            if crate::order::chars_equal(&key, &target) {
                r.push(entry.usage);
            }
            i += 1;
        }
        assert(self@.take(i as int) =~= self@);
        r
    }

    /// The usage of `app_name` on `day`, or 0 when none was recorded.
    pub fn get_usage(&self, app_name: &str, day: Date) -> (r: u64)
        ensures
            r == usage_on(self@, app_name@, day),
    {
        match self.find_slot(app_name, day) {
            Some(i) => self.entries[i].usage.duration_secs,
            None => 0,
        }
    }

    /// The names of the apps with usage, in sorted order, each once.
    pub fn sorted_app_names(&self) -> (r: Vec<String>)
        ensures
            strictly_sorted(string_views(r@)),
            forall|k: int| 0 <= k < r@.len() ==> app_names(self@).contains(#[trigger] r@[k]@),
            forall|n: Seq<char>|
                app_names(self@).contains(n) ==> exists|k: int|
                    0 <= k < r@.len() && #[trigger] r@[k]@ == n,
            app_names(self@).finite(),
            r@.len() == app_names(self@).len(),
    {
        let ghost es_names = record_names(self@);
        let mut names: Vec<String> = Vec::new();
        let mut keys: Vec<Vec<char>> = Vec::new();
        let mut i: usize = 0;
        proof {
            assert(string_views(names@) =~= Seq::<Seq<char>>::empty());
            assert(es_names.take(0) =~= Seq::<Seq<char>>::empty());
            assert(char_views(keys@) =~= string_views(names@));
        }
        while i < self.entries.len()
            invariant
                i <= self@.len(),
                self@.len() == self.entries@.len(),
                es_names == record_names(self@),
                char_views(keys@) == string_views(names@),
                strictly_sorted(string_views(names@)),
                forall|y: Seq<char>|
                    #[trigger] string_views(names@).contains(y) ==> es_names.take(i as int).contains(y),
                forall|y: Seq<char>|
                    #[trigger] es_names.take(i as int).contains(y) ==> string_views(names@).contains(y),
            decreases self@.len() - i,
        {
            let entry = &self.entries[i];
            let ghost old_views = string_views(names@);
            let ghost x = entry.app@;
            assert(es_names[i as int] == x);
            let key = to_chars(entry.app.as_str());
            let mut p: usize = 0;
            while p < keys.len() && chars_less(&keys[p], &key)
                invariant
                    p <= keys@.len(),
                    char_views(keys@) == old_views,
                    key@ == x,
                    forall|q: int| 0 <= q < p ==> text_less(#[trigger] old_views[q], x),
                decreases keys@.len() - p,
            {
                assert(keys@[p as int]@ == old_views[p as int]);
                p += 1;
            }
            if p < keys.len() && !chars_less(&key, &keys[p]) {
                proof {
                    assert(keys@[p as int]@ == old_views[p as int]);
                    lemma_text_less_total(old_views[p as int], x);
                    assert(old_views[p as int] == x);
                    assert(old_views.contains(x));
                }
            } else {
                proof {
                    if p < keys@.len() {
                        assert(keys@[p as int]@ == old_views[p as int]);
                    }
                    lemma_insert_sorted(old_views, p as int, x);
                }
                names.insert(p, entry.app.clone());
                keys.insert(p, key);
                proof {
                    assert(string_views(names@) =~= old_views.insert(p as int, x));
                    assert(char_views(keys@) =~= old_views.insert(p as int, x));
                    lemma_insert_contains(old_views, p as int, x);
                }
            }
            proof {
                lemma_take_next_contains(es_names, i as int);
                assert(string_views(names@).contains(x));
            }
            i += 1;
        }
        proof {
            assert(es_names.take(i as int) =~= es_names);
            assert forall|k: int| 0 <= k < names@.len() implies app_names(self@).contains(
                #[trigger] names@[k]@,
            ) by {
                assert(string_views(names@)[k] == names@[k]@);
                assert(string_views(names@).contains(names@[k]@));
                let j = choose|j: int| 0 <= j < es_names.len() && es_names[j] == names@[k]@;
                assert(self@[j].0 == names@[k]@);
            }
            assert forall|n: Seq<char>| app_names(self@).contains(n) implies exists|k: int|
                0 <= k < names@.len() && #[trigger] names@[k]@ == n by {
                let j = choose|j: int| 0 <= j < self@.len() && self@[j].0 == n;
                assert(es_names[j] == n);
                assert(es_names.contains(n));
                let k = choose|k: int|
                    0 <= k < string_views(names@).len() && string_views(names@)[k] == n;
                assert(names@[k]@ == n);
            }
            let sv = string_views(names@);
            assert(sv.no_duplicates()) by {
                assert forall|a: int, b: int| 0 <= a < sv.len() && 0 <= b < sv.len() && a != b implies sv[a]
                    != sv[b] by {
                    if a < b {
                        lemma_text_less_irreflexive(sv[a]);
                    } else {
                        lemma_text_less_irreflexive(sv[b]);
                    }
                }
            }
            assert(sv.to_set() =~= app_names(self@)) by {
                assert forall|n: Seq<char>| sv.to_set().contains(n) implies app_names(self@).contains(n) by {
                    let k = choose|k: int| 0 <= k < sv.len() && sv[k] == n;
                    assert(names@[k]@ == n);
                }
                assert forall|n: Seq<char>| app_names(self@).contains(n) implies sv.to_set().contains(n) by {
                    let k = choose|k: int| 0 <= k < names@.len() && #[trigger] names@[k]@ == n;
                    assert(sv[k] == n);
                }
            }
            sv.unique_seq_to_set();
            vstd::seq_lib::seq_to_set_is_finite(sv);
        }
        names
    }
}

/// The app names of the recorded usages, in order.
pub open spec fn record_names(es: Seq<UsageRecordView>) -> Seq<Seq<char>> {
    es.map_values(|e: UsageRecordView| e.0)
}

/// The texts of a list of character vectors.
pub open spec fn char_views(v: Seq<Vec<char>>) -> Seq<Seq<char>> {
    v.map_values(|k: Vec<char>| k@)
}

/// Inserting `x` where everything before is smaller and everything after is
/// larger keeps a sequence strictly sorted.
proof fn lemma_insert_sorted(s: Seq<Seq<char>>, p: int, x: Seq<char>)
    requires
        0 <= p <= s.len(),
        strictly_sorted(s),
        forall|q: int| 0 <= q < p ==> text_less(#[trigger] s[q], x),
        p < s.len() ==> text_less(x, s[p]),
    ensures
        strictly_sorted(s.insert(p, x)),
{
    let t = s.insert(p, x);
    assert forall|a: int, b: int| 0 <= a < b < t.len() implies text_less(t[a], t[b]) by {
        if b < p {
            assert(t[a] == s[a] && t[b] == s[b]);
        } else if b == p {
            assert(t[a] == s[a]);
        } else if a < p {
            assert(t[a] == s[a] && t[b] == s[b - 1]);
            if b - 1 > p {
                assert(text_less(s[p], s[b - 1]));
                lemma_text_less_transitive(x, s[p], s[b - 1]);
            }
            lemma_text_less_transitive(s[a], x, s[b - 1]);
        } else if a == p {
            assert(t[b] == s[b - 1]);
            if b - 1 > p {
                assert(text_less(s[p], s[b - 1]));
                lemma_text_less_transitive(x, s[p], s[b - 1]);
            }
        } else {
            assert(t[a] == s[a - 1] && t[b] == s[b - 1]);
        }
    }
}

/// What an insertion holds: what was there before, and the inserted value.
proof fn lemma_insert_contains(s: Seq<Seq<char>>, p: int, x: Seq<char>)
    requires
        0 <= p <= s.len(),
    ensures
        forall|y: Seq<char>| #[trigger] s.insert(p, x).contains(y) <==> (s.contains(y) || y == x),
{
    let t = s.insert(p, x);
    assert forall|y: Seq<char>| #[trigger] t.contains(y) <==> (s.contains(y) || y == x) by {
        if t.contains(y) {
            let k = choose|k: int| 0 <= k < t.len() && t[k] == y;
            if k < p {
                assert(s[k] == y);
            } else if k > p {
                assert(s[k - 1] == y);
            }
        }
        if s.contains(y) {
            let k = choose|k: int| 0 <= k < s.len() && s[k] == y;
            if k < p {
                assert(t[k] == y);
            } else {
                assert(t[k + 1] == y);
            }
        }
        if y == x {
            assert(t[p] == y);
        }
    }
}

/// A prefix one longer holds what the shorter one holds and the new element.
proof fn lemma_take_next_contains(s: Seq<Seq<char>>, i: int)
    requires
        0 <= i < s.len(),
    ensures
        forall|y: Seq<char>| #[trigger] s.take(i + 1).contains(y) <==> (s.take(i).contains(y) || y == s[i]),
{
    assert(s.take(i + 1) =~= s.take(i).push(s[i]));
    assert forall|y: Seq<char>| #[trigger] s.take(i + 1).contains(y) <==> (s.take(i).contains(y) || y == s[i]) by {
        if s.take(i + 1).contains(y) {
            let k = choose|k: int| 0 <= k < i + 1 && #[trigger] s.take(i + 1)[k] == y;
            if k < i {
                assert(s.take(i)[k] == y);
            }
        }
        if s.take(i).contains(y) {
            let k = choose|k: int| 0 <= k < i && #[trigger] s.take(i)[k] == y;
            assert(s.take(i + 1)[k] == y);
        }
        if y == s[i] {
            assert(s.take(i + 1)[i] == y);
        }
    }
}

/// The time range of the week holding a date, as the weekly query uses it.
#[derive(Clone, Copy, Debug, PartialEq, Eq, Structural)]
pub struct WeekWindow {
    /// The Monday that starts the week.
    pub week_start: Date,
    /// Midnight UTC starting the Monday, as a Unix timestamp.
    pub start_ts: i64,
    /// The last second (23:59:59 UTC) of the Sunday, as a Unix timestamp:
    /// the inclusive upper bound of the weekly query.
    pub end_ts: i64,
}

/// The week window of the week that holds `date`. The Sunday of that week
/// must be a date too.
pub fn week_window(date: Date) -> (w: WeekWindow)
    requires
        julian_day_in_range(date@ - days_from_monday(date@) + 6),
    ensures
        w.week_start@ == date@ - days_from_monday(date@),
        w.start_ts == midnight_timestamp(w.week_start@),
        w.end_ts == midnight_timestamp(w.week_start@ + 6) + SECONDS_PER_DAY - 1,
{
    let week_start = week_start_date(date);
    let week_end = match week_start.checked_add_days(6) {
        Some(d) => d,
        None => week_start,
    };
    let start_ts = week_start.midnight_unix_timestamp();
    let end_ts = week_end.midnight_unix_timestamp() + 86_399;
    WeekWindow { week_start, start_ts, end_ts }
}

/// A row of the weekly query: an app's name, a start time of a usage of it,
/// and the total duration of its usage that day.
pub type DayTotalRowView = (Seq<char>, i64, Option<i64>);

/// The usages that rows of the weekly query stand for: for each row whose
/// start time is within the range of dates, the usage on the UTC day of
/// that start time, with the total duration (0 when absent) as seconds.
pub open spec fn day_total_records(rows: Seq<DayTotalRowView>) -> Seq<UsageRecordView>
    decreases rows.len(),
{
    if rows.len() == 0 {
        Seq::empty()
    } else {
        let prev = day_total_records(rows.drop_last());
        let row = rows.last();
        if min_timestamp() <= row.1 <= max_timestamp() {
            prev.push(
                (
                    row.0,
                    DailyAppUsage {
                        day: date_of(julian_day_of_timestamp(row.1 as int)),
                        duration_secs: match row.2 {
                            Some(t) => t as u64,
                            None => 0,
                        },
                    },
                ),
            )
        } else {
            prev
        }
    }
}

/// The views of the rows of the weekly query.
pub open spec fn day_total_rows_view(rows: Seq<(String, i64, Option<i64>)>) -> Seq<DayTotalRowView> {
    rows.map_values(|r: (String, i64, Option<i64>)| (r.0@, r.1, r.2))
}

impl WeeklyStats {
    /// Records the rows of the weekly query, in order, each as
    /// [`WeeklyStats::add_usage`] does.
    pub fn add_day_totals(&mut self, rows: &Vec<(String, i64, Option<i64>)>)
        ensures
            final(self).week_start == old(self).week_start,
            final(self)@ == record_all(old(self)@, day_total_records(day_total_rows_view(rows@))),
    {
        let ghost rv = day_total_rows_view(rows@);
        let mut i: usize = 0;
        assert(rv.take(0) =~= Seq::<DayTotalRowView>::empty());
        while i < rows.len()
            invariant
                rv == day_total_rows_view(rows@),
                i <= rows@.len(),
                self.week_start == old(self).week_start,
                self@ == record_all(old(self)@, day_total_records(rv.take(i as int))),
            decreases rows@.len() - i,
        {
            let row = &rows[i];
            let ghost before = day_total_records(rv.take(i as int));
            assert(rv.take(i + 1).drop_last() =~= rv.take(i as int));
            assert(rv.take(i + 1).last() == (row.0@, row.1, row.2));
            match Date::from_unix_timestamp(row.1) {
                Some(day) => {
                    let duration: u64 = match row.2 {
                        Some(t) => t as u64,
                        None => 0,
                    };
                    let ghost rec = (row.0@, DailyAppUsage { day, duration_secs: duration });
                    assert(day_total_records(rv.take(i + 1)) == before.push(rec));
                    assert(before.push(rec).drop_last() =~= before);
                    self.add_usage(row.0.clone(), day, duration);
                },
                None => {},
            }
            i += 1;
        }
        assert(rv.take(i as int) =~= rv);
    }
}

/// Every timestamp of a week window, from the Monday's midnight to the
/// Sunday's last second, falls on a day of that week.
pub proof fn lemma_window_days(monday: int, ts: int)
    requires
        julian_day_in_range(monday),
        julian_day_in_range(monday + 6),
        midnight_timestamp(monday) <= ts <= midnight_timestamp(monday + 6) + SECONDS_PER_DAY - 1,
    ensures
        monday <= julian_day_of_timestamp(ts) <= monday + 6,
{
    crate::date::lemma_midnight_roundtrip(monday);
    crate::date::lemma_timestamp_day_monotonic(midnight_timestamp(monday), ts);
    let last = midnight_timestamp(monday + 6) + SECONDS_PER_DAY - 1;
    crate::date::lemma_timestamp_in_day(monday + 6, last);
    crate::date::lemma_timestamp_day_monotonic(ts, last);
}

/// The usages that the rows of the weekly query stand for all fall on days
/// of the week, when every row starts within the week window: from the
/// Monday's midnight to the Sunday's last second.
pub proof fn lemma_day_totals_in_week(monday: int, rows: Seq<DayTotalRowView>)
    requires
        julian_day_in_range(monday),
        julian_day_in_range(monday + 6),
        forall|k: int|
            0 <= k < rows.len() ==> midnight_timestamp(monday) <= (#[trigger] rows[k]).1
                <= midnight_timestamp(monday + 6) + SECONDS_PER_DAY - 1,
    ensures
        days_within(day_total_records(rows), monday, monday + 6),
    decreases rows.len(),
{
    if rows.len() > 0 {
        let init = rows.drop_last();
        assert forall|k: int| 0 <= k < init.len() implies midnight_timestamp(monday) <= (
        #[trigger] init[k]).1 <= midnight_timestamp(monday + 6) + SECONDS_PER_DAY - 1 by {
            assert(init[k] == rows[k]);
        }
        lemma_day_totals_in_week(monday, init);
        let row = rows.last();
        assert(row == rows[rows.len() - 1]);
        if min_timestamp() <= row.1 <= max_timestamp() {
            lemma_window_days(monday, row.1 as int);
            let jd = julian_day_of_timestamp(row.1 as int);
            crate::date::lemma_view_of_date_of(jd);
        }
    }
}

/// Recording only usages of days from `lo` to `hi` into entries of such
/// days leaves only entries of such days.
pub proof fn lemma_record_all_within(es: Seq<UsageRecordView>, recs: Seq<UsageRecordView>, lo: int, hi: int)
    requires
        days_within(es, lo, hi),
        days_within(recs, lo, hi),
    ensures
        days_within(record_all(es, recs), lo, hi),
    decreases recs.len(),
{
    if recs.len() > 0 {
        let init = recs.drop_last();
        assert forall|i: int| 0 <= i < init.len() implies lo <= (#[trigger] init[i]).1.day@ <= hi by {
            assert(init[i] == recs[i]);
        }
        lemma_record_all_within(es, init, lo, hi);
        let prev = record_all(es, init);
        let r = recs.last();
        assert(r == recs[recs.len() - 1]);
        let next = record_usage(prev, r.0, r.1.day, r.1.duration_secs);
        lemma_slot_of(prev, r.0, r.1.day);
        assert forall|i: int| 0 <= i < next.len() implies lo <= (#[trigger] next[i]).1.day@ <= hi by {
            if i < prev.len() {
                assert(prev[i] == prev[i]);
            }
        }
    }
}

/// Loading a week holds only usage of that week: statistics that start
/// empty, filled with rows of the weekly query that all start within the
/// week window, hold only entries of the Monday to the Sunday.
pub proof fn lemma_weekly_load_in_week(monday: int, rows: Seq<DayTotalRowView>)
    requires
        julian_day_in_range(monday),
        julian_day_in_range(monday + 6),
        forall|k: int|
            0 <= k < rows.len() ==> midnight_timestamp(monday) <= (#[trigger] rows[k]).1
                <= midnight_timestamp(monday + 6) + SECONDS_PER_DAY - 1,
    ensures
        days_within(
            record_all(Seq::<UsageRecordView>::empty(), day_total_records(rows)),
            monday,
            monday + 6,
        ),
{
    lemma_day_totals_in_week(monday, rows);
    lemma_record_all_within(Seq::<UsageRecordView>::empty(), day_total_records(rows), monday, monday + 6);
}

} // verus!
