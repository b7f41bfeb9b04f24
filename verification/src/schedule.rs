//! Scheduling the periodic sync with launchd: reading the `--every` and
//! `--at` options, choosing the schedule, and writing the LaunchAgent
//! property list.

use vstd::prelude::*;

use crate::text::{
    all_digits, decimal, digits_value, is_digit, is_white_space, lemma_digit_not_white_space, lemma_parse_digits,
    contains_text, lemma_occurs_in_concat, lemma_trimmed_unchanged, occurs_at, parse_u32, parse_u64, parse_unsigned, push_decimal, trim,
    trimmed, IntErrorKind,
};

verus! {

/// The LaunchAgent label used when none is given.
pub const DEFAULT_LABEL: &'static str = "com.mikkelam.screenhistory";

/// The interval used when neither `--every` nor `--at` is given: one hour.
pub const DEFAULT_INTERVAL_SECS: u64 = 3600;

/// Why an interval such as `15m`, `1h` or `900` was refused.
#[derive(Clone, Copy, Debug, PartialEq, Eq, Structural)]
pub enum DurationError {
    /// The number before `m` is not a `u64` ("Parsing minutes").
    Minutes(IntErrorKind),
    /// The number before `h` is not a `u64` ("Parsing hours").
    Hours(IntErrorKind),
    /// The text is not a `u64` number of seconds ("Parsing seconds").
    Seconds(IntErrorKind),
    /// The number of minutes or hours is too large for its number of seconds
    /// to fit in a `u64`.
    Overflow,
}

/// Why a daily time such as `02:00` was refused.
#[derive(Clone, Copy, Debug, PartialEq, Eq, Structural)]
pub enum TimeOfDayError {
    /// The text is not two parts separated by one `:` ("Time must be HH:MM (24h)").
    Format,
    /// The part before `:` is not a `u32` ("Parsing hour").
    Hour(IntErrorKind),
    /// The part after `:` is not a `u32` ("Parsing minute").
    Minute(IntErrorKind),
    /// The hour is above 23 or the minute above 59.
    OutOfRange,
}

/// Why the schedule options were refused.
#[derive(Clone, Copy, Debug, PartialEq, Eq, Structural)]
pub enum ScheduleError {
    /// `--every` was refused.
    Every(DurationError),
    /// `--at` was refused.
    At(TimeOfDayError),
}

/// When launchd starts the sync.
#[derive(Clone, Copy, Debug, PartialEq, Eq, Structural)]
pub enum Schedule {
    /// Every so many seconds (`StartInterval`).
    Interval(u64),
    /// Once a day at the given hour and minute (`StartCalendarInterval`).
    Daily(u32, u32),
}

/// Applies the unit `mult` (seconds per unit) to a parsed number.
pub open spec fn scaled(r: Result<nat, IntErrorKind>, mult: nat, unit_err: spec_fn(IntErrorKind) -> DurationError) -> Result<nat, DurationError> {
    match r {
        Err(e) => Err(unit_err(e)),
        Ok(v) => if v * mult > u64::MAX {
            Err(DurationError::Overflow)
        } else {
            Ok(v * mult)
        },
    }
}

/// The number of seconds that an interval text stands for: after trimming,
/// a number followed by `m` (minutes) or `h` (hours), the number trimmed
/// again, or else a plain number of seconds.
pub open spec fn duration_secs(s: Seq<char>) -> Result<nat, DurationError> {
    let t = trimmed(s);
    if t.len() > 0 && t.last() == 'm' {
        scaled(
            parse_unsigned(trimmed(t.drop_last()), u64::MAX as nat),
            60,
            |e: IntErrorKind| DurationError::Minutes(e),
        )
    } else if t.len() > 0 && t.last() == 'h' {
        scaled(
            parse_unsigned(trimmed(t.drop_last()), u64::MAX as nat),
            3600,
            |e: IntErrorKind| DurationError::Hours(e),
        )
    } else {
        match parse_unsigned(t, u64::MAX as nat) {
            Err(e) => Err(DurationError::Seconds(e)),
            Ok(v) => Ok(v),
        }
    }
}

/// Reads an interval such as `15m`, `1h` or `900` (seconds) as a number of
/// seconds.
pub fn parse_duration_secs(s: &str) -> (r: Result<u64, DurationError>)
    ensures
        r matches Ok(v) ==> duration_secs(s@) == Ok::<nat, DurationError>(v as nat),
        r matches Err(e) ==> duration_secs(s@) == Err::<nat, DurationError>(e),
{
    let t = trim(s);
    let n = t.unicode_len();
    if n > 0 {
        let last = t.get_char(n - 1);
        if last == 'm' || last == 'h' {
            let rest = trim(t.substring_char(0, n - 1));
            proof {
                assert(t@.subrange(0, n - 1) =~= t@.drop_last());
            }
            let mult: u64 = if last == 'm' {
                60
            } else {
                3600
            };
            return match parse_u64(rest) {
                Err(e) => if last == 'm' {
                    Err(DurationError::Minutes(e))
                } else {
                    Err(DurationError::Hours(e))
                },
                Ok(v) => match v.checked_mul(mult) {
                    Some(secs) => Ok(secs),
                    None => Err(DurationError::Overflow),
                },
            };
        }
    }
    match parse_u64(t) {
        Err(e) => Err(DurationError::Seconds(e)),
        Ok(v) => Ok(v),
    }
}

/// A number of units written in decimal digits `d` and followed by the unit
/// letter `unit` reads as that number of units (the text being already
/// trimmed, and the number being read after the letter is removed).
proof fn lemma_unit_text(d: Seq<char>, unit: char)
    requires
        d.len() > 0,
        all_digits(d),
        !is_white_space(unit),
    ensures
        trimmed(d.push(unit)) == d.push(unit),
        trimmed(d.push(unit)).drop_last() == d,
        trimmed(d) == d,
{
    let t = d.push(unit);
    assert(is_digit(d[0]));
    assert(is_digit(d[d.len() - 1]));
    lemma_digit_not_white_space(d[0]);
    lemma_digit_not_white_space(d[d.len() - 1]);
    assert(t[0] == d[0]);
    lemma_trimmed_unchanged(t);
    lemma_trimmed_unchanged(d);
    assert(t.drop_last() =~= d);
}

/// Whole hours: the decimal digits of a number `n` followed by `h` stand for
/// `n * 3600` seconds, and are refused as an overflow when that does not fit
/// in a `u64`.
pub proof fn lemma_interval_hours(d: Seq<char>)
    requires
        d.len() > 0,
        all_digits(d),
        digits_value(d) <= u64::MAX,
    ensures
        duration_secs(d.push('h')) == if digits_value(d) * 3600 <= u64::MAX {
            Ok::<nat, DurationError>(digits_value(d) * 3600)
        } else {
            Err::<nat, DurationError>(DurationError::Overflow)
        },
{
    lemma_unit_text(d, 'h');
    lemma_parse_digits(d, u64::MAX as nat);
}

/// Whole minutes: the decimal digits of a number `n` followed by `m` stand
/// for `n * 60` seconds, and are refused as an overflow when that does not
/// fit in a `u64`.
pub proof fn lemma_interval_minutes(d: Seq<char>)
    requires
        d.len() > 0,
        all_digits(d),
        digits_value(d) <= u64::MAX,
    ensures
        duration_secs(d.push('m')) == if digits_value(d) * 60 <= u64::MAX {
            Ok::<nat, DurationError>(digits_value(d) * 60)
        } else {
            Err::<nat, DurationError>(DurationError::Overflow)
        },
{
    lemma_unit_text(d, 'm');
    lemma_parse_digits(d, u64::MAX as nat);
}

/// Plain seconds: the decimal digits of a number `n` stand for `n` seconds,
/// whenever it fits in a `u64`.
pub proof fn lemma_interval_seconds(d: Seq<char>)
    requires
        d.len() > 0,
        all_digits(d),
        digits_value(d) <= u64::MAX,
    ensures
        duration_secs(d) == Ok::<nat, DurationError>(digits_value(d)),
{
    assert(is_digit(d[0]));
    assert(is_digit(d[d.len() - 1]));
    lemma_digit_not_white_space(d[0]);
    lemma_digit_not_white_space(d[d.len() - 1]);
    lemma_trimmed_unchanged(d);
    lemma_parse_digits(d, u64::MAX as nat);
}

/// A daily time written as the decimal digits of an hour `h`, one `:`, and
/// the decimal digits of a minute `m` (with or without leading zeros, as in
/// `02:00` or `12:30`) is read as hour `h` and minute `m` when `h <= 23` and
/// `m <= 59`, and refused as out of range otherwise.
pub proof fn lemma_daily_time(dh: Seq<char>, dm: Seq<char>)
    requires
        dh.len() > 0,
        dm.len() > 0,
        all_digits(dh),
        all_digits(dm),
        digits_value(dh) <= u32::MAX,
        digits_value(dm) <= u32::MAX,
    ensures
        time_of_day(dh + seq![':'] + dm) == if digits_value(dh) <= 23 && digits_value(dm) <= 59 {
            Ok::<(nat, nat), TimeOfDayError>((digits_value(dh), digits_value(dm)))
        } else {
            Err::<(nat, nat), TimeOfDayError>(TimeOfDayError::OutOfRange)
        },
{
    let s = dh + seq![':'] + dm;
    let k = dh.len() as int;
    assert forall|i: int| 0 <= i < s.len() && i != k implies s[i] != ':' by {
        if i < k {
            assert(s[i] == dh[i]);
            assert(is_digit(dh[i]));
        } else {
            assert(s[i] == dm[i - k - 1]);
            assert(is_digit(dm[i - k - 1]));
        }
    }
    assert(s[k] == ':');
    assert(only_colon_at(s, k));
    let kk = choose|x: int| only_colon_at(s, x);
    assert(kk == k) by {
        if kk != k {
            assert(s[k] != ':');
        }
    }
    assert(s.take(k) =~= dh);
    assert(s.skip(k + 1) =~= dm);
    lemma_parse_digits(dh, u32::MAX as nat);
    lemma_parse_digits(dm, u32::MAX as nat);
}

/// `s` splits at `k` into two parts around its only `:`.
pub open spec fn only_colon_at(s: Seq<char>, k: int) -> bool {
    &&& 0 <= k < s.len()
    &&& s[k] == ':'
    &&& forall|i: int| 0 <= i < s.len() && i != k ==> s[i] != ':'
}

/// The hour and minute that a daily time `HH:MM` stands for.
pub open spec fn time_of_day(s: Seq<char>) -> Result<(nat, nat), TimeOfDayError> {
    if exists|k: int| only_colon_at(s, k) {
        let k = choose|k: int| only_colon_at(s, k);
        match parse_unsigned(s.take(k), u32::MAX as nat) {
            Err(e) => Err(TimeOfDayError::Hour(e)),
            Ok(h) => match parse_unsigned(s.skip(k + 1), u32::MAX as nat) {
                Err(e) => Err(TimeOfDayError::Minute(e)),
                Ok(m) => if h > 23 || m > 59 {
                    Err(TimeOfDayError::OutOfRange)
                } else {
                    Ok((h, m))
                },
            },
        }
    } else {
        Err(TimeOfDayError::Format)
    }
}

/// Reads a daily time in 24-hour `HH:MM` form.
pub fn parse_hhmm(s: &str) -> (r: Result<(u32, u32), TimeOfDayError>)
    ensures
        r matches Ok((h, m)) ==> time_of_day(s@) == Ok::<(nat, nat), TimeOfDayError>(
            (h as nat, m as nat),
        ),
        r matches Ok((h, m)) ==> h <= 23 && m <= 59,
        r matches Err(e) ==> time_of_day(s@) == Err::<(nat, nat), TimeOfDayError>(e),
{
    let chars = crate::text::to_chars(s);
    let n = chars.len();
    let mut k: usize = 0;
    while k < n && chars[k] != ':'
        invariant
            chars@ == s@,
            n == s@.len(),
            k <= n,
            forall|i: int| 0 <= i < k ==> s@[i] != ':',
        decreases n - k,
    {
        k += 1;
    }
    if k == n {
        assert(!exists|j: int| only_colon_at(s@, j)) by {
            assert forall|j: int| !only_colon_at(s@, j) by {
                if 0 <= j < n {
                    assert(s@[j] != ':');
                }
            }
        }
        return Err(TimeOfDayError::Format);
    }
    let mut j: usize = k + 1;
    while j < n
        invariant
            chars@ == s@,
            n == s@.len(),
            k < j <= n,
            s@[k as int] == ':',
            forall|i: int| 0 <= i < k ==> s@[i] != ':',
            forall|i: int| k < i < j ==> s@[i] != ':',
        decreases n - j,
    {
        if chars[j] == ':' {
            assert(!exists|x: int| only_colon_at(s@, x)) by {
                assert forall|x: int| !only_colon_at(s@, x) by {
                    if only_colon_at(s@, x) {
                        if x != k {
                            assert(s@[k as int] != ':');
                        } else {
                            assert(s@[j as int] != ':');
                        }
                    }
                }
            }
            return Err(TimeOfDayError::Format);
        }
        j += 1;
    }
    assert(only_colon_at(s@, k as int));
    let ghost kk = choose|x: int| only_colon_at(s@, x);
    assert(kk == k) by {
        if kk != k {
            assert(s@[k as int] != ':');
        }
    }
    let hour_text = s.substring_char(0, k);
    let minute_text = s.substring_char(k + 1, n);
    assert(hour_text@ =~= s@.take(k as int));
    assert(minute_text@ =~= s@.skip(k + 1));
    let hour = match parse_u32(hour_text) {
        Err(e) => {
            return Err(TimeOfDayError::Hour(e));
        },
        Ok(h) => h,
    };
    let minute = match parse_u32(minute_text) {
        Err(e) => {
            return Err(TimeOfDayError::Minute(e));
        },
        Ok(m) => m,
    };
    if hour > 23 || minute > 59 {
        return Err(TimeOfDayError::OutOfRange);
    }
    Ok((hour, minute))
}

/// The schedule that the `--every` and `--at` options ask for: `--every`
/// when given, else `--at` when given, else every hour.
pub open spec fn chosen_schedule(every: Option<Seq<char>>, at: Option<Seq<char>>) -> Result<
    Schedule,
    ScheduleError,
> {
    match every {
        Some(e) => match duration_secs(e) {
            Ok(v) => Ok(Schedule::Interval(v as u64)),
            Err(err) => Err(ScheduleError::Every(err)),
        },
        None => match at {
            Some(a) => match time_of_day(a) {
                Ok((h, m)) => Ok(Schedule::Daily(h as u32, m as u32)),
                Err(err) => Err(ScheduleError::At(err)),
            },
            None => Ok(Schedule::Interval(DEFAULT_INTERVAL_SECS)),
        },
    }
}

/// Chooses the schedule from the `--every` and `--at` options.
pub fn schedule_from_args(every: Option<&str>, at: Option<&str>) -> (r: Result<
    Schedule,
    ScheduleError,
>)
    ensures
        r == chosen_schedule(
            match every {
                Some(e) => Some(e@),
                None => None,
            },
            match at {
                Some(a) => Some(a@),
                None => None,
            },
        ),
{
    match every {
        Some(e) => match parse_duration_secs(e) {
            Ok(v) => Ok(Schedule::Interval(v)),
            Err(err) => Err(ScheduleError::Every(err)),
        },
        None => match at {
            Some(a) => match parse_hhmm(a) {
                Ok((h, m)) => Ok(Schedule::Daily(h, m)),
                Err(err) => Err(ScheduleError::At(err)),
            },
            None => Ok(Schedule::Interval(DEFAULT_INTERVAL_SECS)),
        },
    }
}

/// The `StartInterval` and `StartCalendarInterval` values of a schedule.
pub fn schedule_parts(schedule: Schedule) -> (r: (Option<u64>, Option<(u32, u32)>))
    ensures
        r == (match schedule {
            Schedule::Interval(v) => (Some(v), None),
            Schedule::Daily(h, m) => (None, Some((h, m))),
        }),
{
    match schedule {
        Schedule::Interval(v) => (Some(v), None),
        Schedule::Daily(h, m) => (None, Some((h, m))),
    }
}

/// The arguments launchd runs: the executable, `sync`, then the database
/// paths forwarded as `--local-db` and `--knowledge-db` when given.
pub open spec fn sync_arguments(exe: Seq<char>, local_db: Option<Seq<char>>, knowledge_db: Option<Seq<char>>) -> Seq<Seq<char>> {
    seq![exe, "sync"@] + match local_db {
        Some(p) => seq!["--local-db"@, p],
        None => Seq::empty(),
    } + match knowledge_db {
        Some(p) => seq!["--knowledge-db"@, p],
        None => Seq::empty(),
    }
}

/// The program arguments of the LaunchAgent that runs the sync.
pub fn sync_program_args(exe: &str, local_db: Option<&str>, knowledge_db: Option<&str>) -> (r: Vec<String>)
    ensures
        r@.map_values(|a: String| a@) == sync_arguments(
            exe@,
            match local_db {
                Some(p) => Some(p@),
                None => None,
            },
            match knowledge_db {
                Some(p) => Some(p@),
                None => None,
            },
        ),
{
    let mut args: Vec<String> = Vec::new();
    args.push(String::from_str(exe));
    args.push(String::from_str("sync"));
    if let Some(p) = local_db {
        args.push(String::from_str("--local-db"));
        args.push(String::from_str(p));
    }
    if let Some(p) = knowledge_db {
        args.push(String::from_str("--knowledge-db"));
        args.push(String::from_str(p));
    }
    assert(args@.map_values(|a: String| a@) =~= sync_arguments(
        exe@,
        match local_db {
            Some(p) => Some(p@),
            None => None,
        },
        match knowledge_db {
            Some(p) => Some(p@),
            None => None,
        },
    ));
    args
}

/// The LaunchAgent label: the one given, or [`DEFAULT_LABEL`].
pub fn label_or_default(label: Option<String>) -> (r: String)
    ensures
        r@ == match label {
            Some(l) => l@,
            None => DEFAULT_LABEL@,
        },
{
    match label {
        Some(l) => l,
        None => String::from_str(DEFAULT_LABEL),
    }
}

/// The launchctl domain of the user `uid`: `gui/<uid>`.
pub fn launchctl_domain(uid: &str) -> (r: String)
    ensures
        r@ == "gui/"@ + uid@,
{
    let mut r = String::from_str("gui/");
    r.append(uid);
    r
}

/// The launchctl service of the agent `label` for the user `uid`:
/// `gui/<uid>/<label>`.
pub fn launchctl_service(uid: &str, label: &str) -> (r: String)
    ensures
        r@ == "gui/"@ + uid@ + "/"@ + label@,
{
    let mut r = String::from_str("gui/");
    r.append(uid);
    r.append("/");
    r.append(label);
    r
}

/// The `<string>` lines of the program arguments, one per argument.
pub open spec fn plist_args_xml(args: Seq<Seq<char>>) -> Seq<char>
    decreases args.len(),
{
    if args.len() == 0 {
        Seq::empty()
    } else {
        plist_args_xml(args.drop_last()) + "        <string>"@ + args.last() + "</string>\n"@
    }
}

/// The schedule keys of the property list: `StartInterval` when an interval
/// is given, else `StartCalendarInterval` when a daily time is given, else
/// nothing.
pub open spec fn plist_schedule_xml(start_interval: Option<u64>, start_calendar: Option<(u32, u32)>) -> Seq<char> {
    match start_interval {
        Some(secs) => "    <key>StartInterval</key>\n    <integer>"@ + decimal(secs as nat)
            + "</integer>\n"@,
        None => match start_calendar {
            Some((hour, minute)) => "    <key>StartCalendarInterval</key>\n    <dict>\n      <key>Hour</key>\n      <integer>"@
                + decimal(hour as nat) + "</integer>\n      <key>Minute</key>\n      <integer>"@
                + decimal(minute as nat) + "</integer>\n    </dict>\n"@,
            None => Seq::empty(),
        },
    }
}

/// The LaunchAgent property list.
pub open spec fn plist_text(
    label: Seq<char>,
    args: Seq<Seq<char>>,
    run_at_load: bool,
    start_interval: Option<u64>,
    start_calendar: Option<(u32, u32)>,
    log_path: Seq<char>,
) -> Seq<char> {
    "<?xml version=\"1.0\" encoding=\"UTF-8\"?>\n<!DOCTYPE plist PUBLIC \"-//Apple//DTD PLIST 1.0//EN\" \"http://www.apple.com/DTDs/PropertyList-1.0.dtd\">\n<plist version=\"1.0\">\n  <dict>\n    <key>Label</key>\n    <string>"@
        + label + "</string>\n    <key>ProgramArguments</key>\n    <array>\n"@ + plist_args_xml(args)
        + "    </array>\n    <key>RunAtLoad</key>\n    <"@ + (if run_at_load {
        "true"@
    } else {
        "false"@
    }) + "/>\n    <key>KeepAlive</key>\n    <false/>\n    <key>StandardOutPath</key>\n    <string>"@
        + log_path + "</string>\n    <key>StandardErrorPath</key>\n    <string>"@ + log_path
        + "</string>\n"@ + plist_schedule_xml(start_interval, start_calendar)
        + "  </dict>\n</plist>\n"@
}

/// The line of the property list that holds the program argument `a`.
pub open spec fn argument_line(a: Seq<char>) -> Seq<char> {
    "        <string>"@ + a + "</string>\n"@
}

/// Where the line of the argument at position `k` starts, counted from the
/// start of the first argument's line: after the lines of the arguments
/// before it.
pub open spec fn argument_offset(args: Seq<Seq<char>>, k: int) -> int
    decreases k,
{
    if k <= 0 {
        0
    } else {
        argument_offset(args, k - 1) + argument_line(args[k - 1]).len()
    }
}

/// The text that opens the program arguments' array, after the label.
pub open spec fn arguments_opening() -> Seq<char> {
    "</string>\n    <key>ProgramArguments</key>\n    <array>\n"@
}

/// Where the first argument's line starts in the property list of `label`.
pub open spec fn arguments_start(label: Seq<char>) -> int {
    ("<?xml version=\"1.0\" encoding=\"UTF-8\"?>\n<!DOCTYPE plist PUBLIC \"-//Apple//DTD PLIST 1.0//EN\" \"http://www.apple.com/DTDs/PropertyList-1.0.dtd\">\n<plist version=\"1.0\">\n  <dict>\n    <key>Label</key>\n    <string>"@.len()
        + label.len() + arguments_opening().len()) as int
}

proof fn lemma_argument_offset_prefix(args: Seq<Seq<char>>, k: int)
    requires
        0 <= k < args.len(),
    ensures
        argument_offset(args, k) == argument_offset(args.drop_last(), k),
    decreases k,
{
    if k > 0 {
        lemma_argument_offset_prefix(args, k - 1);
        assert(args[k - 1] == args.drop_last()[k - 1]);
    }
}

#[verifier::spinoff_prover]
#[verifier::rlimit(40)]
proof fn lemma_args_xml_lines(args: Seq<Seq<char>>)
    ensures
        plist_args_xml(args).len() == argument_offset(args, args.len() as int),
        forall|k: int|
            0 <= k < args.len() ==> occurs_at(
                plist_args_xml(args),
                argument_line(#[trigger] args[k]),
                argument_offset(args, k),
            ),
    decreases args.len(),
{
    if args.len() > 0 {
        let init = args.drop_last();
        let n = args.len() - 1;
        lemma_args_xml_lines(init);
        let x = plist_args_xml(init);
        let line = argument_line(args.last());
        assert(plist_args_xml(args) =~= x + line);
        lemma_argument_offset_prefix(args, n);
        assert forall|k: int| 0 <= k < args.len() implies occurs_at(
            plist_args_xml(args),
            argument_line(#[trigger] args[k]),
            argument_offset(args, k),
        ) by {
            if k < n {
                lemma_argument_offset_prefix(args, k);
                assert(args[k] == init[k]);
                lemma_occurs_in_concat(Seq::<char>::empty(), x, line, argument_line(args[k]), argument_offset(args, k));
                assert(Seq::<char>::empty() + x + line =~= x + line);
            } else {
                assert((x + line).subrange(x.len() as int, (x.len() + line.len()) as int) =~= line);
            }
        }
    }
}

/// The property list runs every program argument, in order, and no other:
/// the array of program arguments opens right before the first argument's
/// line; the line of the argument at position `k` holds that argument and
/// follows the lines of the arguments before it; and the array closes
/// right after the last argument's line.
#[verifier::rlimit(60)]
#[verifier::spinoff_prover]
pub proof fn lemma_plist_program_arguments(
    label: Seq<char>,
    args: Seq<Seq<char>>,
    run_at_load: bool,
    start_interval: Option<u64>,
    start_calendar: Option<(u32, u32)>,
    log_path: Seq<char>,
)
    ensures
        ({
            let t = plist_text(label, args, run_at_load, start_interval, start_calendar, log_path);
            let start = arguments_start(label);
            &&& occurs_at(t, arguments_opening(), start - arguments_opening().len())
            &&& forall|k: int|
                0 <= k < args.len() ==> occurs_at(
                    t,
                    argument_line(#[trigger] args[k]),
                    start + argument_offset(args, k),
                )
            &&& occurs_at(t, "    </array>\n"@, start + argument_offset(args, args.len() as int))
        }),
{
    let t = plist_text(label, args, run_at_load, start_interval, start_calendar, log_path);
    let head = "<?xml version=\"1.0\" encoding=\"UTF-8\"?>\n<!DOCTYPE plist PUBLIC \"-//Apple//DTD PLIST 1.0//EN\" \"http://www.apple.com/DTDs/PropertyList-1.0.dtd\">\n<plist version=\"1.0\">\n  <dict>\n    <key>Label</key>\n    <string>"@;
    let pre = head + label + arguments_opening();
    let xml = plist_args_xml(args);
    let c1 = "    </array>\n    <key>RunAtLoad</key>\n    <"@;
    let p0 = pre + xml;
    let p1 = p0 + c1;
    let p2 = p1 + (if run_at_load {
        "true"@
    } else {
        "false"@
    });
    let p3 = p2 + "/>\n    <key>KeepAlive</key>\n    <false/>\n    <key>StandardOutPath</key>\n    <string>"@;
    let p4 = p3 + log_path;
    let p5 = p4 + "</string>\n    <key>StandardErrorPath</key>\n    <string>"@;
    let p6 = p5 + log_path;
    let p7 = p6 + "</string>\n"@;
    let p8 = p7 + plist_schedule_xml(start_interval, start_calendar);
    let p9 = p8 + "  </dict>\n</plist>\n"@;
    assert(t == p9);
    lemma_prefix_of_concat(p8, "  </dict>\n</plist>\n"@, p1.len() as int);
    lemma_prefix_of_concat(p7, plist_schedule_xml(start_interval, start_calendar), p1.len() as int);
    lemma_prefix_of_concat(p6, "</string>\n"@, p1.len() as int);
    lemma_prefix_of_concat(p5, log_path, p1.len() as int);
    lemma_prefix_of_concat(p4, "</string>\n    <key>StandardErrorPath</key>\n    <string>"@, p1.len() as int);
    lemma_prefix_of_concat(p3, log_path, p1.len() as int);
    lemma_prefix_of_concat(p2, "/>\n    <key>KeepAlive</key>\n    <false/>\n    <key>StandardOutPath</key>\n    <string>"@, p1.len() as int);
    lemma_prefix_of_concat(p1, (if run_at_load {
        "true"@
    } else {
        "false"@
    }), p1.len() as int);
    assert(t.subrange(0, p1.len() as int) == p1.subrange(0, p1.len() as int));
    assert(p1.subrange(0, p1.len() as int) =~= p1);
    lemma_args_xml_lines(args);
    assert forall|k: int| 0 <= k < args.len() implies occurs_at(
        t,
        argument_line(#[trigger] args[k]),
        arguments_start(label) + argument_offset(args, k),
    ) by {
        lemma_occurs_in_concat(pre, xml, c1, argument_line(args[k]), argument_offset(args, k));
        lemma_occurs_in_prefix(t, p1, argument_line(args[k]), arguments_start(label) + argument_offset(args, k));
    }
    assert(p1.subrange(
        (head.len() + label.len()) as int,
        (head.len() + label.len() + arguments_opening().len()) as int,
    ) =~= arguments_opening());
    lemma_occurs_in_prefix(t, p1, arguments_opening(), (head.len() + label.len()) as int);
    let close = "    </array>\n"@;
    reveal_strlit("    </array>\n    <key>RunAtLoad</key>\n    <");
    reveal_strlit("    </array>\n");
    assert(p1.subrange(p0.len() as int, (p0.len() + close.len()) as int) =~= close);
    lemma_occurs_in_prefix(t, p1, close, p0.len() as int);
}

/// The property list starts the sync on the schedule it is given: with an
/// interval, its `StartInterval` holds the decimal digits of that number of
/// seconds; with a daily time and no interval, its `StartCalendarInterval`
/// holds the decimal digits of the hour under `Hour` and then those of the
/// minute under `Minute`.
pub proof fn lemma_plist_schedule(
    label: Seq<char>,
    args: Seq<Seq<char>>,
    run_at_load: bool,
    start_interval: Option<u64>,
    start_calendar: Option<(u32, u32)>,
    log_path: Seq<char>,
)
    ensures
        start_interval matches Some(secs) ==> contains_text(
            plist_text(label, args, run_at_load, start_interval, start_calendar, log_path),
            "    <key>StartInterval</key>\n    <integer>"@ + decimal(secs as nat) + "</integer>\n"@,
        ),
        start_interval is None ==> (start_calendar matches Some((hour, minute)) ==> contains_text(
            plist_text(label, args, run_at_load, start_interval, start_calendar, log_path),
            "    <key>StartCalendarInterval</key>\n    <dict>\n      <key>Hour</key>\n      <integer>"@
                + decimal(hour as nat) + "</integer>\n      <key>Minute</key>\n      <integer>"@
                + decimal(minute as nat) + "</integer>\n    </dict>\n"@,
        )),
{
    let t = plist_text(label, args, run_at_load, start_interval, start_calendar, log_path);
    let head = "<?xml version=\"1.0\" encoding=\"UTF-8\"?>\n<!DOCTYPE plist PUBLIC \"-//Apple//DTD PLIST 1.0//EN\" \"http://www.apple.com/DTDs/PropertyList-1.0.dtd\">\n<plist version=\"1.0\">\n  <dict>\n    <key>Label</key>\n    <string>"@;
    let p7 = head + label + arguments_opening() + plist_args_xml(args)
        + "    </array>\n    <key>RunAtLoad</key>\n    <"@ + (if run_at_load {
        "true"@
    } else {
        "false"@
    }) + "/>\n    <key>KeepAlive</key>\n    <false/>\n    <key>StandardOutPath</key>\n    <string>"@
        + log_path + "</string>\n    <key>StandardErrorPath</key>\n    <string>"@ + log_path
        + "</string>\n"@;
    let sched = plist_schedule_xml(start_interval, start_calendar);
    let tail = "  </dict>\n</plist>\n"@;
    assert(t == p7 + sched + tail);
    assert(sched.subrange(0, sched.len() as int) =~= sched);
    lemma_occurs_in_concat(p7, sched, tail, sched, 0);
    assert(occurs_at(t, sched, p7.len() as int));
}

proof fn lemma_prefix_of_concat(a: Seq<char>, b: Seq<char>, n: int)
    requires
        0 <= n <= a.len(),
    ensures
        (a + b).subrange(0, n) == a.subrange(0, n),
{
    assert((a + b).subrange(0, n) =~= a.subrange(0, n));
}

proof fn lemma_occurs_in_prefix(t: Seq<char>, p: Seq<char>, needle: Seq<char>, i: int)
    requires
        p.len() <= t.len(),
        t.subrange(0, p.len() as int) == p,
        occurs_at(p, needle, i),
    ensures
        occurs_at(t, needle, i),
{
    assert(t.subrange(i, i + needle.len()) =~= p.subrange(i, i + needle.len()));
}

/// Writes the LaunchAgent property list that runs `program_args` on the
/// given schedule, logging to `log_path`.
pub fn render_plist(
    label: &str,
    program_args: &[String],
    run_at_load: bool,
    start_interval: Option<u64>,
    start_calendar: Option<(u32, u32)>,
    log_path: &str,
) -> (r: String)
    ensures
        r@ == plist_text(
            label@,
            program_args@.map_values(|a: String| a@),
            run_at_load,
            start_interval,
            start_calendar,
            log_path@,
        ),
{
    let ghost views = program_args@.map_values(|a: String| a@);
    let mut args_xml = String::new();
    let mut i: usize = 0;
    while i < program_args.len()
        invariant
            views == program_args@.map_values(|a: String| a@),
            i <= program_args@.len(),
            args_xml@ == plist_args_xml(views.take(i as int)),
        decreases program_args@.len() - i,
    {
        args_xml.append("        <string>");
        args_xml.append(program_args[i].as_str());
        args_xml.append("</string>\n");
        assert(views.take(i + 1).drop_last() =~= views.take(i as int));
        i += 1;
    }
    assert(views.take(i as int) =~= views);
    let mut schedule_xml = String::new();
    match start_interval {
        Some(secs) => {
            schedule_xml.append("    <key>StartInterval</key>\n    <integer>");
            push_decimal(&mut schedule_xml, secs);
            schedule_xml.append("</integer>\n");
        },
        None => match start_calendar {
            Some((hour, minute)) => {
                schedule_xml.append(
                    "    <key>StartCalendarInterval</key>\n    <dict>\n      <key>Hour</key>\n      <integer>",
                );
                push_decimal(&mut schedule_xml, hour as u64);
                schedule_xml.append("</integer>\n      <key>Minute</key>\n      <integer>");
                push_decimal(&mut schedule_xml, minute as u64);
                schedule_xml.append("</integer>\n    </dict>\n");
            },
            None => {},
        },
    }
    let mut out = String::from_str(
        "<?xml version=\"1.0\" encoding=\"UTF-8\"?>\n<!DOCTYPE plist PUBLIC \"-//Apple//DTD PLIST 1.0//EN\" \"http://www.apple.com/DTDs/PropertyList-1.0.dtd\">\n<plist version=\"1.0\">\n  <dict>\n    <key>Label</key>\n    <string>",
    );
    out.append(label);
    out.append("</string>\n    <key>ProgramArguments</key>\n    <array>\n");
    out.append(args_xml.as_str());
    out.append("    </array>\n    <key>RunAtLoad</key>\n    <");
    if run_at_load {
        out.append("true");
    } else {
        out.append("false");
    }
    out.append(
        "/>\n    <key>KeepAlive</key>\n    <false/>\n    <key>StandardOutPath</key>\n    <string>",
    );
    out.append(log_path);
    out.append("</string>\n    <key>StandardErrorPath</key>\n    <string>");
    out.append(log_path);
    out.append("</string>\n");
    out.append(schedule_xml.as_str());
    out.append("  </dict>\n</plist>\n");
    out
}

} // verus!
