//! The state of the weekly usage browser and how it answers key presses.

use vstd::prelude::*;
use vstd::string::StringSliceAdditionalSpecFns;
use vstd::utf8::{decode_utf8, encode_utf8_decode_utf8, is_char_boundary};

use crate::date::{date_of, days_from_monday, julian_day_in_range, Date};
use crate::text::{decimal, push_decimal};
use crate::viz::{app_names, usage_on, WeeklyStats};

verus! {

/// A key press, as the browser reads it.
#[derive(Clone, Copy, Debug, PartialEq, Eq, Structural)]
pub enum Key {
    /// A character key.
    Char(char),
    /// Escape.
    Esc,
    /// Arrow up.
    Up,
    /// Arrow down.
    Down,
    /// Arrow left.
    Left,
    /// Arrow right.
    Right,
    /// Page up.
    PageUp,
    /// Page down.
    PageDown,
    /// Any other key.
    Other,
}

/// What the event loop does after a key press.
#[derive(Clone, Copy, Debug, PartialEq, Eq, Structural)]
pub enum TuiAction {
    /// Keep running.
    Continue,
    /// Load the statistics of the week holding this date and show them.
    LoadWeek(Date),
    /// Leave the browser.
    Exit,
}

/// The colors that apps are drawn in.
#[derive(Clone, Copy, Debug, PartialEq, Eq, Structural)]
pub enum AppColor {
    Red,
    Green,
    Yellow,
    Blue,
    Magenta,
    Cyan,
    LightRed,
    LightGreen,
    LightYellow,
    LightBlue,
    LightMagenta,
    LightCyan,
}

/// The browser's state.
pub struct VisualizerState {
    /// The Monday of the week shown.
    pub current_week: Date,
    /// The statistics of the week shown.
    pub stats: WeeklyStats,
    /// Index of the selected app in the sorted list.
    pub scroll_offset: usize,
    /// Whether the browser is to be left.
    pub should_exit: bool,
}

/// The largest scroll offset for `n` apps: the index of the last one (0
/// when there are none).
pub open spec fn max_scroll(n: nat) -> nat {
    if n == 0 {
        0
    } else {
        (n - 1) as nat
    }
}

/// The key leaves the browser (`q` or Escape).
pub open spec fn is_quit_key(key: Key) -> bool {
    key == Key::Char('q') || key == Key::Esc
}

/// The scroll offset after `key`, from `scroll`, with `max` the largest
/// offset: up and down move by one, page up and page down by five, staying
/// within 0..=max when moving towards it.
pub open spec fn next_scroll(key: Key, scroll: nat, max: nat) -> nat {
    match key {
        Key::Up => if scroll > 0 {
            (scroll - 1) as nat
        } else {
            scroll
        },
        Key::Down => if scroll < max {
            scroll + 1
        } else {
            scroll
        },
        Key::PageUp => if scroll >= 5 {
            (scroll - 5) as nat
        } else {
            0
        },
        Key::PageDown => if scroll + 5 <= max {
            scroll + 5
        } else {
            max
        },
        _ => scroll,
    }
}

/// The browser after showing the newly loaded `stats`: their week, their
/// statistics, the list at the top, and whether to leave unchanged.
pub open spec fn showing(state: VisualizerState, stats: WeeklyStats) -> VisualizerState {
    VisualizerState {
        current_week: stats.week_start,
        stats,
        scroll_offset: 0,
        should_exit: state.should_exit,
    }
}

/// The number of apps in the statistics shown.
pub open spec fn shown_app_count(state: &VisualizerState) -> nat {
    app_names(state.stats@).len()
}

impl VisualizerState {
    /// The browser showing `stats`, at the top of the list.
    pub fn new(stats: WeeklyStats) -> (r: Self)
        ensures
            r.current_week == stats.week_start,
            r.stats == stats,
            r.scroll_offset == 0,
            !r.should_exit,
    {
        VisualizerState { current_week: stats.week_start, stats, scroll_offset: 0, should_exit: false }
    }

    /// Shows the newly loaded `stats`: the week becomes theirs and the list
    /// returns to the top.
    pub fn show_week(&mut self, stats: WeeklyStats)
        ensures
            *final(self) == showing(*old(self), stats),
            final(self).current_week == stats.week_start,
            final(self).stats == stats,
            final(self).scroll_offset == 0,
            final(self).should_exit == old(self).should_exit,
    {
        self.current_week = stats.week_start;
        self.stats = stats;
        self.scroll_offset = 0;
    }

    /// Answers a key press other than week navigation: `q` and Escape leave,
    /// the arrows and page keys move the selection.
    pub fn handle_input(&mut self, code: Key)
        requires
            code == Key::PageDown ==> old(self).scroll_offset + 5 <= usize::MAX,
        ensures
            final(self).current_week == old(self).current_week,
            final(self).stats == old(self).stats,
            final(self).should_exit == (old(self).should_exit || is_quit_key(code)),
            final(self).scroll_offset == next_scroll(
                code,
                old(self).scroll_offset as nat,
                max_scroll(shown_app_count(old(self))),
            ),
            code == Key::Up ==> final(self).scroll_offset == if old(self).scroll_offset > 0 {
                old(self).scroll_offset - 1
            } else {
                0
            },
            code == Key::PageUp ==> final(self).scroll_offset == if old(self).scroll_offset >= 5 {
                old(self).scroll_offset - 5
            } else {
                0
            },
    {
        match code {
            Key::Char(c) => {
                if c == 'q' {
                    self.should_exit = true;
                }
            },
            Key::Esc => {
                self.should_exit = true;
            },
            Key::Up => {
                if self.scroll_offset > 0 {
                    self.scroll_offset -= 1;
                }
            },
            Key::Down => {
                let max_offset = self.stats.sorted_app_names().len().saturating_sub(1);
                if self.scroll_offset < max_offset {
                    self.scroll_offset += 1;
                }
            },
            Key::PageUp => {
                self.scroll_offset = self.scroll_offset.saturating_sub(5);
            },
            Key::PageDown => {
                let max_offset = self.stats.sorted_app_names().len().saturating_sub(1);
                let next = self.scroll_offset + 5;
                self.scroll_offset = if next < max_offset {
                    next
                } else {
                    max_offset
                };
            },
            _ => {},
        }
    }

    /// Answers a key press in the event loop: left and right ask for the
    /// week before or after the one shown, every other key goes to
    /// [`VisualizerState::handle_input`]; the loop ends once the browser is
    /// to be left.
    pub fn on_key(&mut self, key: Key) -> (r: TuiAction)
        requires
            key == Key::Left ==> julian_day_in_range(old(self).current_week@ - 7),
            key == Key::Right ==> julian_day_in_range(old(self).current_week@ + 7),
            key == Key::PageDown ==> old(self).scroll_offset + 5 <= usize::MAX,
        ensures
            key == Key::Left ==> *final(self) == *old(self) && (r matches TuiAction::LoadWeek(d) && d@
                == old(self).current_week@ - 7),
            key == Key::Right ==> *final(self) == *old(self) && (r matches TuiAction::LoadWeek(d)
                && d@ == old(self).current_week@ + 7),
            key != Key::Left && key != Key::Right ==> {
                &&& final(self).current_week == old(self).current_week
                &&& final(self).stats == old(self).stats
                &&& final(self).should_exit == (old(self).should_exit || is_quit_key(key))
                &&& final(self).scroll_offset == next_scroll(
                    key,
                    old(self).scroll_offset as nat,
                    max_scroll(shown_app_count(old(self))),
                )
                &&& r == if final(self).should_exit {
                    TuiAction::Exit
                } else {
                    TuiAction::Continue
                }
            },
    {
        match key {
            Key::Left => {
                match self.current_week.checked_add_days(-7) {
                    Some(d) => TuiAction::LoadWeek(d),
                    None => TuiAction::Continue,
                }
            },
            Key::Right => {
                match self.current_week.checked_add_days(7) {
                    Some(d) => TuiAction::LoadWeek(d),
                    None => TuiAction::Continue,
                }
            },
            _ => {
                self.handle_input(key);
                if self.should_exit {
                    TuiAction::Exit
                } else {
                    TuiAction::Continue
                }
            },
        }
    }
}

impl VisualizerState {
    /// The usage of `app_name` on each day of the week shown, Monday first.
    /// The Sunday of the week shown must be a date.
    pub fn week_usage_row(&self, app_name: &str) -> (r: Vec<u64>)
        requires
            julian_day_in_range(self.current_week@ + 6),
        ensures
            r@.len() == 7,
            forall|k: int|
                0 <= k < 7 ==> #[trigger] r@[k] == usage_on(
                    self.stats@,
                    app_name@,
                    date_of(self.current_week@ + k),
                ),
    {
        // The Monday shown is a date, so the days up to its Sunday are too.
        let _monday = self.current_week.julian_day();
        let mut row: Vec<u64> = Vec::new();
        let mut k: i64 = 0;
        while k < 7
            invariant
                0 <= k <= 7,
                julian_day_in_range(self.current_week@ + 6),
                julian_day_in_range(self.current_week@),
                row@.len() == k,
                forall|j: int|
                    0 <= j < k ==> #[trigger] row@[j] == usage_on(
                        self.stats@,
                        app_name@,
                        date_of(self.current_week@ + j),
                    ),
            decreases 7 - k,
        {
            let day = match self.current_week.checked_add_days(k) {
                Some(d) => d,
                None => self.current_week,
            };
            proof {
                crate::date::lemma_date_of_view(day);
            }
            let ghost before = row@;
            let usage = self.stats.get_usage(app_name, day);
            row.push(usage);
            assert(forall|j: int| 0 <= j < k ==> row@[j] == before[j]);
            assert(row@[k as int] == usage);
            k += 1;
        }
        row
    }
}

/// The label of a day's bar: the whole hours of the usage, then `h`.
pub fn hours_label(duration_secs: u64) -> (r: String)
    ensures
        r@ == decimal((duration_secs / 3600) as nat) + "h"@,
{
    let mut r = String::new();
    push_decimal(&mut r, duration_secs / 3600);
    r.append("h");
    r
}

/// An app name shortened for a narrow column: when its UTF-8 encoding is
/// longer than `limit` bytes, its first `keep` bytes and `...`; else the
/// name itself. The first `keep` bytes must then end on a character
/// boundary.
pub fn short_name(name: &str, limit: usize, keep: usize) -> (r: String)
    requires
        name.spec_bytes().len() > limit ==> keep <= name.spec_bytes().len() && is_char_boundary(
            name.spec_bytes(),
            keep as int,
        ),
    ensures
        r@ == if name.spec_bytes().len() > limit {
            decode_utf8(name.spec_bytes().take(keep as int)) + "..."@
        } else {
            name@
        },
{
    if name.as_bytes().len() > limit {
        let (head, _tail) = name.split_at(keep);
        proof {
            encode_utf8_decode_utf8(head@);
            assert(head.spec_bytes() =~= name.spec_bytes().take(keep as int));
            assert(decode_utf8(name.spec_bytes().take(keep as int)) == head@);
        }
        let mut r = head.to_owned();
        assert(r@ == head@);
        r.append("...");
        r
    } else {
        name.to_owned()
    }
}

/// What each key does to the selection, for every offset `s` and largest
/// offset `max`: up moves it up one app (staying at the top at 0), down
/// moves it down one app while it is above the last, page up moves it up
/// five apps (to the top when there are fewer above), page down moves it
/// down five apps (to the last when there are fewer below), and every other
/// key leaves it.
pub proof fn lemma_scroll_keys(s: nat, max: nat)
    ensures
        s > 0 ==> next_scroll(Key::Up, s, max) + 1 == s,
        next_scroll(Key::Up, 0, max) == 0,
        s < max ==> next_scroll(Key::Down, s, max) == s + 1,
        s >= max ==> next_scroll(Key::Down, s, max) == s,
        s >= 5 ==> next_scroll(Key::PageUp, s, max) + 5 == s,
        s < 5 ==> next_scroll(Key::PageUp, s, max) == 0,
        s + 5 <= max ==> next_scroll(Key::PageDown, s, max) == s + 5,
        s + 5 > max ==> next_scroll(Key::PageDown, s, max) == max,
        forall|k: Key|
            k != Key::Up && k != Key::Down && k != Key::PageUp && k != Key::PageDown ==> #[trigger] next_scroll(k, s, max) == s,
{
}

/// Keys keep the selection within the list: from an offset no greater than
/// the largest, every key leads to an offset no greater than the largest.
pub proof fn lemma_scroll_stays_in_range(key: Key, scroll: nat, max: nat)
    requires
        scroll <= max,
    ensures
        next_scroll(key, scroll, max) <= max,
{
}

/// Going back a week and then forward a week, loading each time the week
/// holding the date asked for, shows the week shown at first.
pub proof fn lemma_prev_then_next_week(monday: int)
    requires
        days_from_monday(monday) == 0,
    ensures
        ({
            let prev = (monday - 7) - days_from_monday(monday - 7);
            &&& prev == monday - 7
            &&& (prev + 7) - days_from_monday(prev + 7) == monday
        }),
{
    crate::date::lemma_week_start_shift(monday, -1);
    crate::date::lemma_week_start_shift(monday, 0);
}

/// Going forward a week and then back a week, loading each time the week
/// holding the date asked for, shows the week shown at first.
pub proof fn lemma_next_then_prev_week(monday: int)
    requires
        days_from_monday(monday) == 0,
    ensures
        ({
            let next = (monday + 7) - days_from_monday(monday + 7);
            &&& next == monday + 7
            &&& (next - 7) - days_from_monday(next - 7) == monday
        }),
{
    crate::date::lemma_week_start_shift(monday, 1);
    crate::date::lemma_week_start_shift(monday, 0);
}

/// A week forward and back again shows the week shown at first. From a
/// browser showing a Monday, the right arrow asks for the date a week later
/// (see [`VisualizerState::on_key`]); once the statistics `ahead` of the
/// week holding that date are shown, the left arrow asks for the date a
/// week before that week's Monday; once the statistics `back` of the week
/// holding that date are shown, the browser shows the first Monday again,
/// with `back`, the list at the top, and whether to leave unchanged. When a
/// load fails nothing is shown, and the arrow key left the browser as it
/// was.
pub proof fn lemma_week_round_trip(
    state: VisualizerState,
    asked_ahead: Date,
    ahead: WeeklyStats,
    asked_back: Date,
    back: WeeklyStats,
)
    requires
        days_from_monday(state.current_week@) == 0,
        asked_ahead@ == state.current_week@ + 7,
        ahead.week_start@ == asked_ahead@ - days_from_monday(asked_ahead@),
        asked_back@ == showing(state, ahead).current_week@ - 7,
        back.week_start@ == asked_back@ - days_from_monday(asked_back@),
    ensures
        showing(showing(state, ahead), back).current_week == state.current_week,
        showing(showing(state, ahead), back).stats == back,
        showing(showing(state, ahead), back).scroll_offset == 0,
        showing(showing(state, ahead), back).should_exit == state.should_exit,
{
    lemma_next_then_prev_week(state.current_week@);
    crate::date::lemma_date_of_view(back.week_start);
    crate::date::lemma_date_of_view(state.current_week);
}

/// The rows that a list of `height` lines shows when `frame` of them go to
/// its frame and headers.
pub open spec fn list_rows(height: u16, frame: u16) -> int {
    if height >= frame {
        height - frame
    } else {
        0
    }
}

/// The positions, from `r.0` up to before `r.1`, of the apps that a list of
/// `height` lines (`frame` of them taken by its frame and headers) shows
/// out of `count` apps when scrolled to `scroll_offset`: from the selected
/// app on, as many as there are rows, and no further than the last app.
pub fn visible_range(count: usize, scroll_offset: usize, height: u16, frame: u16) -> (r: (usize, usize))
    ensures
        r.0 == if scroll_offset <= count {
            scroll_offset
        } else {
            count
        },
        r.1 == if list_rows(height, frame) <= count - r.0 {
            r.0 + list_rows(height, frame)
        } else {
            count as int
        },
        r.0 <= r.1 <= count,
{
    let rows: usize = height.saturating_sub(frame) as usize;
    let start = if scroll_offset <= count {
        scroll_offset
    } else {
        count
    };
    let end = if rows <= count - start {
        start + rows
    } else {
        count
    };
    (start, end)
}

/// The hash of an app name's UTF-8 bytes: starting from 0, each byte `b`
/// takes `h` to `h * 31 + b`, wrapping at 2^32.
pub open spec fn name_hash(bytes: Seq<u8>) -> nat
    decreases bytes.len(),
{
    if bytes.len() == 0 {
        0
    } else {
        ((name_hash(bytes.drop_last()) * 31 + bytes.last()) % 0x1_0000_0000) as nat
    }
}

/// The color at position `i` of the palette.
pub open spec fn palette(i: nat) -> AppColor {
    if i == 0 {
        AppColor::Red
    } else if i == 1 {
        AppColor::Green
    } else if i == 2 {
        AppColor::Yellow
    } else if i == 3 {
        AppColor::Blue
    } else if i == 4 {
        AppColor::Magenta
    } else if i == 5 {
        AppColor::Cyan
    } else if i == 6 {
        AppColor::LightRed
    } else if i == 7 {
        AppColor::LightGreen
    } else if i == 8 {
        AppColor::LightYellow
    } else if i == 9 {
        AppColor::LightBlue
    } else if i == 10 {
        AppColor::LightMagenta
    } else {
        AppColor::LightCyan
    }
}

fn palette_color(i: u32) -> (c: AppColor)
    requires
        i < 12,
    ensures
        c == palette(i as nat),
{
    if i == 0 {
        AppColor::Red
    } else if i == 1 {
        AppColor::Green
    } else if i == 2 {
        AppColor::Yellow
    } else if i == 3 {
        AppColor::Blue
    } else if i == 4 {
        AppColor::Magenta
    } else if i == 5 {
        AppColor::Cyan
    } else if i == 6 {
        AppColor::LightRed
    } else if i == 7 {
        AppColor::LightGreen
    } else if i == 8 {
        AppColor::LightYellow
    } else if i == 9 {
        AppColor::LightBlue
    } else if i == 10 {
        AppColor::LightMagenta
    } else {
        AppColor::LightCyan
    }
}

/// The color of an app: chosen by the hash of its name, the same for the
/// same name whatever its position (`_idx`) in the list.
pub fn get_app_color(app_name: &str, _idx: usize) -> (c: AppColor)
    ensures
        c == palette(name_hash(app_name.spec_bytes()) % 12),
{
    let bytes = app_name.as_bytes();
    let mut hash: u32 = 0;
    let mut i: usize = 0;
    while i < bytes.len()
        invariant
            bytes@ == app_name.spec_bytes(),
            i <= bytes@.len(),
            hash as nat == name_hash(bytes@.take(i as int)),
        decreases bytes@.len() - i,
    {
        assert(bytes@.take(i + 1).drop_last() =~= bytes@.take(i as int));
        let next: u64 = ((hash as u64) * 31 + (bytes[i] as u64)) % 0x1_0000_0000;
        hash = next as u32;
        i += 1;
    }
    assert(bytes@.take(i as int) =~= bytes@);
    palette_color(hash % 12)
}

} // verus!
