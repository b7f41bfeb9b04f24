use screenhistory::date::Date;
use screenhistory::tui::{
    get_app_color, hours_label, short_name, visible_range, AppColor, Key, TuiAction,
    VisualizerState,
};
use screenhistory::viz::WeeklyStats;

fn monday() -> Date {
    // 2026-03-30
    Date::from_julian_day(2_461_130).unwrap()
}

fn state_with_apps(n: usize) -> VisualizerState {
    let mut stats = WeeklyStats::new(monday());
    for i in 0..n {
        stats.add_usage(format!("app{i:02}"), monday(), 60);
    }
    VisualizerState::new(stats)
}

#[test]
fn scrolling_stays_in_the_list() {
    let mut s = state_with_apps(3);
    s.handle_input(Key::Up);
    assert_eq!(s.scroll_offset, 0);
    s.handle_input(Key::Down);
    s.handle_input(Key::Down);
    s.handle_input(Key::Down);
    assert_eq!(s.scroll_offset, 2);
    s.handle_input(Key::PageUp);
    assert_eq!(s.scroll_offset, 0);
    s.handle_input(Key::PageDown);
    assert_eq!(s.scroll_offset, 2);
    let mut big = state_with_apps(12);
    big.handle_input(Key::PageDown);
    assert_eq!(big.scroll_offset, 5);
    big.handle_input(Key::PageDown);
    big.handle_input(Key::PageDown);
    assert_eq!(big.scroll_offset, 11);
    let mut empty = state_with_apps(0);
    empty.handle_input(Key::Down);
    empty.handle_input(Key::PageDown);
    assert_eq!(empty.scroll_offset, 0);
}

#[test]
fn quitting_and_week_navigation() {
    let mut s = state_with_apps(2);
    assert_eq!(s.on_key(Key::Char('x')), TuiAction::Continue);
    assert!(!s.should_exit);
    let prev = s.on_key(Key::Left);
    assert_eq!(prev, TuiAction::LoadWeek(monday().checked_add_days(-7).unwrap()));
    let next = s.on_key(Key::Right);
    assert_eq!(next, TuiAction::LoadWeek(monday().checked_add_days(7).unwrap()));
    s.show_week(WeeklyStats::new(monday().checked_add_days(7).unwrap()));
    assert_eq!(s.current_week, monday().checked_add_days(7).unwrap());
    assert_eq!(s.scroll_offset, 0);
    assert_eq!(s.on_key(Key::Esc), TuiAction::Exit);
    let mut q = state_with_apps(1);
    assert_eq!(q.on_key(Key::Char('q')), TuiAction::Exit);
}

#[test]
fn week_rows_and_labels() {
    let mut stats = WeeklyStats::new(monday());
    stats.add_usage("Safari".to_string(), monday().checked_add_days(2).unwrap(), 7_300);
    let s = VisualizerState::new(stats);
    assert_eq!(s.week_usage_row("Safari"), vec![0, 0, 7_300, 0, 0, 0, 0]);
    assert_eq!(hours_label(7_300), "2h");
    assert_eq!(hours_label(0), "0h");
}

#[test]
fn short_names() {
    assert_eq!(short_name("Safari", 12, 9), "Safari");
    assert_eq!(short_name("com.apple.Safari", 12, 9), "com.apple...");
    assert_eq!(short_name("com.apple.Safari", 10, 7), "com.app...");
    assert_eq!(short_name("exactly12chr", 12, 9), "exactly12chr");
}

fn name_hash_color_index(app_name: &str) -> usize {
    let hash = app_name
        .bytes()
        .fold(0u32, |acc, b| acc.wrapping_mul(31).wrapping_add(b as u32));
    (hash as usize) % 12
}

#[test]
fn app_colors_follow_the_name_hash() {
    let palette = [
        AppColor::Red,
        AppColor::Green,
        AppColor::Yellow,
        AppColor::Blue,
        AppColor::Magenta,
        AppColor::Cyan,
        AppColor::LightRed,
        AppColor::LightGreen,
        AppColor::LightYellow,
        AppColor::LightBlue,
        AppColor::LightMagenta,
        AppColor::LightCyan,
    ];
    for name in ["", "Safari", "com.apple.mobilesafari", "Äpfel", "a very long application name indeed"] {
        assert_eq!(get_app_color(name, 0), palette[name_hash_color_index(name)]);
        assert_eq!(get_app_color(name, 0), get_app_color(name, 7));
    }
}

#[test]
fn visible_rows_follow_the_selection() {
    // 10 apps, a list of 7 lines with 2 for its frame: 5 rows from the selection.
    assert_eq!(visible_range(10, 3, 7, 2), (3, 8));
    // Near the end, only the apps that are left.
    assert_eq!(visible_range(10, 8, 7, 2), (8, 10));
    // A list too small for any row.
    assert_eq!(visible_range(10, 3, 1, 2), (3, 3));
    // An offset past the list shows nothing.
    assert_eq!(visible_range(2, 5, 20, 4), (2, 2));
}

#[test]
fn forward_then_back_returns_to_the_week() {
    let mut s = state_with_apps(1);
    let next = match s.on_key(Key::Right) {
        TuiAction::LoadWeek(d) => d,
        other => panic!("unexpected {other:?}"),
    };
    s.show_week(WeeklyStats::new(screenhistory::date::week_start_date(next)));
    let back = match s.on_key(Key::Left) {
        TuiAction::LoadWeek(d) => d,
        other => panic!("unexpected {other:?}"),
    };
    s.show_week(WeeklyStats::new(screenhistory::date::week_start_date(back)));
    assert_eq!(s.current_week, monday());
    assert_eq!(s.scroll_offset, 0);
}
