use task_tracker::date::MAX_YEAR;
use task_tracker::shell::{MAX_SCROLL_OFFSET, WINDOW_DAYS};
use task_tracker::{Date, ShellState, Tab};

fn day(year: i32, month: u32, day: u32) -> Date {
    Date::from_ymd(year, month, day).expect("a day that exists")
}

#[test]
fn shell_starts_at_today_on_the_calendar() {
    let today = day(2024, 5, 17);
    let shell = ShellState::new(today);
    assert_eq!(shell.selected_date(), today);
    assert_eq!(shell.scroll_offset(), 0);
    assert_eq!(shell.tab(), Tab::Calendar);
    assert!(shell.is_selected(today));
    assert!(!shell.is_selected(day(2024, 5, 18)));
}

#[test]
fn scroll_back_stops_at_today() {
    let mut shell = ShellState::new(day(2024, 5, 17));
    shell.scroll_back();
    assert_eq!(shell.scroll_offset(), 0);
    shell.scroll_forward();
    shell.scroll_forward();
    assert_eq!(shell.scroll_offset(), 2);
    shell.scroll_back();
    assert_eq!(shell.scroll_offset(), 1);
}

#[test]
fn scroll_forward_stops_at_the_last_offset() {
    assert_eq!(MAX_SCROLL_OFFSET, 27);
    let mut shell = ShellState::new(day(2024, 5, 17));
    for step in 1..=27 {
        shell.scroll_forward();
        assert_eq!(shell.scroll_offset(), step);
    }
    shell.scroll_forward();
    assert_eq!(shell.scroll_offset(), 27);
    shell.scroll_forward();
    assert_eq!(shell.scroll_offset(), 27);
}

#[test]
fn scrolling_keeps_selection_and_tab() {
    let mut shell = ShellState::new(day(2024, 5, 17));
    shell.select_tab(Tab::Unfinished);
    shell.select_date(day(2024, 5, 19));
    shell.scroll_forward();
    shell.scroll_back();
    shell.scroll_back();
    assert_eq!(shell.tab(), Tab::Unfinished);
    assert_eq!(shell.selected_date(), day(2024, 5, 19));
}

#[test]
fn select_date_and_tab() {
    let mut shell = ShellState::new(day(2024, 5, 17));
    shell.scroll_forward();
    shell.select_date(day(2024, 6, 1));
    assert_eq!(shell.selected_date(), day(2024, 6, 1));
    assert!(shell.is_selected(day(2024, 6, 1)));
    assert_eq!(shell.scroll_offset(), 1);
    assert_eq!(shell.tab(), Tab::Calendar);
    shell.select_tab(Tab::Unfinished);
    assert_eq!(shell.tab(), Tab::Unfinished);
    assert_eq!(shell.selected_date(), day(2024, 6, 1));
    assert_eq!(shell.scroll_offset(), 1);
    shell.select_tab(Tab::Calendar);
    assert_eq!(shell.tab(), Tab::Calendar);
}

#[test]
fn window_starts_at_today() {
    assert_eq!(WINDOW_DAYS, 3);
    let today = day(2024, 5, 17);
    let shell = ShellState::new(today);
    assert_eq!(
        shell.window(today),
        Some(vec![day(2024, 5, 17), day(2024, 5, 18), day(2024, 5, 19)])
    );
}

#[test]
fn window_follows_the_scroll_offset() {
    let today = day(2024, 12, 30);
    let mut shell = ShellState::new(today);
    shell.scroll_forward();
    assert_eq!(
        shell.window(today),
        Some(vec![day(2024, 12, 31), day(2025, 1, 1), day(2025, 1, 2)])
    );
    for _ in 0..40 {
        shell.scroll_forward();
    }
    assert_eq!(
        shell.window(today),
        Some(vec![day(2025, 1, 26), day(2025, 1, 27), day(2025, 1, 28)])
    );
}

#[test]
fn window_does_not_depend_on_the_selected_day() {
    let today = day(2024, 2, 27);
    let mut shell = ShellState::new(today);
    shell.select_date(day(2030, 1, 1));
    assert_eq!(
        shell.window(today),
        Some(vec![day(2024, 2, 27), day(2024, 2, 28), day(2024, 2, 29)])
    );
}

#[test]
fn window_past_the_last_day_is_none() {
    let today = day(MAX_YEAR, 12, 30);
    let shell = ShellState::new(today);
    assert_eq!(shell.window(today), None);
    let earlier = day(MAX_YEAR, 12, 29);
    assert_eq!(
        shell.window(earlier),
        Some(vec![day(MAX_YEAR, 12, 29), day(MAX_YEAR, 12, 30), day(MAX_YEAR, 12, 31)])
    );
}
