use chrono::{Local, TimeZone};
use timetracking::event::TrackingEvent;
use timetracking::event::{MAX_INSTANT, MIN_INSTANT};
use timetracking::report::{
    can_show_remaining, clock_time, conflict_lines, date_words, get_human_readable, render_time,
    show, show_line, status_lines, status_lines_at, to_human_readable, ShowError,
};
use timetracking::worktime::WorkTimeError;
use timetracking::settings::{Settings, Time, TimeGoal, Weekday};
use timetracking::track::Status;
use timetracking::window::{local_today, weekday_of, ResolveError};

fn some(text: &str) -> Option<String> {
    Some(text.to_string())
}

fn start(text: Option<&str>, at: i64) -> TrackingEvent {
    TrackingEvent::start(text.map(|t| t.to_string()), at).unwrap()
}

fn stop(text: Option<&str>, at: i64) -> TrackingEvent {
    TrackingEvent::stop(text.map(|t| t.to_string()), at).unwrap()
}

fn wall(year: i32, month: u32, day: u32, hour: u32, minute: u32, second: u32) -> i64 {
    chrono::NaiveDate::from_ymd_opt(year, month, day)
        .unwrap()
        .and_hms_opt(hour, minute, second)
        .unwrap()
        .and_utc()
        .timestamp()
}

fn local(year: i32, month: u32, day: u32, hour: u32, minute: u32, second: u32) -> i64 {
    Local.with_ymd_and_hms(year, month, day, hour, minute, second).unwrap().timestamp()
}

fn settings(daily: Time, weekly: Time, last: Weekday) -> Settings {
    Settings {
        data_file: String::new(),
        auto_insert_stop: false,
        enable_project_settings: false,
        time_goal: TimeGoal { daily, weekly },
        min_daily_break: 0,
        last_day_of_work_week: last,
    }
}

#[test]
fn an_event_is_told_in_words() {
    let line = to_human_readable("Start", wall(2021, 4, 1, 9, 5, 7), &some("work"));
    assert_eq!(line, "Start at 2021-04-01 09:05:07 \"work\"");
    let line = to_human_readable("Stop ", wall(1999, 12, 31, 23, 59, 59), &None);
    assert_eq!(line, "Stop  at 1999-12-31 23:59:59");
    let line = to_human_readable("", wall(1970, 1, 1, 0, 0, 0), &some(""));
    assert_eq!(line, " at 1970-01-01 00:00:00 \"\"");
    let line = to_human_readable("Start", wall(987, 6, 5, 4, 3, 2), &None);
    assert_eq!(line, "Start at 0987-06-05 04:03:02");
    let line = to_human_readable("Start", wall(12_345, 1, 2, 3, 4, 5), &None);
    assert_eq!(line, "Start at 12345-01-02 03:04:05");
    let line = to_human_readable("Start", wall(-5, 1, 2, 3, 4, 5), &None);
    assert_eq!(line, "Start at -005-01-02 03:04:05");
}

#[test]
fn the_time_of_day_is_written_in_two_digits_each() {
    assert_eq!(clock_time(0), "00:00:00");
    assert_eq!(clock_time(86_399), "23:59:59");
    assert_eq!(clock_time(-1), "23:59:59");
    assert_eq!(clock_time(wall(2021, 4, 1, 7, 8, 9)), "07:08:09");
}

#[test]
fn a_log_is_listed_in_local_time() {
    let log = vec![
        start(Some("work"), local(2021, 4, 1, 9, 0, 0)),
        stop(None, local(2021, 4, 1, 12, 30, 15)),
    ];
    let lines = get_human_readable(&log);
    assert_eq!(
        lines,
        vec![
            "Start at 2021-04-01 09:00:00 \"work\"".to_string(),
            "Stop  at 2021-04-01 12:30:15".to_string(),
        ]
    );
    assert!(get_human_readable(&[]).is_empty());
}

#[test]
fn a_conflict_is_listed_with_numbers_from_one() {
    let run = vec![
        start(Some("a"), local(2021, 4, 1, 9, 0, 0)),
        start(None, local(2021, 4, 1, 9, 10, 0)),
        start(Some("c"), local(2021, 4, 1, 9, 20, 0)),
    ];
    let lines = conflict_lines(&run);
    assert_eq!(
        lines,
        vec![
            "Repeated start events found:".to_string(),
            "(1) Start at 2021-04-01 09:00:00 \"a\"".to_string(),
            "(2) Start at 2021-04-01 09:10:00".to_string(),
            "(3) Start at 2021-04-01 09:20:00 \"c\"".to_string(),
        ]
    );
    let stops = vec![stop(None, local(2021, 4, 1, 9, 0, 0)), stop(None, local(2021, 4, 1, 9, 0, 1))];
    let lines = conflict_lines(&stops);
    assert_eq!(lines[0], "Repeated stop events found:");
    assert_eq!(lines[1], "(1) Stop at 2021-04-01 09:00:00");
    assert_eq!(lines[2], "(2) Stop at 2021-04-01 09:00:01");
    assert!(conflict_lines(&[]).is_empty());
}

#[test]
fn the_lines_of_a_status() {
    let running = Some(Status { active: true, description: some("work"), time: 0 });
    assert_eq!(
        status_lines_at(&running, wall(2021, 4, 1, 9, 5, 0)),
        vec![
            "Active: true".to_string(),
            "Description: work".to_string(),
            "Start Time: 09:05:00".to_string(),
        ]
    );
    let stopped = Some(Status { active: false, description: None, time: 0 });
    assert_eq!(
        status_lines_at(&stopped, wall(2021, 4, 1, 17, 30, 1)),
        vec!["Active: false".to_string(), "End Time: 17:30:01".to_string()]
    );
    assert_eq!(status_lines_at(&None, 0), vec!["No Events found!".to_string()]);
    assert_eq!(status_lines(&[]), vec!["No Events found!".to_string()]);
}

#[test]
fn a_status_is_shown_in_local_time() {
    let log = vec![start(Some("a"), local(2021, 4, 1, 8, 15, 30))];
    let lines = status_lines(&log);
    assert_eq!(
        lines,
        vec![
            "Active: true".to_string(),
            "Description: a".to_string(),
            "Start Time: 08:15:30".to_string(),
        ]
    );
}

#[test]
fn templates_are_filled_in() {
    assert_eq!(render_time("{hh}:{mm}:{ss}", 7, 30, 0), "07:30:00");
    assert_eq!(render_time("{h}h {m}m {s}s", 7, 5, 9), "7h 5m 9s");
    assert_eq!(render_time("{hh}{hh} {h}{mm}", 3, 4, 5), "0303 304");
    assert_eq!(render_time("{hh}:{mm}", 123, 4, 5), "123:04");
    assert_eq!(render_time("no placeholders", 1, 2, 3), "no placeholders");
    assert_eq!(render_time("{H} {hhh} {{h}}", 1, 2, 3), "{H} {hhh} {1}");
    assert_eq!(render_time("", 1, 2, 3), "");
    assert_eq!(render_time("{hh}:{mm}:{ss}", -1, -2, -3), "-1:-2:-3");
    assert_eq!(render_time("{h}", 0, 0, 0), "0");
}

#[test]
fn replaced_numbers_are_not_replaced_again() {
    assert_eq!(render_time("{{hh}}", 1, 2, 3), "{01}");
    assert_eq!(render_time("{h{hh}}", 1, 2, 3), "{h01}");
}

#[test]
fn worked_time_is_shown_with_a_label() {
    assert_eq!(show_line(&None, false, true, 27_000, None), "Work Time: 07:30:00");
    assert_eq!(show_line(&None, true, true, 27_000, None), "07:30:00");
    assert_eq!(show_line(&None, false, true, 3_725, None), "Work Time: 01:02:05");
    assert_eq!(show_line(&None, false, false, 3_725, None), "Work Time: 01:02:00");
    assert_eq!(show_line(&some("{h}:{mm}"), true, true, 3_725, None), "1:02");
    assert_eq!(show_line(&some("{s}"), true, false, 3_725, None), "0");
}

#[test]
fn remaining_time_is_shown_in_hours_and_minutes() {
    assert_eq!(show_line(&None, false, true, 27_000, Some(30)), "Remaining Work Time: 00:30:00");
    assert_eq!(show_line(&None, false, true, 27_059, Some(135)), "Remaining Work Time: 02:15:00");
    assert_eq!(show_line(&None, true, true, 0, Some(0)), "00:00:00");
    assert_eq!(show_line(&some("{h}h{m}"), true, false, 0, Some(61)), "1h1");
}

#[test]
fn show_measures_a_closed_day() {
    let log = vec![
        start(Some("work"), local(2021, 4, 1, 9, 0, 0)),
        stop(None, local(2021, 4, 1, 12, 0, 0)),
        start(None, local(2021, 4, 1, 13, 0, 0)),
        stop(None, local(2021, 4, 1, 17, 30, 20)),
    ];
    let s = settings(Time { hours: 8, minutes: 0 }, Time { hours: 40, minutes: 0 }, Weekday::Fri);
    let day = some("2021-04-01");
    let shown = show(&s, &log, &day, &None, &None, &None, true, false, false);
    assert_eq!(shown, Ok(Some("Work Time: 07:30:20".to_string())));
    let shown = show(&s, &log, &day, &None, &None, &None, false, true, false);
    assert_eq!(shown, Ok(Some("07:30:00".to_string())));
    let shown = show(&s, &log, &day, &None, &some("idle"), &some("{h}"), true, true, false);
    assert_eq!(shown, Ok(Some("0".to_string())));
    let shown = show(&s, &log, &None, &None, &some("all"), &some("{h}.{m}.{s}"), true, true, false);
    assert_eq!(shown, Ok(Some("7.30.20".to_string())));
}

#[test]
fn remaining_time_needs_a_query_without_bounds_or_keyword() {
    let s = settings(Time { hours: 8, minutes: 0 }, Time { hours: 40, minutes: 0 }, Weekday::Fri);
    let log = vec![start(None, local(2021, 4, 1, 9, 0, 0)), stop(None, local(2021, 4, 1, 10, 0, 0))];
    let day = some("2021-04-01");
    assert_eq!(show(&s, &log, &day, &None, &None, &None, true, false, true), Ok(None));
    assert_eq!(show(&s, &log, &None, &day, &None, &None, true, false, true), Ok(None));
    assert_eq!(show(&s, &log, &None, &None, &some("all"), &None, true, false, true), Ok(None));
    assert_eq!(show(&s, &log, &None, &None, &some("work"), &None, true, false, true), Ok(None));
}

#[test]
fn remaining_time_of_past_work_is_the_whole_goal() {
    let s = settings(Time { hours: 8, minutes: 15 }, Time { hours: 40, minutes: 45 }, Weekday::Fri);
    let log = vec![start(None, local(2001, 4, 1, 9, 0, 0)), stop(None, local(2001, 4, 1, 10, 0, 0))];
    let week = show(&s, &log, &None, &None, &some("week"), &None, true, false, true);
    assert_eq!(week, Ok(Some("Remaining Work Time: 40:45:00".to_string())));
    let none = show(&s, &log, &None, &None, &None, &None, true, true, true).unwrap().unwrap();
    if weekday_of(local_today().unwrap()) == Weekday::Fri {
        assert_eq!(none, "40:45:00");
    } else {
        assert_eq!(none, "08:15:00");
    }
    let empty = show(&s, &log, &None, &None, &some(""), &None, true, true, true).unwrap();
    assert_eq!(empty, Some(none));
}

#[test]
fn the_last_day_of_the_work_week_shows_the_week() {
    let today = weekday_of(local_today().unwrap());
    let s = settings(Time { hours: 1, minutes: 0 }, Time { hours: 5, minutes: 0 }, today);
    let shown = show(&s, &[], &None, &None, &None, &None, true, true, true);
    assert_eq!(shown, Ok(Some("05:00:00".to_string())));
    let s = settings(Time { hours: 9, minutes: 0 }, Time { hours: 5, minutes: 0 }, today);
    let shown = show(&s, &[], &None, &None, &None, &None, true, true, true);
    assert_eq!(shown, Ok(Some("05:00:00".to_string())));
}

#[test]
fn a_query_that_cannot_be_resolved_is_an_error() {
    let s = settings(Time::default(), Time::default(), Weekday::Fri);
    let shown = show(&s, &[], &some("then"), &None, &None, &None, true, false, false);
    assert_eq!(shown, Err(ShowError::Resolve(ResolveError::Parse)));
}

#[test]
fn an_overflow_of_worked_time_is_an_error() {
    let s = settings(Time::default(), Time::default(), Weekday::Fri);
    let mut log = Vec::new();
    for _ in 0..1200 {
        log.push(start(None, MIN_INSTANT));
        log.push(stop(None, MAX_INSTANT));
    }
    let shown = show(&s, &log, &None, &None, &some("all"), &None, true, false, false);
    assert_eq!(shown, Err(ShowError::WorkTime(WorkTimeError::Overflow)));
}

#[test]
fn remaining_time_applies_to_the_week_and_to_no_filter() {
    assert!(can_show_remaining(&None, &None, &None));
    assert!(can_show_remaining(&None, &None, &some("")));
    assert!(can_show_remaining(&None, &None, &some("week")));
    assert!(!can_show_remaining(&None, &None, &some("all")));
    assert!(!can_show_remaining(&None, &None, &some("weekly")));
    assert!(!can_show_remaining(&some("10"), &None, &None));
    assert!(!can_show_remaining(&None, &some("2021-04-01"), &some("week")));
}

#[test]
fn today_has_a_weekday() {
    let day = weekday_of(local_today().unwrap());
    let expected = chrono::Datelike::weekday(&Local::now().date_naive()).num_days_from_monday();
    assert_eq!(day.days_from_monday(), expected);
}

#[test]
fn dates_are_written_with_dashes() {
    assert_eq!(date_words(wall(2021, 4, 1, 9, 5, 7)), "2021-04-01");
    assert_eq!(date_words(0), "1970-01-01");
    assert_eq!(date_words(-1), "1969-12-31");
    assert_eq!(date_words(wall(2024, 2, 29, 23, 59, 59)), "2024-02-29");
}

#[test]
fn a_query_with_nothing_to_measure_shows_no_time() {
    let s = settings(Time { hours: 8, minutes: 15 }, Time { hours: 40, minutes: 45 }, Weekday::Fri);
    let shown = show(&s, &[], &None, &None, &None, &None, true, false, false);
    assert_eq!(shown, Ok(Some("Work Time: 00:00:00".to_string())));
    let shown = show(&s, &[], &None, &None, &some("week"), &some("{h}:{m}"), true, true, false);
    assert_eq!(shown, Ok(Some("0:0".to_string())));
    let stops = vec![stop(None, local(2021, 4, 1, 9, 0, 0)), stop(None, local(2021, 4, 1, 10, 0, 0))];
    let shown = show(&s, &stops, &None, &some("2021-04-01"), &some("all"), &None, false, false, false);
    assert_eq!(shown, Ok(Some("Work Time: 00:00:00".to_string())));
}

#[test]
fn an_empty_week_leaves_the_whole_weekly_goal() {
    let s = settings(Time { hours: 8, minutes: 15 }, Time { hours: 40, minutes: 45 }, Weekday::Fri);
    let shown = show(&s, &[], &None, &None, &some("week"), &None, true, false, true);
    assert_eq!(shown, Ok(Some("Remaining Work Time: 40:45:00".to_string())));
    let shown = show(&s, &[], &None, &None, &some("week"), &some("{h}h"), false, true, true);
    assert_eq!(shown, Ok(Some("40h".to_string())));
}

#[test]
fn nothing_is_shown_where_remaining_time_does_not_apply() {
    let s = settings(Time { hours: 8, minutes: 0 }, Time { hours: 40, minutes: 0 }, Weekday::Fri);
    let day = some("2021-04-01");
    assert_eq!(show(&s, &[], &day, &None, &None, &None, true, false, true), Ok(None));
    assert_eq!(show(&s, &[], &None, &None, &some("all"), &None, true, false, true), Ok(None));
    let shown = show(&s, &[], &some("garbage"), &None, &None, &None, true, false, true);
    assert_eq!(shown, Err(ShowError::Resolve(ResolveError::Parse)));
}
