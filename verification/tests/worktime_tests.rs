use chrono::{Local, TimeZone};
use timetracking::days::{get_data_as_days, group_by_day, local_days};
use timetracking::event::{TrackingEvent, MAX_INSTANT, MIN_INSTANT};
use timetracking::settings::{Settings, Time, TimeGoal, Weekday};
use timetracking::worktime::{
    checked_add, checked_time_from_day, checked_time_from_events, checked_worked_time,
    combined_remaining, find_next, get_remaining_minutes, get_time_from_day,
    get_time_from_events, split_duration, sure_to_fit, worked_time, WorkTimeError,
    MAX_DURATION, SURE_TO_FIT,
};

const DAY: i64 = 1_617_235_200;

fn at(hour: i64, minute: i64, second: i64) -> i64 {
    DAY + hour * 3600 + minute * 60 + second
}

fn start(text: Option<&str>, at: i64) -> TrackingEvent {
    TrackingEvent::start(text.map(|t| t.to_string()), at).unwrap()
}

fn stop(text: Option<&str>, at: i64) -> TrackingEvent {
    TrackingEvent::stop(text.map(|t| t.to_string()), at).unwrap()
}

fn settings(min_daily_break: u8) -> Settings {
    Settings {
        data_file: String::new(),
        auto_insert_stop: false,
        enable_project_settings: false,
        time_goal: TimeGoal {
            daily: Time { hours: 8, minutes: 0 },
            weekly: Time { hours: 40, minutes: 30 },
        },
        min_daily_break,
        last_day_of_work_week: Weekday::Fri,
    }
}

#[test]
fn a_long_break_is_not_deducted() {
    let day = vec![
        start(Some("work"), at(9, 0, 0)),
        stop(None, at(12, 0, 0)),
        start(None, at(13, 0, 0)),
        stop(None, at(17, 30, 0)),
    ];
    let now = at(18, 0, 0);
    let time = checked_time_from_day(&settings(30), &day, true, now);
    assert_eq!(time, Some(7 * 3600 + 30 * 60));
    assert_eq!(checked_worked_time(&settings(30), &[day], true, now), Some(27_000));
    assert_eq!(split_duration(27_000), (7, 30, 0));
}

#[test]
fn a_short_break_is_filled_up_to_the_minimum() {
    let day = vec![
        start(Some("work"), at(9, 0, 0)),
        stop(None, at(12, 0, 0)),
        start(None, at(12, 10, 0)),
        stop(None, at(17, 30, 0)),
    ];
    let now = at(18, 0, 0);
    let undeducted = 3 * 3600 + 5 * 3600 + 20 * 60;
    assert_eq!(checked_time_from_day(&settings(0), &day, true, now), Some(undeducted));
    assert_eq!(checked_time_from_day(&settings(30), &day, true, now), Some(undeducted - 20 * 60));
    assert_eq!(checked_time_from_day(&settings(10), &day, true, now), Some(undeducted));
    assert_eq!(checked_time_from_day(&settings(11), &day, true, now), Some(undeducted - 60));
}

#[test]
fn a_lone_start_counts_up_to_now() {
    let day = vec![start(None, at(9, 0, 20))];
    let now = at(10, 30, 50);
    assert_eq!(checked_time_from_day(&settings(30), &day, true, now), Some(3600 + 30 * 60 + 30));
    assert_eq!(checked_time_from_day(&settings(30), &day, false, now), Some(3600 + 30 * 60));
    assert_eq!(checked_time_from_day(&settings(0), &day, true, now), Some(now - at(9, 0, 20)));
}

#[test]
fn a_start_after_now_counts_nothing() {
    let day = vec![start(None, at(11, 0, 0))];
    assert_eq!(checked_time_from_day(&settings(30), &day, true, at(10, 0, 0)), Some(0));
}

#[test]
fn a_longer_minimum_break_never_deducts_less() {
    let day = vec![
        start(None, at(9, 0, 0)),
        stop(None, at(12, 0, 0)),
        start(None, at(12, 5, 0)),
        stop(None, at(13, 0, 0)),
    ];
    let now = at(14, 0, 0);
    let undeducted = checked_time_from_day(&settings(0), &day, true, now).unwrap();
    let mut before = 0;
    for min_break in 6..=255u8 {
        let time = checked_time_from_day(&settings(min_break), &day, true, now).unwrap();
        let deducted = undeducted - time;
        assert!(time >= 0);
        assert!(deducted >= before);
        if i64::from(min_break) * 60 - 300 <= undeducted {
            assert_eq!(deducted, i64::from(min_break) * 60 - 300);
        }
        before = deducted;
    }
}

#[test]
fn worked_time_never_falls_below_nothing() {
    let day = vec![
        start(None, at(9, 0, 0)),
        stop(None, at(9, 1, 0)),
        start(None, at(9, 2, 0)),
        stop(None, at(9, 3, 0)),
    ];
    assert_eq!(checked_time_from_day(&settings(0), &day, true, at(10, 0, 0)), Some(120));
    assert_eq!(checked_time_from_day(&settings(2), &day, true, at(10, 0, 0)), Some(60));
    assert_eq!(checked_time_from_day(&settings(3), &day, true, at(10, 0, 0)), Some(0));
    assert_eq!(checked_time_from_day(&settings(200), &day, true, at(10, 0, 0)), Some(0));
}

#[test]
fn seconds_are_dropped_before_the_arithmetic() {
    let day = vec![start(None, at(9, 0, 59)), stop(None, at(9, 2, 1))];
    assert_eq!(checked_time_from_day(&settings(0), &day, true, at(10, 0, 0)), Some(62));
    assert_eq!(checked_time_from_day(&settings(0), &day, false, at(10, 0, 0)), Some(120));
}

#[test]
fn pairing_takes_the_next_start_then_the_next_stop() {
    let day = vec![
        stop(None, at(8, 0, 0)),
        start(None, at(9, 0, 0)),
        start(None, at(9, 30, 0)),
        stop(None, at(10, 0, 0)),
        stop(None, at(10, 30, 0)),
        start(None, at(11, 0, 0)),
        stop(None, at(11, 15, 0)),
    ];
    assert_eq!(find_next(&day, 0, true), 1);
    assert_eq!(find_next(&day, 2, false), 3);
    assert_eq!(find_next(&day, 4, true), 5);
    assert_eq!(find_next(&day, 7, true), 7);
    assert_eq!(find_next(&day, 6, true), 7);
    let time = checked_time_from_day(&settings(0), &day, true, at(12, 0, 0));
    assert_eq!(time, Some(3600 + 15 * 60));
}

#[test]
fn an_empty_day_and_a_day_of_stops_count_nothing() {
    assert_eq!(checked_time_from_day(&settings(30), &[], true, at(12, 0, 0)), Some(0));
    let stops = vec![stop(None, at(8, 0, 0)), stop(None, at(9, 0, 0))];
    assert_eq!(checked_time_from_day(&settings(30), &stops, true, at(12, 0, 0)), Some(0));
}

#[test]
fn days_are_added_up() {
    let monday = vec![start(None, at(9, 0, 0)), stop(None, at(10, 0, 0))];
    let tuesday = vec![start(None, at(33, 0, 0)), stop(None, at(35, 30, 0))];
    let open = vec![start(None, at(57, 0, 0))];
    let now = at(57, 45, 0);
    let time = checked_worked_time(&settings(30), &[monday, tuesday, open], true, now);
    assert_eq!(time, Some(3600 + 2 * 3600 + 30 * 60 + 45 * 60));
    assert_eq!(checked_worked_time(&settings(30), &[], true, now), Some(0));
}

#[test]
fn the_break_rule_applies_to_each_day_alone() {
    let first = vec![
        start(None, at(9, 0, 0)),
        stop(None, at(10, 0, 0)),
        start(None, at(10, 10, 0)),
        stop(None, at(11, 0, 0)),
    ];
    let second = vec![start(None, at(33, 0, 0)), stop(None, at(34, 0, 0))];
    let now = at(40, 0, 0);
    let time = checked_worked_time(&settings(30), &[first, second], true, now);
    assert_eq!(time, Some((3600 + 50 * 60 - 20 * 60) + 3600));
}

#[test]
fn sums_beyond_the_longest_span_overflow() {
    let mut day = Vec::new();
    for _ in 0..600 {
        day.push(start(None, MIN_INSTANT));
        day.push(stop(None, MAX_INSTANT));
    }
    assert_eq!(checked_time_from_day(&settings(0), &day, true, 0), None);
    assert_eq!(checked_worked_time(&settings(0), &[day.clone()], true, 0), None);

    let mut fits = Vec::new();
    for _ in 0..500 {
        fits.push(start(None, MIN_INSTANT));
        fits.push(stop(None, MAX_INSTANT));
    }
    let each = checked_time_from_day(&settings(0), &fits, true, 0).unwrap();
    assert_eq!(each, 500 * (MAX_INSTANT - MIN_INSTANT));
    assert_eq!(checked_worked_time(&settings(0), &[fits.clone(), fits], true, 0), None);
}

#[test]
fn checked_addition_stops_at_the_longest_span() {
    assert_eq!(checked_add(1, 2), Some(3));
    assert_eq!(checked_add(MAX_DURATION, 0), Some(MAX_DURATION));
    assert_eq!(checked_add(MAX_DURATION, 1), None);
    assert_eq!(checked_add(-MAX_DURATION, -1), None);
    assert_eq!(checked_add(-MAX_DURATION, 0), Some(-MAX_DURATION));
    assert_eq!(checked_add(i64::MAX, i64::MAX), None);
    assert_eq!(checked_add(i64::MIN, i64::MIN), None);
    assert_eq!(MAX_DURATION, i64::MAX / 1000);
}

#[test]
fn the_longest_span_is_that_of_the_calendar() {
    assert_eq!(chrono::Duration::MAX.num_seconds(), MAX_DURATION);
    let most = chrono::Duration::seconds(MAX_DURATION);
    assert!(most.checked_add(&chrono::Duration::seconds(1)).is_none());
    assert!(most.checked_add(&chrono::Duration::seconds(0)).is_some());
}

#[test]
fn durations_are_split_as_the_calendar_splits_them() {
    assert_eq!(split_duration(0), (0, 0, 0));
    assert_eq!(split_duration(59), (0, 0, 59));
    assert_eq!(split_duration(3661), (1, 1, 1));
    assert_eq!(split_duration(86_399), (23, 59, 59));
    assert_eq!(split_duration(360_000), (100, 0, 0));
    assert_eq!(split_duration(-3661), (-1, -1, -1));
    assert_eq!(split_duration(-59), (0, 0, -59));
    for seconds in [0i64, 1, 59, 60, 3599, 3600, 27_000, 123_456, -1, -61, -3601, -123_456] {
        let span = chrono::Duration::seconds(seconds);
        let hours = span.num_hours();
        let minutes = span.num_minutes() - hours * 60;
        let rest = span.num_seconds() - hours * 3600 - minutes * 60;
        assert_eq!(split_duration(seconds), (hours, minutes, rest));
    }
}

#[test]
fn remaining_minutes_are_goal_less_work() {
    let s = settings(30);
    assert_eq!(get_remaining_minutes(&s, "", 7, 30), 30);
    assert_eq!(get_remaining_minutes(&s, "anything", 0, 0), 480);
    assert_eq!(get_remaining_minutes(&s, "", 9, 15), -75);
    assert_eq!(get_remaining_minutes(&s, "week", 7, 30), 40 * 60 + 30 - 450);
    assert_eq!(get_remaining_minutes(&s, "week", 40, 30), 0);
    assert_eq!(get_remaining_minutes(&s, "Week", 0, 0), 480);
}

#[test]
fn the_lesser_remainder_is_shown_except_on_the_last_day() {
    let s = settings(30);
    assert_eq!(combined_remaining(&s, 120, 300, Weekday::Mon), 120);
    assert_eq!(combined_remaining(&s, 300, 120, Weekday::Mon), 120);
    assert_eq!(combined_remaining(&s, 120, 300, Weekday::Fri), 300);
    assert_eq!(combined_remaining(&s, 300, 120, Weekday::Fri), 120);
    assert_eq!(combined_remaining(&s, -5, 300, Weekday::Tue), 0);
    assert_eq!(combined_remaining(&s, 20, -300, Weekday::Tue), 0);
    assert_eq!(combined_remaining(&s, 20, -300, Weekday::Fri), 0);
    assert_eq!(combined_remaining(&s, 0, 0, Weekday::Sun), 0);
}

#[test]
fn a_log_is_cut_where_the_day_changes() {
    let log = vec![
        start(Some("a"), at(9, 0, 0)),
        stop(None, at(10, 0, 0)),
        start(Some("b"), at(33, 0, 0)),
        stop(None, at(34, 0, 0)),
        start(Some("c"), at(35, 0, 0)),
        start(Some("d"), at(9, 30, 0)),
    ];
    let runs = group_by_day(&log, &[7, 7, 8, 8, 8, 7]);
    assert_eq!(runs.len(), 3);
    assert!(runs[0] == log[0..2].to_vec());
    assert!(runs[1] == log[2..5].to_vec());
    assert!(runs[2] == log[5..6].to_vec());
    assert!(group_by_day(&[], &[]).is_empty());
    let single = group_by_day(&log[0..1], &[0]);
    assert_eq!(single.len(), 1);
    assert!(single[0] == log[0..1].to_vec());
}

#[test]
fn day_runs_follow_the_local_calendar() {
    let noon = Local.with_ymd_and_hms(2021, 4, 1, 12, 0, 0).unwrap().timestamp();
    let late = Local.with_ymd_and_hms(2021, 4, 1, 23, 59, 59).unwrap().timestamp();
    let next = Local.with_ymd_and_hms(2021, 4, 2, 0, 0, 0).unwrap().timestamp();
    let log = vec![
        start(None, noon),
        stop(None, late),
        start(None, next),
        stop(None, next + 60),
    ];
    let days = local_days(&log);
    assert_eq!(days.len(), 4);
    assert_eq!(days[0], days[1]);
    assert_eq!(days[1] + 1, days[2]);
    assert_eq!(days[2], days[3]);
    let runs = get_data_as_days(&log);
    assert_eq!(runs.len(), 2);
    assert!(runs[0] == log[0..2].to_vec());
    assert!(runs[1] == log[2..4].to_vec());
    assert!(get_data_as_days(&[]).is_empty());
}

#[test]
fn the_worked_time_of_a_closed_log_does_not_depend_on_now() {
    let noon = Local.with_ymd_and_hms(2021, 4, 1, 12, 0, 0).unwrap().timestamp();
    let log = vec![
        start(None, noon),
        stop(None, noon + 3600),
        start(None, noon + 2 * 3600),
        stop(None, noon + 3 * 3600 + 30),
    ];
    assert_eq!(checked_time_from_events(&settings(30), &log, true), Ok(3600 + 3630));
    assert_eq!(checked_time_from_events(&settings(30), &log, false), Ok(3600 + 3600));
    assert_eq!(checked_time_from_events(&settings(30), &[], true), Ok(0));
}

#[test]
fn an_overflow_is_reported() {
    let mut log = Vec::new();
    for _ in 0..1200 {
        log.push(start(None, MIN_INSTANT));
        log.push(stop(None, MAX_INSTANT));
    }
    assert_eq!(get_data_as_days(&log).len(), 2400);
    assert_eq!(
        checked_time_from_events(&settings(0), &log, true),
        Err(WorkTimeError::Overflow)
    );
    assert!(checked_time_from_events(&settings(0), &log[0..2000], true).is_ok());
}

#[test]
fn events_of_one_instant_never_overflow() {
    let mut same_day = Vec::new();
    for _ in 0..1200 {
        same_day.push(start(None, 100));
        same_day.push(stop(None, 100));
    }
    assert_eq!(checked_time_from_events(&settings(0), &same_day, true), Ok(0));
}

#[test]
fn a_day_within_the_longest_span_is_told_outright() {
    let day = vec![
        start(Some("work"), at(9, 0, 0)),
        stop(None, at(12, 0, 0)),
        start(None, at(13, 0, 0)),
        stop(None, at(17, 30, 0)),
    ];
    let now = at(18, 0, 0);
    assert_eq!(get_time_from_day(&settings(30), &day, true, now), 27_000);
    assert_eq!(worked_time(&settings(30), &[day.clone(), day.clone()], true, now), 54_000);
    assert_eq!(worked_time(&settings(30), &[], true, now), 0);
    assert_eq!(get_time_from_day(&settings(30), &[], false, now), 0);

    let short_break = vec![
        start(None, at(9, 0, 0)),
        stop(None, at(12, 0, 0)),
        start(None, at(12, 10, 0)),
        stop(None, at(17, 30, 0)),
    ];
    assert_eq!(get_time_from_day(&settings(30), &short_break, true, now), 28_800);
    let open = vec![start(None, at(17, 0, 0))];
    assert_eq!(get_time_from_day(&settings(30), &open, true, now), 3_600);
}

#[test]
fn the_plain_forms_agree_with_the_checked_ones() {
    let day = vec![
        start(None, at(9, 0, 7)),
        stop(None, at(9, 40, 0)),
        start(None, at(9, 45, 0)),
        stop(None, at(11, 0, 30)),
        start(None, at(11, 5, 0)),
    ];
    let now = at(11, 30, 0);
    for min_break in [0u8, 5, 10, 11, 30] {
        for seconds in [true, false] {
            let s = settings(min_break);
            assert_eq!(
                Some(get_time_from_day(&s, &day, seconds, now)),
                checked_time_from_day(&s, &day, seconds, now)
            );
            assert_eq!(
                Some(worked_time(&s, &[day.clone(), day.clone()], seconds, now)),
                checked_worked_time(&s, &[day.clone(), day.clone()], seconds, now)
            );
        }
    }
}

#[test]
fn a_log_within_the_longest_span_is_told_outright() {
    let noon = Local.with_ymd_and_hms(2021, 4, 1, 12, 0, 0).unwrap().timestamp();
    let log = vec![
        start(None, noon),
        stop(None, noon + 3600),
        start(None, noon + 2 * 3600),
        stop(None, noon + 3 * 3600 + 30),
    ];
    assert_eq!(get_time_from_events(&settings(30), &log, true), Some(3600 + 3630));
    assert_eq!(get_time_from_events(&settings(30), &log, false), Some(3600 + 3600));
    assert_eq!(get_time_from_events(&settings(30), &[], true), Some(0));
}

#[test]
fn short_logs_are_sure_to_fit() {
    assert!(sure_to_fit(&[]));
    let mut log = Vec::new();
    for _ in 0..SURE_TO_FIT / 2 {
        log.push(start(None, MIN_INSTANT));
        log.push(stop(None, MAX_INSTANT));
    }
    assert_eq!(log.len(), SURE_TO_FIT);
    assert!(sure_to_fit(&log));
    assert!(checked_time_from_day(&settings(0), &log, true, 0).is_some());
    assert_eq!(
        get_time_from_day(&settings(0), &log, true, 0),
        (SURE_TO_FIT as i64 / 2) * (MAX_INSTANT - MIN_INSTANT)
    );
    assert_eq!(
        get_time_from_day(&settings(0), &log, false, 0),
        (SURE_TO_FIT as i64 / 2) * (MAX_INSTANT - MIN_INSTANT - 20)
    );
    assert!(checked_time_from_events(&settings(0), &log, true).is_ok());
    assert!(get_time_from_events(&settings(0), &log, true).is_some());
    log.push(start(None, 0));
    assert!(!sure_to_fit(&log));
}
