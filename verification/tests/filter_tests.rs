use chrono::{Local, NaiveDate, TimeZone};
use timetracking::event::TrackingEvent;
use timetracking::filter::{asks_for_all, event_passes, filter_events, select_events};
use timetracking::window::ResolveError;

const DAY: i64 = 1_617_235_200;

fn some(text: &str) -> Option<String> {
    Some(text.to_string())
}

fn start(text: Option<&str>, at: i64) -> TrackingEvent {
    TrackingEvent::start(text.map(|t| t.to_string()), at).unwrap()
}

fn stop(text: Option<&str>, at: i64) -> TrackingEvent {
    TrackingEvent::stop(text.map(|t| t.to_string()), at).unwrap()
}

fn sample() -> Vec<TrackingEvent> {
    vec![
        start(Some("work"), DAY + 9 * 3600),
        stop(None, DAY + 12 * 3600),
        start(Some("team meeting"), DAY + 13 * 3600),
        stop(Some("meeting over"), DAY + 14 * 3600),
        start(None, DAY + 15 * 3600),
        stop(None, DAY + 17 * 3600),
    ]
}

#[test]
fn keyword_all_returns_every_event_whatever_the_bounds() {
    let log = sample();
    let inside = select_events(&log, Some(DAY), Some(DAY + 86_399), &some("all"));
    assert!(inside == log);
    let outside = select_events(&log, Some(DAY + 500_000), Some(DAY + 600_000), &some("all"));
    assert!(outside == log);
    let crossed = select_events(&log, Some(i64::MAX), Some(i64::MIN), &some("all"));
    assert!(crossed == log);
    let open = select_events(&log, None, None, &some("all"));
    assert!(open == log);
}

#[test]
fn keyword_all_still_drops_leading_stops() {
    let log = vec![stop(None, DAY), stop(Some("x"), DAY + 1), start(None, DAY + 2), stop(None, DAY + 3)];
    let found = select_events(&log, Some(0), Some(1), &some("all"));
    assert!(found == vec![start(None, DAY + 2), stop(None, DAY + 3)]);
}

#[test]
fn output_never_begins_with_a_stop() {
    let log = vec![
        stop(None, DAY + 1),
        stop(None, DAY + 2),
        start(Some("a"), DAY + 3),
        stop(None, DAY + 4),
    ];
    let found = select_events(&log, None, None, &None);
    assert_eq!(found.len(), 2);
    assert!(found[0].is_start());
    assert!(found == vec![start(Some("a"), DAY + 3), stop(None, DAY + 4)]);

    let only_stops = vec![stop(None, DAY + 1), stop(None, DAY + 2)];
    assert!(select_events(&only_stops, None, None, &None).is_empty());
}

#[test]
fn a_start_outside_the_window_leaves_its_stop_leading_and_dropped() {
    let log = sample();
    let found = select_events(&log, Some(DAY + 10 * 3600), Some(DAY + 14 * 3600), &None);
    assert!(
        found == vec![
            start(Some("team meeting"), DAY + 13 * 3600),
            stop(Some("meeting over"), DAY + 14 * 3600),
        ]
    );
}

#[test]
fn window_bounds_are_inclusive() {
    let log = sample();
    let found = select_events(&log, Some(DAY + 9 * 3600), Some(DAY + 12 * 3600), &None);
    assert!(found == vec![start(Some("work"), DAY + 9 * 3600), stop(None, DAY + 12 * 3600)]);
    let late = select_events(&log, Some(DAY + 9 * 3600 + 1), Some(DAY + 12 * 3600 - 1), &None);
    assert!(late.is_empty());
}

#[test]
fn only_events_that_describe_a_meeting_survive() {
    let log = sample();
    let found = select_events(&log, None, None, &some("meeting"));
    assert!(
        found == vec![
            start(Some("team meeting"), DAY + 13 * 3600),
            stop(Some("meeting over"), DAY + 14 * 3600),
        ]
    );
    for event in &found {
        assert!(event.description().unwrap().contains("meeting"));
    }
}

#[test]
fn an_event_without_description_is_dropped_by_a_keyword() {
    let bare = start(None, DAY);
    assert!(!event_passes(&bare, None, None, &some("meeting")));
    assert!(event_passes(&bare, None, None, &some("all")));
    assert!(event_passes(&bare, None, None, &None));
}

#[test]
fn keywords_are_case_sensitive_substrings() {
    let meeting = start(Some("team meeting"), DAY);
    assert!(event_passes(&meeting, None, None, &some("meet")));
    assert!(event_passes(&meeting, None, None, &some("team meeting")));
    assert!(event_passes(&meeting, None, None, &some("")));
    assert!(!event_passes(&meeting, None, None, &some("Meeting")));
    assert!(!event_passes(&meeting, None, None, &some("team meeting!")));
    assert!(!event_passes(&meeting, None, None, &some("tm")));
}

#[test]
fn keyword_does_not_switch_the_window_off() {
    let meeting = start(Some("team meeting"), DAY);
    assert!(!event_passes(&meeting, Some(DAY + 1), None, &some("meeting")));
    assert!(!event_passes(&meeting, None, Some(DAY - 1), &some("meeting")));
    assert!(event_passes(&meeting, Some(DAY), Some(DAY), &some("meeting")));
}

#[test]
fn the_word_all_is_recognised() {
    assert!(asks_for_all(&some("all")));
    assert!(!asks_for_all(&some("All")));
    assert!(!asks_for_all(&some("al")));
    assert!(!asks_for_all(&None));
}

#[test]
fn filter_events_with_all_keeps_the_log() {
    let log = sample();
    let found =
        filter_events(&log, &some("1999-01-01"), &some("1999-01-02"), &some("all")).unwrap();
    assert!(found == log);
}

#[test]
fn filter_events_applies_plain_bounds() {
    let from = NaiveDate::from_ymd_opt(2021, 4, 1).unwrap().and_hms_opt(10, 0, 0).unwrap();
    let to = NaiveDate::from_ymd_opt(2021, 4, 1).unwrap().and_hms_opt(12, 0, 0).unwrap();
    let lower = Local.from_local_datetime(&from).unwrap().timestamp();
    let upper = Local.from_local_datetime(&to).unwrap().timestamp();
    let log = vec![
        start(Some("early"), lower - 1),
        stop(None, lower),
        start(Some("inside"), lower + 60),
        stop(None, upper),
        start(Some("late"), upper + 1),
    ];
    let found =
        filter_events(&log, &some("2021-04-01 10:00:00"), &some("2021-04-01 12:00:00"), &None)
            .unwrap();
    assert!(found == vec![start(Some("inside"), lower + 60), stop(None, upper)]);
}

#[test]
fn filter_events_widens_a_day_to_its_first_and_last_second() {
    let day = NaiveDate::from_ymd_opt(2021, 4, 1).unwrap();
    let first = Local.from_local_datetime(&day.and_hms_opt(0, 0, 0).unwrap()).unwrap().timestamp();
    let last =
        Local.from_local_datetime(&day.and_hms_opt(23, 59, 59).unwrap()).unwrap().timestamp();
    let log = vec![
        start(Some("before"), first - 1),
        start(Some("first"), first),
        stop(None, last),
        start(Some("after"), last + 1),
    ];
    let found = filter_events(&log, &some("2021-04-01"), &None, &None).unwrap();
    assert!(found == vec![start(Some("first"), first), stop(None, last)]);
}

#[test]
fn filter_events_refuses_a_bound_that_names_nothing() {
    let log = sample();
    let found = filter_events(&log, &some("yesterday-ish"), &None, &None);
    assert_eq!(found.err(), Some(ResolveError::Parse));
    let found = filter_events(&log, &some("2021-04-01"), &some("2021-13-45"), &None);
    assert_eq!(found.err(), Some(ResolveError::Parse));
}

#[test]
fn filter_events_for_the_week_ignores_bounds_that_name_nothing() {
    let log = sample();
    let found = filter_events(&log, &some("nonsense"), &some("more nonsense"), &some("week"));
    assert!(found.is_ok());
}

#[test]
fn an_empty_log_is_filtered_without_a_window() {
    assert!(filter_events(&[], &None, &None, &None).unwrap().is_empty());
    assert!(filter_events(&[], &None, &None, &some("week")).unwrap().is_empty());
    assert!(filter_events(&[], &some("2021-04-01"), &None, &some("work")).unwrap().is_empty());
    assert!(filter_events(&[], &some("garbage"), &some("2021-04-01"), &some("week"))
        .unwrap()
        .is_empty());
    assert_eq!(
        filter_events(&[], &some("garbage"), &None, &None).err(),
        Some(ResolveError::Parse)
    );
}

#[test]
fn the_keyword_all_needs_no_bounds() {
    let log = sample();
    assert!(filter_events(&log, &None, &None, &some("all")).unwrap() == log);
    assert!(filter_events(&log, &None, &some("2000-01-01"), &some("all")).unwrap() == log);
    assert_eq!(
        filter_events(&log, &None, &some("garbage"), &some("all")).err(),
        Some(ResolveError::Parse)
    );
    let stops = vec![stop(None, DAY), stop(None, DAY + 1)];
    assert!(filter_events(&stops, &None, &None, &some("all")).unwrap().is_empty());
}

#[test]
fn a_bound_that_cannot_be_read_is_an_error_for_every_log() {
    let logs = vec![Vec::new(), sample(), vec![stop(None, DAY)]];
    for log in &logs {
        for filter in [None, some("all"), some("work"), some("")] {
            let found = filter_events(log, &some("garbage"), &None, &filter);
            assert_eq!(found.err(), Some(ResolveError::Parse));
            let found = filter_events(log, &None, &some("garbage"), &filter);
            assert_eq!(found.err(), Some(ResolveError::Parse));
            let found = filter_events(log, &some("2021-04-01"), &some("25:61"), &filter);
            assert_eq!(found.err(), Some(ResolveError::Parse));
        }
        assert!(filter_events(log, &some("garbage"), &some("garbage"), &some("week")).is_ok());
    }
}
