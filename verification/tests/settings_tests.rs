use timetracking::settings::{path_to_string_lossy, Settings, Time, TimeGoal, Weekday};

#[test]
fn time_in_minutes() {
    let time = Time { hours: 8, minutes: 30 };
    assert_eq!(time.total_minutes(), 510);
    assert_eq!(Time::default().total_minutes(), 0);
}

#[test]
fn raw_goal_is_capped() {
    let goal = TimeGoal::from_raw(30, 75, 200, 59).unwrap();
    assert_eq!(goal.daily, Time { hours: 24, minutes: 59 });
    assert_eq!(goal.weekly, Time { hours: 168, minutes: 59 });
}

#[test]
fn raw_goal_within_limits_is_kept() {
    let goal = TimeGoal::from_raw(8, 0, 40, 30).unwrap();
    assert_eq!(goal.daily, Time { hours: 8, minutes: 0 });
    assert_eq!(goal.weekly, Time { hours: 40, minutes: 30 });
}

#[test]
fn negative_raw_goal_is_refused() {
    assert!(TimeGoal::from_raw(-1, 0, 0, 0).is_none());
    assert!(TimeGoal::from_raw(0, -1, 0, 0).is_none());
    assert!(TimeGoal::from_raw(0, 0, -1, 0).is_none());
    assert!(TimeGoal::from_raw(0, 0, 0, -1).is_none());
}

#[test]
fn default_goal_is_zero() {
    let goal = TimeGoal::default();
    assert_eq!(goal.daily.total_minutes(), 0);
    assert_eq!(goal.weekly.total_minutes(), 0);
}

#[test]
fn weekdays_count_from_monday() {
    assert_eq!(Weekday::Mon.days_from_monday(), 0);
    assert_eq!(Weekday::Fri.days_from_monday(), 4);
    assert_eq!(Weekday::Sun.days_from_monday(), 6);
    assert_eq!(Weekday::from_days_from_monday(2), Some(Weekday::Wed));
    assert_eq!(Weekday::from_days_from_monday(7), None);
    for n in 0..7u32 {
        assert_eq!(Weekday::from_days_from_monday(n).unwrap().days_from_monday(), n);
    }
}

#[test]
fn path_text_is_kept() {
    assert_eq!(path_to_string_lossy("/tmp/journal"), "/tmp/journal".to_string());
    assert_eq!(path_to_string_lossy(""), String::new());
}

#[test]
fn default_settings_have_nothing_configured() {
    let s = Settings::default();
    assert_eq!(s.data_file, String::new());
    assert!(!s.auto_insert_stop);
    assert!(!s.enable_project_settings);
    assert_eq!(s.time_goal, TimeGoal::default());
    assert_eq!(s.min_daily_break, 0);
    assert_eq!(s.last_day_of_work_week, Weekday::Fri);
}
