//! The settings that the engine reads: time goals, the minimum daily break,
//! and the policy for a start while work is already tracked.

use vstd::prelude::*;

verus! {

/// A span of hours and minutes.
#[derive(Debug, Clone, Copy, PartialEq, Eq, Structural)]
pub struct Time {
    pub hours: u8,
    pub minutes: u8,
}

impl Time {
    /// The span in minutes.
    pub open spec fn spec_total_minutes(self) -> int {
        self.minutes + self.hours * 60
    }

    /// The span in minutes.
    pub fn total_minutes(&self) -> (m: i64)
        ensures
            m == self.spec_total_minutes(),
    {
        let hours: i64 = self.hours as i64;
        let minutes: i64 = self.minutes as i64;
        minutes + hours * 60
    }
}

impl Default for Time {
    fn default() -> (t: Self)
        ensures
            t == (Time { hours: 0, minutes: 0 }),
    {
        Time { hours: 0, minutes: 0 }
    }
}

/// The time to work per day and per week.
#[derive(Debug, Clone, Copy, PartialEq, Eq, Structural)]
pub struct TimeGoal {
    pub daily: Time,
    pub weekly: Time,
}

/// Most hours that a daily goal may ask for.
pub const MAX_DAILY_HOURS: i64 = 24;

/// Most hours that a weekly goal may ask for.
pub const MAX_WEEKLY_HOURS: i64 = 168;

/// Most minutes that a goal may hold beside its hours.
pub const MAX_GOAL_MINUTES: i64 = 59;

/// `value`, lowered to `limit` where it is above it.
pub open spec fn capped(value: int, limit: int) -> int {
    if value > limit {
        limit
    } else {
        value
    }
}

/// Whether each capped number of a raw goal fits the `u8` that stores it.
pub open spec fn goal_numbers_fit(
    daily_hours: int,
    daily_minutes: int,
    weekly_hours: int,
    weekly_minutes: int,
) -> bool {
    daily_hours >= 0 && daily_minutes >= 0 && weekly_hours >= 0 && weekly_minutes >= 0
}

/// `value`, lowered to `limit` where it is above it.
fn cap(value: i64, limit: i64) -> (r: i64)
    ensures
        r == capped(value as int, limit as int),
{
    if value > limit {
        limit
    } else {
        value
    }
}

impl TimeGoal {
    /// The goal that configured numbers describe. Each number is capped: the
    /// daily hours at 24, the weekly hours at 168, either minutes at 59. A
    /// negative number describes no goal.
    pub fn from_raw(
        daily_hours: i64,
        daily_minutes: i64,
        weekly_hours: i64,
        weekly_minutes: i64,
    ) -> (goal: Option<TimeGoal>)
        ensures
            goal is Some <==> goal_numbers_fit(
                daily_hours as int,
                daily_minutes as int,
                weekly_hours as int,
                weekly_minutes as int,
            ),
            goal matches Some(g) ==> {
                &&& g.daily.hours == capped(daily_hours as int, MAX_DAILY_HOURS as int)
                &&& g.daily.minutes == capped(daily_minutes as int, MAX_GOAL_MINUTES as int)
                &&& g.weekly.hours == capped(weekly_hours as int, MAX_WEEKLY_HOURS as int)
                &&& g.weekly.minutes == capped(weekly_minutes as int, MAX_GOAL_MINUTES as int)
            },
    {
        if daily_hours < 0 || daily_minutes < 0 || weekly_hours < 0 || weekly_minutes < 0 {
            return None;
        }
        let daily = Time {
            hours: cap(daily_hours, MAX_DAILY_HOURS) as u8,
            minutes: cap(daily_minutes, MAX_GOAL_MINUTES) as u8,
        };
        let weekly = Time {
            hours: cap(weekly_hours, MAX_WEEKLY_HOURS) as u8,
            minutes: cap(weekly_minutes, MAX_GOAL_MINUTES) as u8,
        };
        Some(TimeGoal { daily, weekly })
    }
}

impl Default for TimeGoal {
    fn default() -> (g: Self)
        ensures
            g.daily == (Time { hours: 0, minutes: 0 }),
            g.weekly == (Time { hours: 0, minutes: 0 }),
    {
        TimeGoal { daily: Time { hours: 0, minutes: 0 }, weekly: Time { hours: 0, minutes: 0 } }
    }
}

/// A day of the week.
#[derive(Debug, Clone, Copy, PartialEq, Eq, Structural)]
pub enum Weekday {
    Mon,
    Tue,
    Wed,
    Thu,
    Fri,
    Sat,
    Sun,
}

impl Weekday {
    /// Days between the Monday of the week and this day.
    pub open spec fn spec_days_from_monday(self) -> int {
        match self {
            Weekday::Mon => 0,
            Weekday::Tue => 1,
            Weekday::Wed => 2,
            Weekday::Thu => 3,
            Weekday::Fri => 4,
            Weekday::Sat => 5,
            Weekday::Sun => 6,
        }
    }

    /// Days between the Monday of the week and this day.
    pub fn days_from_monday(&self) -> (n: u32)
        ensures
            n == self.spec_days_from_monday(),
            n < 7,
    {
        match self {
            Weekday::Mon => 0,
            Weekday::Tue => 1,
            Weekday::Wed => 2,
            Weekday::Thu => 3,
            Weekday::Fri => 4,
            Weekday::Sat => 5,
            Weekday::Sun => 6,
        }
    }

    /// The day that lies `n` days after Monday; `None` for `n` above 6.
    pub fn from_days_from_monday(n: u32) -> (day: Option<Weekday>)
        ensures
            day is Some <==> n < 7,
            day matches Some(d) ==> d.spec_days_from_monday() == n,
    {
        if n == 0 {
            Some(Weekday::Mon)
        } else if n == 1 {
            Some(Weekday::Tue)
        } else if n == 2 {
            Some(Weekday::Wed)
        } else if n == 3 {
            Some(Weekday::Thu)
        } else if n == 4 {
            Some(Weekday::Fri)
        } else if n == 5 {
            Some(Weekday::Sat)
        } else if n == 6 {
            Some(Weekday::Sun)
        } else {
            None
        }
    }
}

/// What the engine is configured with.
#[derive(Debug)]
pub struct Settings {
    /// Where the log is kept.
    pub data_file: String,
    /// Whether a start while work is tracked first stops that work.
    pub auto_insert_stop: bool,
    /// Whether settings of the project directory are read too.
    pub enable_project_settings: bool,
    /// The time to work per day and per week.
    pub time_goal: TimeGoal,
    /// Minutes of break that a day of work holds at least.
    pub min_daily_break: u8,
    /// The day on which the work week ends.
    pub last_day_of_work_week: Weekday,
}

impl Default for Settings {
    /// Settings with nothing configured: no data file, no policy switched
    /// on, goals and minimum break of zero, and a work week that ends on
    /// Friday.
    fn default() -> (s: Self)
        ensures
            s.data_file@ == Seq::<char>::empty(),
            !s.auto_insert_stop,
            !s.enable_project_settings,
            s.time_goal.daily == (Time { hours: 0, minutes: 0 }),
            s.time_goal.weekly == (Time { hours: 0, minutes: 0 }),
            s.min_daily_break == 0,
            s.last_day_of_work_week == Weekday::Fri,
    {
        Settings {
            data_file: String::new(),
            auto_insert_stop: false,
            enable_project_settings: false,
            time_goal: TimeGoal {
                daily: Time { hours: 0, minutes: 0 },
                weekly: Time { hours: 0, minutes: 0 },
            },
            min_daily_break: 0,
            last_day_of_work_week: Weekday::Fri,
        }
    }
}

/// The text of a path that is given as text: the text itself, since it holds
/// nothing that would have to be replaced.
pub fn path_to_string_lossy(path: &str) -> (text: String)
    ensures
        text@ == path@,
{
    path.to_owned()
}

} // verus!
