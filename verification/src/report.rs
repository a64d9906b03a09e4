//! What the engine reports in words: the lines that list events, the line
//! that shows worked or remaining time, and the lines of the status.

use vstd::prelude::*;
use vstd::string::StringExecFns;
use crate::clock::{
    civil_date, civil_date_of, day_of, local_wall_time, second_of_day, valid_day, wall_day,
    wall_second_of_day, DAY_SECONDS,
};
use crate::event::{int_of, TrackingEvent};
use crate::filter::{
    bounds_are_plain, filter_events, may_fail_with, query_result, unreadable, window_applies,
    without_leading_stops,
};
use crate::settings::Settings;
use crate::text::{decimal, padded_number, replace_text, replaced, same_text, text_of, zero_padded};
use crate::track::{status, Status};
use crate::window::{is_week, local_today, weekday_of, ResolveError};
use crate::worktime::{
    checked_time_from_events, combined_remaining, get_remaining_minutes, remaining_minutes,
    shown_remaining, split_duration, sums_to, toward_zero, WorkTimeError, MAX_DURATION,
};

verus! {

/// The date of a wall-clock time as it is written: year, month and day,
/// with dashes between them.
pub open spec fn date_text(wall: int) -> Seq<char> {
    let date = civil_date(day_of(wall) as i64);
    zero_padded(date.0 as int, 4) + "-"@ + zero_padded(date.1 as int, 2) + "-"@ + zero_padded(
        date.2 as int,
        2,
    )
}

/// The time of day of a wall-clock time as it is written: hours, minutes
/// and seconds, with colons between them.
pub open spec fn clock_text(wall: int) -> Seq<char> {
    let second = second_of_day(wall);
    zero_padded(second / 3600, 2) + ":"@ + zero_padded(second % 3600 / 60, 2) + ":"@
        + zero_padded(second % 60, 2)
}

/// The description of an event as a line ends with it: in quotes after a
/// blank, or nothing where the event has none.
pub open spec fn quoted(text: Option<String>) -> Seq<char> {
    match text {
        Some(d) => " \""@ + d@ + "\""@,
        None => Seq::empty(),
    }
}

/// The line that tells of an event in words: the prefix, the date and the
/// time of day of the wall-clock time, and the description in quotes.
pub open spec fn human_line(prefix: Seq<char>, wall: int, text: Option<String>) -> Seq<char> {
    prefix + " at "@ + date_text(wall) + " "@ + clock_text(wall) + quoted(text)
}

/// The time of day of a wall-clock time as it is written.
pub fn clock_time(wall: i64) -> (text: String)
    ensures
        text@ == clock_text(wall as int),
{
    let second = wall_second_of_day(wall);
    let mut text = padded_number((second / 3600) as i128, 2);
    text.append(":");
    text.append(padded_number((second % 3600 / 60) as i128, 2).as_str());
    text.append(":");
    text.append(padded_number((second % 60) as i128, 2).as_str());
    text
}

/// The date of a wall-clock time as it is written.
pub fn date_words(wall: i64) -> (text: String)
    requires
        valid_day(day_of(wall as int)),
    ensures
        text@ == date_text(wall as int),
{
    let date = civil_date_of(wall_day(wall));
    let mut text = padded_number(date.0 as i128, 4);
    text.append("-");
    text.append(padded_number(date.1 as i128, 2).as_str());
    text.append("-");
    text.append(padded_number(date.2 as i128, 2).as_str());
    text
}

/// The description of an event as a line ends with it.
fn quoted_words(description: &Option<String>) -> (text: String)
    ensures
        text@ == quoted(*description),
{
    match description {
        Some(d) => {
            let mut text = " \"".to_owned();
            text.append(d.as_str());
            text.append("\"");
            text
        },
        None => String::new(),
    }
}

/// The line that tells of an event in words.
pub fn to_human_readable(prefix: &str, wall: i64, description: &Option<String>) -> (line: String)
    requires
        valid_day(day_of(wall as int)),
    ensures
        line@ == human_line(prefix@, wall as int, *description),
{
    let mut line = prefix.to_owned();
    line.append(" at ");
    line.append(date_words(wall).as_str());
    line.append(" ");
    line.append(clock_time(wall).as_str());
    line.append(quoted_words(description).as_str());
    line
}

/// The word that a list of events puts before an event, of one width for
/// both kinds.
pub open spec fn kind_word(e: TrackingEvent) -> Seq<char> {
    if e is Start {
        "Start"@
    } else {
        "Stop "@
    }
}

/// Whether `lines` tell of the events of the log in words, one line for
/// each, with `walls` as the wall-clock times that a zone shows at their
/// instants.
pub open spec fn tells_of(log: Seq<TrackingEvent>, walls: Seq<i64>, lines: Seq<String>) -> bool {
    &&& walls.len() == log.len()
    &&& lines.len() == log.len()
    &&& forall|i: int|
        0 <= i < log.len() ==> {
            &&& log[i].instant() - DAY_SECONDS < #[trigger] walls[i] < log[i].instant()
                + DAY_SECONDS
            &&& lines[i]@ == human_line(kind_word(log[i]), walls[i] as int, log[i].text())
        }
}

/// The lines that tell of the events of the log in words, in the time of
/// the machine's zone.
pub fn get_human_readable(data: &[TrackingEvent]) -> (lines: Vec<String>)
    ensures
        exists|walls: Seq<i64>| #[trigger] tells_of(data@, walls, lines@),
{
    let mut lines: Vec<String> = Vec::new();
    let ghost mut walls: Seq<i64> = Seq::empty();
    let mut i: usize = 0;
    while i < data.len()
        invariant
            i <= data.len(),
            tells_of(data@.take(i as int), walls, lines@),
        decreases data.len() - i,
    {
        let event = &data[i];
        let wall = local_wall_time(event.time(true));
        let prefix = if event.is_start() {
            "Start"
        } else {
            "Stop "
        };
        let line = to_human_readable(prefix, wall, &event.description());
        lines.push(line);
        proof {
            walls = walls.push(wall);
        }
        i += 1;
    }
    proof {
        assert(data@.take(data.len() as int) =~= data@);
    }
    lines
}

/// The word that a list of repeated events is headed with.
pub open spec fn repeated_heading(e: TrackingEvent) -> Seq<char> {
    if e is Start {
        "Repeated start events found:"@
    } else {
        "Repeated stop events found:"@
    }
}

/// The word that an entry of a list of repeated events begins with.
pub open spec fn entry_word(e: TrackingEvent) -> Seq<char> {
    if e is Start {
        "Start"@
    } else {
        "Stop"@
    }
}

/// The line of an entry in a list of repeated events: its number in
/// brackets, counted from 1, and the event in words.
pub open spec fn entry_line(e: TrackingEvent, place: int, wall: int) -> Seq<char> {
    "("@ + decimal(place + 1) + ") "@ + human_line(entry_word(e), wall, e.text())
}

/// Whether `lines` list a conflict: a heading that names the kind of its
/// events, then one entry for each event, numbered from 1, with `walls`
/// as the wall-clock times that a zone shows at their instants. An empty
/// run is listed by no line at all.
pub open spec fn lists_conflict(run: Seq<TrackingEvent>, walls: Seq<i64>, lines: Seq<String>)
    -> bool {
    if run.len() == 0 {
        lines.len() == 0
    } else {
        &&& walls.len() == run.len()
        &&& lines.len() == run.len() + 1
        &&& lines[0]@ == repeated_heading(run[0])
        &&& forall|i: int|
            0 <= i < run.len() ==> {
                &&& run[i].instant() - DAY_SECONDS < #[trigger] walls[i] < run[i].instant()
                    + DAY_SECONDS
                &&& lines[i + 1]@ == entry_line(run[i], i, walls[i] as int)
            }
    }
}

/// The lines that put a conflict before the operator: a heading, and the
/// events of the conflict in words, each under the number by which it can
/// be chosen.
pub fn conflict_lines(run: &[TrackingEvent]) -> (lines: Vec<String>)
    ensures
        exists|walls: Seq<i64>| #[trigger] lists_conflict(run@, walls, lines@),
{
    let mut lines: Vec<String> = Vec::new();
    let ghost mut walls: Seq<i64> = Seq::empty();
    if run.len() == 0 {
        proof {
            assert(lists_conflict(run@, walls, lines@));
        }
        return lines;
    }
    if run[0].is_start() {
        lines.push("Repeated start events found:".to_owned());
    } else {
        lines.push("Repeated stop events found:".to_owned());
    }
    let mut i: usize = 0;
    while i < run.len()
        invariant
            i <= run.len(),
            run@.len() > 0,
            walls.len() == i,
            lines@.len() == i + 1,
            lines@[0]@ == repeated_heading(run@[0]),
            forall|k: int|
                0 <= k < i ==> {
                    &&& run@[k].instant() - DAY_SECONDS < #[trigger] walls[k] < run@[k].instant()
                        + DAY_SECONDS
                    &&& lines@[k + 1]@ == entry_line(run@[k], k, walls[k] as int)
                },
        decreases run.len() - i,
    {
        let event = &run[i];
        let wall = local_wall_time(event.time(true));
        let word = if event.is_start() {
            "Start"
        } else {
            "Stop"
        };
        let mut line = "(".to_owned();
        line.append(padded_number(i as i128 + 1, 0).as_str());
        line.append(") ");
        line.append(to_human_readable(word, wall, &event.description()).as_str());
        proof {
            walls = walls.push(wall);
        }
        lines.push(line);
        i += 1;
    }
    proof {
        assert(lists_conflict(run@, walls, lines@));
    }
    lines
}

/// What the lines of a status name the time of the latest event: the time
/// at which the running work started, or the time at which work ended.
pub open spec fn time_word(active: bool) -> Seq<char> {
    if active {
        "Start Time: "@
    } else {
        "End Time: "@
    }
}

/// The line of a status that says whether work is running.
pub open spec fn active_line(active: bool) -> Seq<char> {
    if active {
        "Active: true"@
    } else {
        "Active: false"@
    }
}

/// The lines of a status, with `wall` as the wall-clock time of its latest
/// event: whether work is running, the description where there is one,
/// and the time of day of the latest event. An empty log has one line that
/// says so.
pub open spec fn status_text(found: Option<Status>, wall: int) -> Seq<Seq<char>> {
    match found {
        None => seq!["No Events found!"@],
        Some(s) => match s.description {
            Some(d) => seq![
                active_line(s.active),
                "Description: "@ + d@,
                time_word(s.active) + clock_text(wall),
            ],
            None => seq![active_line(s.active), time_word(s.active) + clock_text(wall)],
        },
    }
}

/// The texts of a list of lines.
pub open spec fn texts(lines: Seq<String>) -> Seq<Seq<char>> {
    lines.map_values(|line: String| line@)
}

/// The lines of a status, with `wall` as the wall-clock time of its latest
/// event.
pub fn status_lines_at(found: &Option<Status>, wall: i64) -> (lines: Vec<String>)
    ensures
        texts(lines@) == status_text(*found, wall as int),
{
    let mut lines: Vec<String> = Vec::new();
    match found {
        None => {
            lines.push("No Events found!".to_owned());
        },
        Some(s) => {
            if s.active {
                lines.push("Active: true".to_owned());
            } else {
                lines.push("Active: false".to_owned());
            }
            match &s.description {
                Some(d) => {
                    let mut line = "Description: ".to_owned();
                    line.append(d.as_str());
                    lines.push(line);
                },
                None => {},
            }
            let mut line = if s.active {
                "Start Time: ".to_owned()
            } else {
                "End Time: ".to_owned()
            };
            line.append(clock_time(wall).as_str());
            lines.push(line);
        },
    }
    lines
}

/// The lines of the status of a log in the time of the machine's zone:
/// those of its latest event, with the wall-clock time that the zone shows
/// at the instant of that event.
pub fn status_lines(data: &[TrackingEvent]) -> (lines: Vec<String>)
    ensures
        data@.len() == 0 ==> texts(lines@) == status_text(None, 0),
        data@.len() > 0 ==> exists|found: Status, wall: int|
            texts(lines@) == #[trigger] status_text(Some(found), wall) && found.active == (
            data@.last() is Start) && found.description == data@.last().text()
                && data@.last().instant() - DAY_SECONDS < wall < data@.last().instant()
                + DAY_SECONDS,
{
    let found = status(data);
    match &found {
        Some(s) => {
            let wall = local_wall_time(s.time);
            let lines = status_lines_at(&found, wall);
            lines
        },
        None => status_lines_at(&found, 0),
    }
}

/// The template by which time is shown where none is given.
pub open spec fn default_template() -> Seq<char> {
    "{hh}:{mm}:{ss}"@
}

/// A template with its placeholders filled in: `{hh}`, `{mm}` and `{ss}`
/// by the hours, minutes and seconds in two digits, then `{h}`, `{m}` and
/// `{s}` by the same numbers as they are.
#[verifier::opaque]
pub open spec fn rendered(template: Seq<char>, hours: int, minutes: int, seconds: int) -> Seq<
    char,
> {
    let two_hours = replaced(template, "{hh}"@, zero_padded(hours, 2));
    let two_minutes = replaced(two_hours, "{mm}"@, zero_padded(minutes, 2));
    let two_seconds = replaced(two_minutes, "{ss}"@, zero_padded(seconds, 2));
    let plain_hours = replaced(two_seconds, "{h}"@, decimal(hours));
    let plain_minutes = replaced(plain_hours, "{m}"@, decimal(minutes));
    replaced(plain_minutes, "{s}"@, decimal(seconds))
}

/// Fills the placeholders of a template with hours, minutes and seconds.
pub fn render_time(template: &str, hours: i64, minutes: i64, seconds: i64) -> (text: String)
    ensures
        text@ == rendered(template@, hours as int, minutes as int, seconds as int),
{
    proof {
        reveal(rendered);
        reveal_strlit("{hh}");
        reveal_strlit("{mm}");
        reveal_strlit("{ss}");
        reveal_strlit("{h}");
        reveal_strlit("{m}");
        reveal_strlit("{s}");
    }
    let two_hours = replace_text(template, "{hh}", padded_number(hours as i128, 2).as_str());
    let two_minutes = replace_text(
        two_hours.as_str(),
        "{mm}",
        padded_number(minutes as i128, 2).as_str(),
    );
    let two_seconds = replace_text(
        two_minutes.as_str(),
        "{ss}",
        padded_number(seconds as i128, 2).as_str(),
    );
    let plain_hours = replace_text(
        two_seconds.as_str(),
        "{h}",
        padded_number(hours as i128, 0).as_str(),
    );
    let plain_minutes = replace_text(
        plain_hours.as_str(),
        "{m}",
        padded_number(minutes as i128, 0).as_str(),
    );
    replace_text(plain_minutes.as_str(), "{s}", padded_number(seconds as i128, 0).as_str())
}

/// The hours, minutes and seconds that are shown: those of the minutes
/// that are left, with no seconds, where remaining time is asked for; else
/// those of the worked time, with its seconds only where they are
/// included.
pub open spec fn shown_parts(work: int, include_seconds: bool, left: Option<int>) -> (
    int,
    int,
    int,
) {
    match left {
        Some(minutes) => (toward_zero(minutes, 60), minutes - toward_zero(minutes, 60) * 60, 0),
        None => {
            let hours = toward_zero(work, 3600);
            let minutes = toward_zero(work, 60) - hours * 60;
            (
                hours,
                minutes,
                if include_seconds {
                    work - hours * 3600 - minutes * 60
                } else {
                    0
                },
            )
        },
    }
}

/// The template that a query is shown by: the given one, or the default.
pub open spec fn template_of(format: Option<String>) -> Seq<char> {
    match format {
        Some(f) => f@,
        None => default_template(),
    }
}

/// The line that shows a time: the time alone where it is to be plain,
/// else after the words that say whether it is worked or remaining time.
pub open spec fn labelled(time: Seq<char>, plain: bool, remaining: bool) -> Seq<char> {
    if plain {
        time
    } else if remaining {
        "Remaining Work Time: "@ + time
    } else {
        "Work Time: "@ + time
    }
}

/// The line that shows `work` seconds of worked time, or the minutes that
/// are `left` where remaining time is asked for.
pub open spec fn shown_line(
    format: Option<String>,
    plain: bool,
    include_seconds: bool,
    work: int,
    left: Option<int>,
) -> Seq<char> {
    let parts = shown_parts(work, include_seconds, left);
    labelled(rendered(template_of(format), parts.0, parts.1, parts.2), plain, left is Some)
}

/// The line that shows `work` seconds of worked time, or the minutes that
/// are `left` where remaining time is asked for.
pub fn show_line(
    format: &Option<String>,
    plain: bool,
    include_seconds: bool,
    work: i64,
    left: Option<i64>,
) -> (line: String)
    ensures
        line@ == shown_line(
            *format,
            plain,
            include_seconds,
            work as int,
            int_of(left),
        ),
{
    let (hours, minutes, seconds) = match left {
        Some(all) => {
            let hours: i64 = all / 60;
            (hours, all - hours * 60, 0)
        },
        None => {
            let parts = split_duration(work);
            (
                parts.0,
                parts.1,
                if include_seconds {
                    parts.2
                } else {
                    0
                },
            )
        },
    };
    let time = match format {
        Some(f) => render_time(f.as_str(), hours, minutes, seconds),
        None => render_time("{hh}:{mm}:{ss}", hours, minutes, seconds),
    };
    if plain {
        time
    } else if left.is_some() {
        let mut line = "Remaining Work Time: ".to_owned();
        line.append(time.as_str());
        line
    } else {
        let mut line = "Work Time: ".to_owned();
        line.append(time.as_str());
        line
    }
}

/// Why a query could not be shown.
#[derive(Debug, Clone, Copy, PartialEq, Eq, Structural)]
pub enum ShowError {
    /// The window of the query could not be resolved.
    Resolve(ResolveError),
    /// The worked time could not be told.
    WorkTime(WorkTimeError),
}

/// The filter of a query as a text: empty where none is given.
pub open spec fn filter_text(filter: Option<String>) -> Seq<char> {
    match filter {
        Some(f) => f@,
        None => Seq::empty(),
    }
}

/// Whether remaining time can be shown for a query: it has no bounds, and
/// its filter is the week or none.
pub open spec fn remaining_applies(
    from: Option<String>,
    to: Option<String>,
    filter: Option<String>,
) -> bool {
    (filter_text(filter) == "week"@ || filter_text(filter).len() == 0) && from is None && to
        is None
}

/// Whether `work` seconds is what a query measures on the log: the worked
/// time, at some instant and for some calendar days of the events, of a
/// result of the query.
#[verifier::opaque]
pub open spec fn measures(
    settings: Settings,
    log: Seq<TrackingEvent>,
    from: Option<Seq<char>>,
    to: Option<Seq<char>>,
    filter: Option<Seq<char>>,
    include_seconds: bool,
    work: i64,
) -> bool {
    exists|found: Seq<TrackingEvent>, now: int, days: Seq<i64>|
        query_result(log, from, to, filter, found) && #[trigger] sums_to(
            found,
            settings.min_daily_break as int,
            include_seconds,
            now,
            days,
            Ok(work),
        )
}

/// The minutes that are left to the goal of a filter after `work` seconds
/// of work.
pub open spec fn left_of_goal(settings: Settings, filter: Seq<char>, work: int) -> int {
    remaining_minutes(
        settings,
        filter,
        toward_zero(work, 3600),
        toward_zero(work, 60) - toward_zero(work, 3600) * 60,
    )
}

/// The minutes that are shown as left for a query. For the week that is
/// what is left of the weekly goal. Without a filter it is what is left of
/// the daily goal or of the weekly goal, by the rule of `shown_remaining`.
/// It is never less than nothing.
pub open spec fn left_shown(
    settings: Settings,
    filter: Seq<char>,
    work: int,
    week_work: int,
    last_day: bool,
) -> int {
    if filter == "week"@ {
        shown_remaining(
            left_of_goal(settings, filter, work),
            left_of_goal(settings, filter, work),
            last_day,
        )
    } else {
        shown_remaining(
            left_of_goal(settings, filter, work),
            left_of_goal(settings, "week"@, week_work),
            last_day,
        )
    }
}

/// Whether `left` minutes are what is shown as left for a query that
/// measured `work` seconds: what is left of the weekly goal for the week;
/// without a filter what `shown_remaining` makes of the day and the week,
/// for some measure of the week and with today as the last day of the work
/// week or not.
pub open spec fn is_left(
    settings: Settings,
    log: Seq<TrackingEvent>,
    filter: Option<String>,
    include_seconds: bool,
    work: i64,
    left: int,
) -> bool {
    exists|week_work: i64, last_day: bool|
        {
            &&& filter_text(filter) != "week"@ ==> measures(
                settings,
                log,
                None,
                None,
                Some("week"@),
                include_seconds,
                week_work,
            )
            &&& left == #[trigger] left_shown(
                settings,
                filter_text(filter),
                work as int,
                week_work as int,
                last_day,
            )
        }
}

/// Whether `line` is what a query shows: the worked time that it measures
/// on the log, or the minutes that are left after it where remaining time
/// is asked for.
pub open spec fn shows(
    settings: Settings,
    log: Seq<TrackingEvent>,
    from: Option<String>,
    to: Option<String>,
    filter: Option<String>,
    format: Option<String>,
    include_seconds: bool,
    plain: bool,
    remaining: bool,
    work: i64,
    left: Option<int>,
    line: Seq<char>,
) -> bool {
    &&& measures(settings, log, text_of(from), text_of(to), text_of(filter), include_seconds, work)
    &&& left is Some <==> remaining
    &&& left matches Some(minutes) ==> is_left(
        settings,
        log,
        filter,
        include_seconds,
        work,
        minutes,
    )
    &&& line == shown_line(format, plain, include_seconds, work as int, left)
}

/// Whether the worked time of a query passes the longest span: it does
/// so at some instant and for some calendar days of the events, on a
/// result of the query.
#[verifier::opaque]
pub open spec fn overflows(
    settings: Settings,
    log: Seq<TrackingEvent>,
    from: Option<Seq<char>>,
    to: Option<Seq<char>>,
    filter: Option<Seq<char>>,
    include_seconds: bool,
) -> bool {
    exists|found: Seq<TrackingEvent>, now: int, days: Seq<i64>|
        query_result(log, from, to, filter, found) && #[trigger] sums_to(
            found,
            settings.min_daily_break as int,
            include_seconds,
            now,
            days,
            Err(WorkTimeError::Overflow),
        )
}

/// Whether measuring a query can fail with the given error: in resolving
/// its window, as `may_fail_with` says; for want of the clock, on a log
/// that is not empty; or by an overflow of its worked time.
pub open spec fn measure_may_fail(
    e: ShowError,
    settings: Settings,
    log: Seq<TrackingEvent>,
    from: Option<Seq<char>>,
    to: Option<Seq<char>>,
    filter: Option<Seq<char>>,
    include_seconds: bool,
) -> bool {
    match e {
        ShowError::Resolve(r) => may_fail_with(r, log, from, to, filter),
        ShowError::WorkTime(WorkTimeError::Clock) => log.len() > 0,
        ShowError::WorkTime(WorkTimeError::Overflow) => overflows(
            settings,
            log,
            from,
            to,
            filter,
            include_seconds,
        ),
    }
}

/// Whether a query has nothing to measure, and needs neither the clock nor
/// the zone to find that out: its bounds can be read as they stand, its
/// window does not have to be applied, and the log holds no event from
/// which work could start.
pub open spec fn nothing_to_measure(
    log: Seq<TrackingEvent>,
    from: Option<Seq<char>>,
    to: Option<Seq<char>>,
    filter: Option<Seq<char>>,
) -> bool {
    bounds_are_plain(from, to, filter) && !window_applies(log, filter) && without_leading_stops(
        log,
    ).len() == 0
}

/// Whether a query owes an error for every log: it is not for the week,
/// and one of its bounds cannot be read.
pub open spec fn owes_parse_error(
    from: Option<Seq<char>>,
    to: Option<Seq<char>>,
    filter: Option<Seq<char>>,
) -> bool {
    !is_week(filter) && (unreadable(from) || unreadable(to))
}

/// Filters the log by the query and tells the worked time of the result
/// as of now. A query that has nothing to measure comes to no time at
/// all, whatever the clock and the zone are; a query with a bound that
/// cannot be read is an error, whatever the log is.
fn measure(
    settings: &Settings,
    data: &[TrackingEvent],
    from: &Option<String>,
    to: &Option<String>,
    filter: &Option<String>,
    include_seconds: bool,
) -> (work: Result<i64, ShowError>)
    ensures
        work matches Ok(w) ==> 0 <= w <= MAX_DURATION && measures(
            *settings,
            data@,
            text_of(*from),
            text_of(*to),
            text_of(*filter),
            include_seconds,
            w,
        ),
        work matches Err(e) ==> measure_may_fail(
            e,
            *settings,
            data@,
            text_of(*from),
            text_of(*to),
            text_of(*filter),
            include_seconds,
        ),
        nothing_to_measure(data@, text_of(*from), text_of(*to), text_of(*filter)) ==> work
            == Ok::<i64, ShowError>(0),
        owes_parse_error(text_of(*from), text_of(*to), text_of(*filter)) ==> work is Err,
        !is_week(text_of(*filter)) && unreadable(text_of(*from)) ==> work == Err::<i64, ShowError>(
            ShowError::Resolve(ResolveError::Parse),
        ),
{
    let selected = match filter_events(data, from, to, filter) {
        Ok(v) => v,
        Err(e) => {
            return Err(ShowError::Resolve(e));
        },
    };
    let time = checked_time_from_events(settings, selected.as_slice(), include_seconds);
    proof {
        reveal(measures);
        reveal(overflows);
        if time != Err::<i64, WorkTimeError>(WorkTimeError::Clock) {
            let (now, days) = choose|now: int, days: Seq<i64>| #[trigger]
                sums_to(
                    selected@,
                    settings.min_daily_break as int,
                    include_seconds,
                    now,
                    days,
                    time,
                );
        }
    }
    match time {
        Ok(w) => Ok(w),
        Err(e) => Err(ShowError::WorkTime(e)),
    }
}

/// The minutes that are shown as left for a query without bounds that
/// measured `work` seconds. For the week that is what is left of the
/// weekly goal, and nothing outside is asked. Without a filter the week is
/// measured too and the day of the week is read, either of which can
/// fail.
fn minutes_left(
    settings: &Settings,
    data: &[TrackingEvent],
    filter: &Option<String>,
    include_seconds: bool,
    work: i64,
) -> (left: Result<i64, ShowError>)
    requires
        0 <= work <= MAX_DURATION,
        filter_text(*filter) == "week"@ || filter_text(*filter).len() == 0,
    ensures
        left matches Ok(minutes) ==> is_left(
            *settings,
            data@,
            *filter,
            include_seconds,
            work,
            minutes as int,
        ),
        filter_text(*filter) == "week"@ ==> (left matches Ok(minutes) && minutes == left_shown(
            *settings,
            "week"@,
            work as int,
            work as int,
            true,
        )),
        left matches Err(e) ==> filter_text(*filter) != "week"@ && (e == ShowError::Resolve(
            ResolveError::Clock,
        ) || measure_may_fail(e, *settings, data@, None, None, Some("week"@), include_seconds)),
{
    proof {
        reveal_strlit("");
        reveal_strlit("week");
    }
    let text: &str = match filter {
        Some(f) => f.as_str(),
        None => "",
    };
    assert(text@ == filter_text(*filter));
    let parts = split_duration(work);
    let of_filter = get_remaining_minutes(settings, text, parts.0, parts.1);
    if same_text(text, "week") {
        let left = if of_filter < 0 {
            0
        } else {
            of_filter
        };
        assert(left == left_shown(*settings, filter_text(*filter), work as int, work as int, true));
        return Ok(left);
    }
    let the_week = Some("week".to_owned());
    let week_work = match measure(settings, data, &None, &None, &the_week, include_seconds) {
        Ok(w) => w,
        Err(e) => {
            return Err(e);
        },
    };
    let week_parts = split_duration(week_work);
    let of_week = get_remaining_minutes(settings, "week", week_parts.0, week_parts.1);
    let today = match local_today() {
        Some(day) => weekday_of(day),
        None => {
            return Err(ShowError::Resolve(ResolveError::Clock));
        },
    };
    let left = combined_remaining(settings, of_filter, of_week, today);
    assert(left == left_shown(
        *settings,
        filter_text(*filter),
        work as int,
        week_work as int,
        today == settings.last_day_of_work_week,
    ));
    Ok(left)
}

/// Whether remaining time can be shown for a query.
pub fn can_show_remaining(
    from: &Option<String>,
    to: &Option<String>,
    filter: &Option<String>,
) -> (applies: bool)
    ensures
        applies == remaining_applies(*from, *to, *filter),
{
    let unfiltered = match filter {
        Some(f) => same_text(f.as_str(), "week") || f.as_str().is_empty(),
        None => true,
    };
    unfiltered && from.is_none() && to.is_none()
}

/// Whether showing a query can fail with the given error: in measuring
/// the query; or, where the time that is left to both goals is asked for,
/// in measuring the week or for want of the clock that tells the day of
/// the week.
pub open spec fn show_may_fail(
    e: ShowError,
    settings: Settings,
    log: Seq<TrackingEvent>,
    from: Option<String>,
    to: Option<String>,
    filter: Option<String>,
    include_seconds: bool,
    remaining: bool,
) -> bool {
    ||| measure_may_fail(
        e,
        settings,
        log,
        text_of(from),
        text_of(to),
        text_of(filter),
        include_seconds,
    )
    ||| {
        &&& remaining
        &&& remaining_applies(from, to, filter)
        &&& filter_text(filter) != "week"@
        &&& e == ShowError::Resolve(ResolveError::Clock) || measure_may_fail(
            e,
            settings,
            log,
            None,
            None,
            Some("week"@),
            include_seconds,
        )
    }
}

/// What is shown for a query that has nothing to measure, where that can
/// be told without the clock: the line for no time worked; no line where
/// remaining time is asked for and cannot be shown for the query; and for
/// the week the line for the whole weekly goal.
pub open spec fn shown_for_nothing(
    settings: Settings,
    from: Option<String>,
    to: Option<String>,
    filter: Option<String>,
    format: Option<String>,
    include_seconds: bool,
    plain: bool,
    remaining: bool,
) -> Option<Seq<char>> {
    if !remaining {
        Some(shown_line(format, plain, include_seconds, 0, None))
    } else if !remaining_applies(from, to, filter) {
        None
    } else {
        Some(
            shown_line(
                format,
                plain,
                include_seconds,
                0,
                Some(left_shown(settings, "week"@, 0, 0, true)),
            ),
        )
    }
}

/// Shows the worked time of a query, or the time that is left to the goal.
/// The log is filtered by the query and its worked time is told as of
/// now. Remaining time is shown for the week, against the weekly goal, or
/// for no filter at all, against the daily and the weekly goal; for a
/// query with bounds or with another filter nothing is shown. The time is
/// written by the template, with a label unless it is to be plain.
///
/// The clock and the zone are asked only where the result rests on them.
/// A query that has nothing to measure is shown without them, unless the
/// time that is left to both goals is asked for, which rests on the day of
/// the week. A bound that cannot be read is an error for every log. An
/// error says what could not be done.
pub fn show(
    settings: &Settings,
    data: &[TrackingEvent],
    from: &Option<String>,
    to: &Option<String>,
    filter: &Option<String>,
    format: &Option<String>,
    include_seconds: bool,
    plain: bool,
    remaining: bool,
) -> (shown: Result<Option<String>, ShowError>)
    ensures
        shown matches Ok(None) ==> remaining && !remaining_applies(*from, *to, *filter),
        shown matches Ok(Some(line)) ==> (remaining ==> remaining_applies(*from, *to, *filter))
            && exists|work: i64, left: Option<int>| #[trigger]
            shows(
                *settings,
                data@,
                *from,
                *to,
                *filter,
                *format,
                include_seconds,
                plain,
                remaining,
                work,
                left,
                line@,
            ),
        shown matches Err(e) ==> show_may_fail(
            e,
            *settings,
            data@,
            *from,
            *to,
            *filter,
            include_seconds,
            remaining,
        ),
        owes_parse_error(text_of(*from), text_of(*to), text_of(*filter)) ==> shown is Err,
        !is_week(text_of(*filter)) && unreadable(text_of(*from)) ==> shown == Err::<
            Option<String>,
            ShowError,
        >(ShowError::Resolve(ResolveError::Parse)),
        nothing_to_measure(data@, text_of(*from), text_of(*to), text_of(*filter)) && !(remaining
            && remaining_applies(*from, *to, *filter) && filter_text(*filter) != "week"@)
            ==> shown is Ok && text_of(shown->Ok_0) == shown_for_nothing(
            *settings,
            *from,
            *to,
            *filter,
            *format,
            include_seconds,
            plain,
            remaining,
        ),
{
    let work = match measure(settings, data, from, to, filter, include_seconds) {
        Ok(w) => w,
        Err(e) => {
            return Err(e);
        },
    };
    let mut left: Option<i64> = None;
    if remaining {
        if !can_show_remaining(from, to, filter) {
            return Ok(None);
        }
        match minutes_left(settings, data, filter, include_seconds, work) {
            Ok(minutes) => {
                left = Some(minutes);
            },
            Err(e) => {
                return Err(e);
            },
        }
    }
    let line = show_line(format, plain, include_seconds, work, left);
    let ghost text = line@;
    assert(shows(
        *settings,
        data@,
        *from,
        *to,
        *filter,
        *format,
        include_seconds,
        plain,
        remaining,
        work,
        int_of(left),
        text,
    ));
    let shown = Ok(Some(line));
    assert(shown matches Ok(Some(l)) && l@ == text);
    shown
}

} // verus!
