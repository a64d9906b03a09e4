//! The time-window resolver: reads the texts that bound a query and turns
//! them into a calendar day or a wall-clock time, and resolves the window
//! of a query from them.

use vstd::prelude::*;
use vstd::string::StringExecFns;
use crate::clock::{
    current_instant, day_of, local_day, local_wall_time, parse_date, parse_date_time_text,
    parse_time, parsed_date, parsed_date_time, parsed_time, valid_day, wall_day,
    zone_instant_of, DAY_SECONDS,
};
use crate::event::{valid_instant, MAX_INSTANT, MIN_INSTANT};
use crate::settings::Weekday;
use crate::text::{same_text, text_of};

verus! {

/// A bound of a query: a calendar day, in days since the epoch's day, or a
/// wall-clock time, in the seconds that the epoch's wall clock would have
/// counted up to it.
#[derive(Debug, Clone, Copy, PartialEq, Eq, Structural)]
pub enum DateOrDateTime {
    Date(i64),
    DateTime(i64),
}

/// Why a window could not be resolved.
#[derive(Debug, Clone, Copy, PartialEq, Eq, Structural)]
pub enum ResolveError {
    /// A text is in none of the accepted forms, or names a time that the
    /// machine's zone does not show exactly once.
    Parse,
    /// The system clock shows a time that events cannot carry.
    Clock,
    /// A bound names a wall-clock time that the machine's zone does not
    /// show exactly once.
    LocalTime,
}

/// Days between the Monday of its week and the given day. The epoch's day
/// was a Thursday.
pub open spec fn weekday_index(day: int) -> int {
    (day + 3) % 7
}

/// Days between the Monday of its week and the given day.
pub fn days_from_monday(day: i64) -> (index: i64)
    requires
        valid_day(day as int),
    ensures
        index == weekday_index(day as int),
        0 <= index < 7,
{
    let rest: i64 = (day + 3) % 7;
    if rest < 0 {
        rest + 7
    } else {
        rest
    }
}

/// The day of the week on which the given day falls.
pub fn weekday_of(day: i64) -> (weekday: Weekday)
    requires
        valid_day(day as int),
    ensures
        weekday.spec_days_from_monday() == weekday_index(day as int),
{
    let index = days_from_monday(day);
    if index == 0 {
        Weekday::Mon
    } else if index == 1 {
        Weekday::Tue
    } else if index == 2 {
        Weekday::Wed
    } else if index == 3 {
        Weekday::Thu
    } else if index == 4 {
        Weekday::Fri
    } else if index == 5 {
        Weekday::Sat
    } else {
        Weekday::Sun
    }
}

/// The Monday and the Sunday of the week that holds `today`.
pub open spec fn week_of(today: int) -> (int, int) {
    (today - weekday_index(today), today + 6 - weekday_index(today))
}

/// The form in which a time of day is read.
pub open spec fn time_format() -> Seq<char> {
    "%H:%M:%S"@
}

/// The form in which a calendar day is read.
pub open spec fn date_format() -> Seq<char> {
    "%Y-%m-%d"@
}

/// The form in which a day with a time is read.
pub open spec fn date_time_format() -> Seq<char> {
    "%Y-%m-%d %H:%M:%S"@
}

/// The text with its seconds spelled out as zero.
pub open spec fn with_seconds(text: Seq<char>) -> Seq<char> {
    text + ":0"@
}

/// The text with its minutes and seconds spelled out as zero.
pub open spec fn with_minutes_and_seconds(text: Seq<char>) -> Seq<char> {
    text + ":0:0"@
}

/// The time of day that the text names, in seconds since midnight: the text
/// read as hours, minutes and seconds; failing that, with seconds of zero
/// added; failing that, with minutes and seconds of zero added.
pub open spec fn spec_time_of_day(text: Seq<char>) -> Option<u32> {
    if parsed_time(text, time_format()) is Some {
        parsed_time(text, time_format())
    } else if parsed_time(with_seconds(text), time_format()) is Some {
        parsed_time(with_seconds(text), time_format())
    } else {
        parsed_time(with_minutes_and_seconds(text), time_format())
    }
}

/// The wall-clock times that the text may name, in the order in which they
/// are tried: its time of day on the day `today`; then the text read as a
/// day with a time, as it stands, with seconds added, and with minutes and
/// seconds added.
pub open spec fn spec_wall_time_candidates(text: Seq<char>, today: int) -> Seq<int> {
    let by_time: Seq<int> = match spec_time_of_day(text) {
        Some(s) => seq![today * DAY_SECONDS + s],
        None => seq![],
    };
    let full: Seq<int> = match parsed_date_time(text, date_time_format()) {
        Some(w) => seq![w as int],
        None => seq![],
    };
    let minutes: Seq<int> = match parsed_date_time(with_seconds(text), date_time_format()) {
        Some(w) => seq![w as int],
        None => seq![],
    };
    let hours: Seq<int> = match parsed_date_time(
        with_minutes_and_seconds(text),
        date_time_format(),
    ) {
        Some(w) => seq![w as int],
        None => seq![],
    };
    by_time + full + minutes + hours
}

/// A short form names the time of day that its completed form names: a
/// text that is read only once seconds are added names what the text with
/// those seconds names, and a text that is read only once minutes and
/// seconds are added names what the text with both names. A text in the
/// full form names what it is read as.
pub proof fn lemma_short_forms(text: Seq<char>)
    ensures
        parsed_time(text, time_format()) is Some ==> spec_time_of_day(text) == parsed_time(
            text,
            time_format(),
        ),
        parsed_time(text, time_format()) is None && parsed_time(
            with_seconds(text),
            time_format(),
        ) is Some ==> spec_time_of_day(text) == spec_time_of_day(with_seconds(text)),
        parsed_time(text, time_format()) is None && parsed_time(
            with_seconds(text),
            time_format(),
        ) is None && parsed_time(with_minutes_and_seconds(text), time_format()) is Some
            ==> spec_time_of_day(text) == spec_time_of_day(with_minutes_and_seconds(text)),
{
}

/// Texts that name one time of day are read as one wall-clock time on one
/// day: the first candidate of either is that time of day on the day
/// `today`.
pub proof fn lemma_same_time_same_candidate(a: Seq<char>, b: Seq<char>, today: int)
    requires
        spec_time_of_day(a) is Some,
        spec_time_of_day(a) == spec_time_of_day(b),
    ensures
        spec_wall_time_candidates(a, today).len() > 0,
        spec_wall_time_candidates(b, today).len() > 0,
        spec_wall_time_candidates(a, today)[0] == spec_wall_time_candidates(b, today)[0],
        spec_wall_time_candidates(a, today)[0] == today * DAY_SECONDS + spec_time_of_day(a)->0,
{
}

/// The text with `tail` added to its end.
fn extended(text: &str, tail: &str) -> (longer: String)
    ensures
        longer@ == text@ + tail@,
{
    let mut longer = text.to_owned();
    longer.append(tail);
    longer
}

/// The time of day that the text names, in seconds since midnight. The
/// shorter forms `HH:MM` and `HH` are read as the full form with zeros in
/// the places left out.
pub fn time_of_day(text: &str) -> (seconds: Option<u32>)
    ensures
        seconds == spec_time_of_day(text@),
        seconds matches Some(s) ==> s < 86_400,
{
    let full = parse_time(text, "%H:%M:%S");
    if full.is_some() {
        return full;
    }
    let minutes = parse_time(extended(text, ":0").as_str(), "%H:%M:%S");
    if minutes.is_some() {
        return minutes;
    }
    parse_time(extended(text, ":0:0").as_str(), "%H:%M:%S")
}

/// Builds the candidates of a text from its time of day, read before.
fn candidates_from(time: Option<u32>, text: &str, today: i64) -> (candidates: Vec<i64>)
    requires
        valid_day(today as int),
        time == spec_time_of_day(text@),
        time matches Some(s) ==> s < 86_400,
    ensures
        candidates@.map_values(|w: i64| w as int) == spec_wall_time_candidates(
            text@,
            today as int,
        ),
{
    let mut candidates: Vec<i64> = Vec::new();
    match time {
        Some(s) => {
            candidates.push(today * DAY_SECONDS + s as i64);
        },
        None => {},
    }
    match parse_date_time_text(text, "%Y-%m-%d %H:%M:%S") {
        Some(w) => {
            candidates.push(w);
        },
        None => {},
    }
    match parse_date_time_text(extended(text, ":0").as_str(), "%Y-%m-%d %H:%M:%S") {
        Some(w) => {
            candidates.push(w);
        },
        None => {},
    }
    match parse_date_time_text(extended(text, ":0:0").as_str(), "%Y-%m-%d %H:%M:%S") {
        Some(w) => {
            candidates.push(w);
        },
        None => {},
    }
    candidates
}

/// The wall-clock times that the text may name, in the order in which they
/// are tried.
pub fn wall_time_candidates(text: &str, today: i64) -> (candidates: Vec<i64>)
    requires
        valid_day(today as int),
    ensures
        candidates@.map_values(|w: i64| w as int) == spec_wall_time_candidates(
            text@,
            today as int,
        ),
{
    candidates_from(time_of_day(text), text, today)
}

/// Whether the text names no time at all: it is neither a time of day nor
/// a day with a time, in any of the forms that are tried. That does not
/// depend on the day on which it is read.
pub open spec fn names_no_time(text: Seq<char>) -> bool {
    spec_wall_time_candidates(text, 0).len() == 0
}

/// A text has as many candidates on one day as on another.
pub proof fn lemma_candidates_any_day(text: Seq<char>, today: int, other: int)
    ensures
        spec_wall_time_candidates(text, today).len() == spec_wall_time_candidates(
            text,
            other,
        ).len(),
        names_no_time(text) <==> spec_wall_time_candidates(text, today).len() == 0,
        names_no_time(text) ==> spec_time_of_day(text) is None,
{
}

/// The first instant among the answers that events can carry.
pub open spec fn spec_first_instant(answers: Seq<Option<i64>>) -> Option<i64>
    decreases answers.len(),
{
    if answers.len() == 0 {
        None
    } else if answers[0] matches Some(t) && valid_instant(t as int) {
        answers[0]
    } else {
        spec_first_instant(answers.drop_first())
    }
}

/// Picks the instant of a text from what the zone answered for each of its
/// candidates: the first instant that events can carry.
pub fn first_instant(answers: &[Option<i64>]) -> (instant: Option<i64>)
    ensures
        instant == spec_first_instant(answers@),
        instant matches Some(t) ==> valid_instant(t as int),
{
    let mut i: usize = 0;
    assert(answers@.skip(0) =~= answers@);
    while i < answers.len()
        invariant
            i <= answers.len(),
            spec_first_instant(answers@) == spec_first_instant(answers@.skip(i as int)),
        decreases answers.len() - i,
    {
        let answer = answers[i];
        proof {
            let rest = answers@.skip(i as int);
            assert(rest.drop_first() =~= answers@.skip(i + 1));
        }
        match answer {
            Some(t) => {
                if MIN_INSTANT <= t && t <= MAX_INSTANT {
                    return answer;
                }
            },
            None => {},
        }
        i += 1;
    }
    None
}

/// Whether the answers are ones that a zone can give for the candidates:
/// one for each, and each instant less than a day from its wall-clock time.
pub open spec fn zone_answers(candidates: Seq<i64>, answers: Seq<Option<i64>>) -> bool {
    &&& answers.len() == candidates.len()
    &&& forall|i: int|
        0 <= i < answers.len() ==> ((#[trigger] answers[i]) matches Some(t) ==> candidates[i]
            - DAY_SECONDS < t < candidates[i] + DAY_SECONDS)
}

/// Asks the machine's zone, for each wall-clock time, at which instant it
/// shows that time. An answer is absent where it shows the time never or
/// twice.
pub fn ask_zone(candidates: &[i64]) -> (answers: Vec<Option<i64>>)
    ensures
        zone_answers(candidates@, answers@),
{
    let mut answers: Vec<Option<i64>> = Vec::new();
    let mut i: usize = 0;
    while i < candidates.len()
        invariant
            i <= candidates.len(),
            zone_answers(candidates@.take(i as int), answers@),
        decreases candidates.len() - i,
    {
        let answer = zone_instant_of(candidates[i]);
        answers.push(answer);
        i += 1;
    }
    answers
}

/// The calendar day that the machine's zone shows now.
pub fn local_today() -> (today: Option<i64>)
    ensures
        today matches Some(d) ==> valid_day(d as int),
{
    match current_instant() {
        Some(now) => Some(local_day(now)),
        None => None,
    }
}

/// Whether the result of reading a text is what the zone's answers make
/// of it on the day `today`: the first instant among the answers for the
/// candidates of the text, or a parse error where there is none.
pub open spec fn reads_as(
    text: Seq<char>,
    today: int,
    candidates: Seq<i64>,
    answers: Seq<Option<i64>>,
    instant: Result<i64, ResolveError>,
) -> bool {
    &&& valid_day(today)
    &&& candidates.map_values(|w: i64| w as int) == spec_wall_time_candidates(text, today)
    &&& zone_answers(candidates, answers)
    &&& instant == match spec_first_instant(answers) {
        Some(t) => Ok::<i64, ResolveError>(t),
        None => Err::<i64, ResolveError>(ResolveError::Parse),
    }
}

/// The instant that the text names: a time of day today, or a day with a
/// time, as the machine's zone shows it. The candidates of the text are
/// tried in their order; the first that the zone shows exactly once, at an
/// instant that events can carry, decides. The clock is read only for a
/// text that names a time of day, to learn which day is today; where it
/// cannot be used then, the error says so. A text that names no time at
/// all is a parse error, whatever the clock and the zone are.
pub fn parse_date_time(text: &str) -> (instant: Result<i64, ResolveError>)
    ensures
        instant matches Ok(t) ==> valid_instant(t as int),
        instant != Err::<i64, ResolveError>(ResolveError::LocalTime),
        instant == Err::<i64, ResolveError>(ResolveError::Clock) || exists|
            today: int,
            candidates: Seq<i64>,
            answers: Seq<Option<i64>>,
        | #[trigger] reads_as(text@, today, candidates, answers, instant),
        instant == Err::<i64, ResolveError>(ResolveError::Clock) ==> spec_time_of_day(text@)
            is Some,
        names_no_time(text@) ==> instant == Err::<i64, ResolveError>(ResolveError::Parse),
{
    let time = time_of_day(text);
    let today = match time {
        Some(_) => match local_today() {
            Some(d) => d,
            None => {
                return Err(ResolveError::Clock);
            },
        },
        None => 0,
    };
    let candidates = candidates_from(time, text, today);
    let answers = ask_zone(candidates.as_slice());
    let instant = match first_instant(answers.as_slice()) {
        Some(t) => Ok(t),
        None => Err(ResolveError::Parse),
    };
    proof {
        lemma_candidates_any_day(text@, today as int, 0);
        assert(candidates@.map_values(|w: i64| w as int).len() == candidates@.len());
        assert(reads_as(text@, today as int, candidates@, answers@, instant));
    }
    instant
}

/// What the text names as it stands, without a look at the clock or the
/// zone: a calendar day, or else a day with a time.
pub open spec fn spec_plain_bound(text: Seq<char>) -> Option<DateOrDateTime> {
    match parsed_date(text, date_format()) {
        Some(d) => Some(DateOrDateTime::Date(d)),
        None => match parsed_date_time(text, date_time_format()) {
            Some(w) => Some(DateOrDateTime::DateTime(w)),
            None => None,
        },
    }
}

/// What the text names as it stands: a calendar day, or else a day with a
/// time given to the second.
pub fn plain_bound(text: &str) -> (bound: Option<DateOrDateTime>)
    ensures
        bound == spec_plain_bound(text@),
{
    match parse_date(text, "%Y-%m-%d") {
        Some(d) => Some(DateOrDateTime::Date(d)),
        None => match parse_date_time_text(text, "%Y-%m-%d %H:%M:%S") {
            Some(w) => Some(DateOrDateTime::DateTime(w)),
            None => None,
        },
    }
}

/// Whether `bound` is what a text without a plain reading comes to, given
/// the instant that it was read as: the wall-clock time that the zone
/// shows at that instant, less than a day from it; or the error of the
/// reading.
pub open spec fn shows_instant(
    instant: Result<i64, ResolveError>,
    bound: Result<DateOrDateTime, ResolveError>,
) -> bool {
    match instant {
        Ok(t) => bound matches Ok(DateOrDateTime::DateTime(w)) && t - DAY_SECONDS < w < t
            + DAY_SECONDS,
        Err(e) => bound == Err::<DateOrDateTime, ResolveError>(e),
    }
}

/// The bound that the text names. A calendar day and a day with a time
/// given to the second are taken as they stand. Any other text is read as
/// an instant, as `parse_date_time` does, and names the wall-clock time
/// that the machine's zone shows at that instant.
pub fn parse_date_or_date_time(text: &str) -> (bound: Result<DateOrDateTime, ResolveError>)
    ensures
        bound != Err::<DateOrDateTime, ResolveError>(ResolveError::LocalTime),
        bound == Err::<DateOrDateTime, ResolveError>(ResolveError::Clock) ==> spec_plain_bound(
            text@,
        ) is None && spec_time_of_day(text@) is Some,
        spec_plain_bound(text@) is None && names_no_time(text@) ==> bound == Err::<
            DateOrDateTime,
            ResolveError,
        >(ResolveError::Parse),
        spec_plain_bound(text@) matches Some(b) ==> bound == Ok::<DateOrDateTime, ResolveError>(
            b,
        ),
        spec_plain_bound(text@) is None ==> bound == Err::<DateOrDateTime, ResolveError>(
            ResolveError::Clock,
        ) || exists|
            today: int,
            candidates: Seq<i64>,
            answers: Seq<Option<i64>>,
            instant: Result<i64, ResolveError>,
        |
            #[trigger] reads_as(text@, today, candidates, answers, instant) && shows_instant(
                instant,
                bound,
            ),
{
    match plain_bound(text) {
        Some(b) => Ok(b),
        None => {
            let instant = parse_date_time(text);
            let bound = match instant {
                Ok(t) => Ok(DateOrDateTime::DateTime(local_wall_time(t))),
                Err(e) => Err(e),
            };
            proof {
                if instant != Err::<i64, ResolveError>(ResolveError::Clock) {
                    let (today, candidates, answers) = choose|
                        today: int,
                        candidates: Seq<i64>,
                        answers: Seq<Option<i64>>,
                    | #[trigger] reads_as(text@, today, candidates, answers, instant);
                }
            }
            bound
        },
    }
}

/// The calendar day of a bound.
pub open spec fn bound_day(bound: DateOrDateTime) -> int {
    match bound {
        DateOrDateTime::Date(d) => d as int,
        DateOrDateTime::DateTime(w) => day_of(w as int),
    }
}

/// The first wall-clock second of a bound: for a day its midnight.
pub open spec fn lower_wall(bound: DateOrDateTime) -> int {
    match bound {
        DateOrDateTime::Date(d) => d * DAY_SECONDS,
        DateOrDateTime::DateTime(w) => w as int,
    }
}

/// The last wall-clock second of a bound: for a day its 23:59:59.
pub open spec fn upper_wall(bound: DateOrDateTime) -> int {
    match bound {
        DateOrDateTime::Date(d) => d * DAY_SECONDS + (DAY_SECONDS - 1),
        DateOrDateTime::DateTime(w) => w as int,
    }
}

/// The first wall-clock second of a bound; `None` where it lies beyond
/// what 64 bits count.
pub fn window_start(bound: DateOrDateTime) -> (wall: Option<i64>)
    ensures
        wall is Some <==> i64::MIN <= lower_wall(bound) <= i64::MAX,
        wall matches Some(w) ==> w == lower_wall(bound),
{
    match bound {
        DateOrDateTime::Date(d) => {
            let wide: i128 = d as i128 * 86_400;
            if wide < i64::MIN as i128 || wide > i64::MAX as i128 {
                None
            } else {
                Some(wide as i64)
            }
        },
        DateOrDateTime::DateTime(w) => Some(w),
    }
}

/// The last wall-clock second of a bound; `None` where it lies beyond what
/// 64 bits count.
pub fn window_end(bound: DateOrDateTime) -> (wall: Option<i64>)
    ensures
        wall is Some <==> i64::MIN <= upper_wall(bound) <= i64::MAX,
        wall matches Some(w) ==> w == upper_wall(bound),
{
    match bound {
        DateOrDateTime::Date(d) => {
            let wide: i128 = d as i128 * 86_400 + 86_399;
            if wide < i64::MIN as i128 || wide > i64::MAX as i128 {
                None
            } else {
                Some(wide as i64)
            }
        },
        DateOrDateTime::DateTime(w) => Some(w),
    }
}

/// The calendar day of a bound.
pub fn day_of_bound(bound: DateOrDateTime) -> (day: i64)
    ensures
        day == bound_day(bound),
{
    match bound {
        DateOrDateTime::Date(d) => d,
        DateOrDateTime::DateTime(w) => wall_day(w),
    }
}

/// A resolved query: the keyword that is left to apply, and the two bounds
/// of its window.
#[derive(Debug)]
pub struct Window {
    pub keyword: Option<String>,
    pub from: DateOrDateTime,
    pub to: DateOrDateTime,
}

/// Whether the filter asks for the current week.
pub open spec fn is_week(filter: Option<Seq<char>>) -> bool {
    filter == Some("week"@)
}

/// The keyword that is left to apply once the window is resolved: none for
/// the week filter, which only sets the window.
pub open spec fn effective_keyword(filter: Option<Seq<char>>) -> Option<Seq<char>> {
    if is_week(filter) {
        None
    } else {
        filter
    }
}

/// The lower bound of a query that is not for the week: the given one, or
/// today.
pub open spec fn resolved_from(from: Option<DateOrDateTime>, today: int) -> DateOrDateTime {
    match from {
        Some(b) => b,
        None => DateOrDateTime::Date(today as i64),
    }
}

/// The upper bound of a query that is not for the week: the given one, or
/// the day of the lower bound.
pub open spec fn resolved_to(
    from: Option<DateOrDateTime>,
    to: Option<DateOrDateTime>,
    today: int,
) -> DateOrDateTime {
    match to {
        Some(b) => b,
        None => DateOrDateTime::Date(bound_day(resolved_from(from, today)) as i64),
    }
}

/// The lower bound of the window of a query on the day `today`: for the
/// week its Monday, else the given bound or today.
pub open spec fn window_from(
    from: Option<DateOrDateTime>,
    filter: Option<Seq<char>>,
    today: int,
) -> DateOrDateTime {
    if is_week(filter) {
        DateOrDateTime::Date(week_of(today).0 as i64)
    } else {
        resolved_from(from, today)
    }
}

/// The upper bound of the window of a query on the day `today`: for the
/// week its Sunday, else the given bound or the day of the lower bound.
pub open spec fn window_to(
    from: Option<DateOrDateTime>,
    to: Option<DateOrDateTime>,
    filter: Option<Seq<char>>,
    today: int,
) -> DateOrDateTime {
    if is_week(filter) {
        DateOrDateTime::Date(week_of(today).1 as i64)
    } else {
        resolved_to(from, to, today)
    }
}

/// Whether the filter is the word `week`.
pub fn asks_for_week(filter: &Option<String>) -> (week: bool)
    ensures
        week == is_week(text_of(*filter)),
{
    match filter {
        Some(f) => same_text(f.as_str(), "week"),
        None => false,
    }
}

/// Resolves the window of a query on the day `today`. The filter `week`
/// sets the window to the Monday and the Sunday of the current week,
/// whatever bounds were given, and leaves no keyword. Otherwise the lower
/// bound is the given one or today, the upper bound the given one or the
/// day of the lower bound, and the filter stays as the keyword.
pub fn resolve_window(
    from: Option<DateOrDateTime>,
    to: Option<DateOrDateTime>,
    filter: &Option<String>,
    today: i64,
) -> (window: Window)
    requires
        valid_day(today as int),
    ensures
        text_of(window.keyword) == effective_keyword(text_of(*filter)),
        window.from == window_from(from, text_of(*filter), today as int),
        window.to == window_to(from, to, text_of(*filter), today as int),
{
    if asks_for_week(filter) {
        let offset = days_from_monday(today);
        Window {
            keyword: None,
            from: DateOrDateTime::Date(today - offset),
            to: DateOrDateTime::Date(today + (6 - offset)),
        }
    } else {
        let lower = match from {
            Some(b) => b,
            None => DateOrDateTime::Date(today),
        };
        let upper = match to {
            Some(b) => b,
            None => DateOrDateTime::Date(day_of_bound(lower)),
        };
        let keyword = match filter {
            Some(f) => Some(f.clone()),
            None => None,
        };
        Window { keyword, from: lower, to: upper }
    }
}

/// Asks the machine's zone at which instant it shows the wall-clock time.
/// `None` where the time is absent, or the zone shows it never or twice.
pub fn instant_shown(wall: Option<i64>) -> (instant: Option<i64>)
    ensures
        instant matches Some(t) ==> wall matches Some(w) && w - DAY_SECONDS < t < w
            + DAY_SECONDS,
{
    match wall {
        Some(w) => zone_instant_of(w),
        None => None,
    }
}

} // verus!
