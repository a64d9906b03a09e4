//! The duration aggregator: pairs the starts and stops of a day, sums the
//! worked time, and takes off the part of the minimum break that was not
//! logged.

use vstd::prelude::*;
use crate::clock::current_instant;
use crate::days::{day_runs, get_data_as_days, joined, lemma_day_runs_cover, run_views, zone_days};
use crate::event::{
    int_of, read_instant, truncate_to_minute, valid_instant, well_formed_log, TrackingEvent,
};
use crate::settings::{Settings, Weekday};
use crate::text::same_text;

verus! {

/// Longest span of time, in seconds, that a sum of worked time may reach
/// in either direction.
pub const MAX_DURATION: i64 = 9_223_372_036_854_775;

/// The sum of two spans, or `None` where it passes the longest span.
pub open spec fn checked_sum(a: int, b: int) -> Option<int> {
    if -MAX_DURATION <= a + b <= MAX_DURATION {
        Some(a + b)
    } else {
        None
    }
}

/// The sum of two spans, or `None` where it passes the longest span.
pub fn checked_add(a: i64, b: i64) -> (sum: Option<i64>)
    ensures
        match sum {
            Some(s) => checked_sum(a as int, b as int) == Some(s as int),
            None => checked_sum(a as int, b as int) is None,
        },
{
    let wide: i128 = a as i128 + b as i128;
    if wide < -(MAX_DURATION as i128) || wide > MAX_DURATION as i128 {
        None
    } else {
        Some(wide as i64)
    }
}

/// The place of the first start (or, with `start` unset, the first stop)
/// of the run at or after `from`; the length of the run where there is
/// none.
pub open spec fn next_of(run: Seq<TrackingEvent>, from: int, start: bool) -> int
    decreases run.len() - from,
{
    if from >= run.len() {
        run.len() as int
    } else if (run[from] is Start) == start {
        from
    } else {
        next_of(run, from + 1, start)
    }
}

/// What the pairing has found so far: the time worked, the instant of the
/// first start, and the instant at which the last pair ended.
pub struct Tally {
    pub work: int,
    pub first: Option<int>,
    pub last: Option<int>,
}

/// The tally of an untouched day.
pub open spec fn empty_tally() -> Tally {
    Tally { work: 0, first: None, last: None }
}

/// The first instant of a tally, or the given one where it has none yet.
pub open spec fn first_or(tally: Tally, begin: int) -> Option<int> {
    match tally.first {
        Some(f) => Some(f),
        None => Some(begin),
    }
}

/// Pairs the events of a run from the place `from` on. The next start is
/// taken, then the next stop after it, and the time between them is added
/// to the tally; this repeats until no start is left. A start that no stop
/// follows is paired with `now` and ends the pairing. Instants are read
/// with or without their seconds, `now` too. `None` where a sum passes the
/// longest span.
pub open spec fn pair_up(
    run: Seq<TrackingEvent>,
    from: int,
    include_seconds: bool,
    now: int,
    tally: Tally,
) -> Option<Tally>
    decreases run.len() - from,
    via pair_up_decreases
{
    let s = next_of(run, from, true);
    if from < 0 || s >= run.len() {
        Some(tally)
    } else {
        let begin = read_instant(run[s].instant(), include_seconds);
        let p = next_of(run, s + 1, false);
        if p >= run.len() {
            let end = read_instant(now, include_seconds);
            match checked_sum(tally.work, end - begin) {
                Some(w) => Some(Tally { work: w, first: first_or(tally, begin), last: Some(end) }),
                None => None,
            }
        } else {
            let end = read_instant(run[p].instant(), include_seconds);
            match checked_sum(tally.work, end - begin) {
                Some(w) => pair_up(
                    run,
                    p + 1,
                    include_seconds,
                    now,
                    Tally { work: w, first: first_or(tally, begin), last: Some(end) },
                ),
                None => None,
            }
        }
    }
}

#[via_fn]
proof fn pair_up_decreases(
    run: Seq<TrackingEvent>,
    from: int,
    include_seconds: bool,
    now: int,
    tally: Tally,
) {
    if from >= 0 {
        lemma_next_of(run, from, true);
        lemma_next_of(run, next_of(run, from, true) + 1, false);
    }
}

/// The next event of a kind stands at or after the place where the search
/// began, is of that kind, and no event of that kind stands in between.
pub proof fn lemma_next_of(run: Seq<TrackingEvent>, from: int, start: bool)
    requires
        0 <= from,
    ensures
        next_of(run, from, start) <= run.len(),
        from <= run.len() ==> from <= next_of(run, from, start),
        next_of(run, from, start) < run.len() ==> (run[next_of(run, from, start)] is Start)
            == start,
        forall|i: int|
            from <= i < next_of(run, from, start) ==> ((#[trigger] run[i]) is Start) != start,
    decreases run.len() - from,
{
    if from < run.len() && (run[from] is Start) != start {
        lemma_next_of(run, from + 1, start);
    }
}

/// The time between the first start of a day and the end of its last pair.
pub open spec fn span_of(tally: Tally) -> int {
    match (tally.first, tally.last) {
        (Some(f), Some(l)) => l - f,
        _ => 0,
    }
}

/// The seconds that are taken off a day for a pause of the given length,
/// with a minimum break of `min_break` minutes: where the pause is longer
/// than nothing and shorter than the minimum, what it lacks.
pub open spec fn deduction(pause: int, min_break: int) -> int {
    if min_break > 0 && 0 < pause < min_break * 60 {
        min_break * 60 - pause
    } else {
        0
    }
}

/// The worked time of a tally once the break rule is applied: the time
/// worked less the deduction for its pause, and never less than nothing.
pub open spec fn with_break(tally: Tally, min_break: int) -> int {
    let pause = span_of(tally) - tally.work;
    let work = tally.work - deduction(pause, min_break);
    if work < 0 {
        0
    } else {
        work
    }
}

/// The worked time of one day-run in seconds, at the instant `now`.
pub open spec fn day_time(
    run: Seq<TrackingEvent>,
    min_break: int,
    include_seconds: bool,
    now: int,
) -> Option<int> {
    match pair_up(run, 0, include_seconds, now, empty_tally()) {
        Some(tally) => Some(with_break(tally, min_break)),
        None => None,
    }
}

/// The worked time of the day-runs from `acc` on, each day added with a
/// check.
pub open spec fn total_time(
    runs: Seq<Seq<TrackingEvent>>,
    min_break: int,
    include_seconds: bool,
    now: int,
    acc: int,
) -> Option<int>
    decreases runs.len(),
{
    if runs.len() == 0 {
        Some(acc)
    } else {
        match day_time(runs[0], min_break, include_seconds, now) {
            Some(t) => match checked_sum(acc, t) {
                Some(a) => total_time(runs.drop_first(), min_break, include_seconds, now, a),
                None => None,
            },
            None => None,
        }
    }
}

/// A longer minimum break never takes off less for the same pause.
pub proof fn lemma_deduction_grows(pause: int, shorter: int, longer: int)
    requires
        0 < pause < shorter * 60,
        shorter <= longer,
    ensures
        deduction(pause, shorter) <= deduction(pause, longer),
        deduction(pause, shorter) == shorter * 60 - pause,
{
}

/// The break rule never drives worked time below nothing, and never adds
/// to it.
pub proof fn lemma_break_keeps_bounds(tally: Tally, min_break: int)
    ensures
        with_break(tally, min_break) >= 0,
        tally.work >= 0 ==> with_break(tally, min_break) <= tally.work,
{
}

/// A day that holds one start and nothing else counts the time from that
/// start to now, read without seconds where they are left out; nothing
/// where the start lies after now.
pub proof fn lemma_lone_start(e: TrackingEvent, min_break: int, include_seconds: bool, now: int)
    requires
        e is Start,
        e.well_formed(),
        valid_instant(now),
    ensures
        day_time(seq![e], min_break, include_seconds, now) == Some(
            if read_instant(now, include_seconds) >= read_instant(e.instant(), include_seconds) {
                read_instant(now, include_seconds) - read_instant(e.instant(), include_seconds)
            } else {
                0
            },
        ),
{
    reveal_with_fuel(next_of, 3);
}

/// The place of the next start or stop of the run at or after `from`.
pub fn find_next(run: &[TrackingEvent], from: usize, start: bool) -> (found: usize)
    ensures
        found == next_of(run@, from as int, start),
        from <= found || found == run@.len(),
        found <= run@.len(),
        found < run@.len() ==> (run@[found as int] is Start) == start,
{
    let mut i: usize = from;
    while i < run.len() && run[i].is_start() != start
        invariant
            next_of(run@, from as int, start) == next_of(run@, i as int, start),
            from <= i,
        decreases run.len() - i,
    {
        i += 1;
    }
    if i < run.len() {
        i
    } else {
        run.len()
    }
}

/// The worked time after the break rule, from the numbers of a tally.
fn apply_break(work: i64, first: Option<i64>, last: Option<i64>, min_break: u8) -> (left: i64)
    requires
        -MAX_DURATION <= work <= MAX_DURATION,
        first matches Some(f) ==> -9_000_000_000_000 <= f <= 9_000_000_000_000,
        last matches Some(l) ==> -9_000_000_000_000 <= l <= 9_000_000_000_000,
    ensures
        left == with_break(
            Tally { work: work as int, first: int_of(first), last: int_of(last) },
            min_break as int,
        ),
        0 <= left <= MAX_DURATION,
{
    let span: i64 = match (first, last) {
        (Some(f), Some(l)) => l - f,
        _ => 0,
    };
    let pause: i64 = span - work;
    let least: i64 = min_break as i64 * 60;
    let mut left: i64 = work;
    if min_break > 0 && pause > 0 && pause < least {
        left = work - (least - pause);
    }
    if left < 0 {
        0
    } else {
        left
    }
}

/// The worked time of one day-run in seconds, at the instant `now`. The
/// events are paired in their order, a start with the next stop; a start
/// that no stop follows counts up to `now`. Without `include_seconds` every
/// instant is read with its seconds set to zero, `now` too. A pause that is
/// shorter than the minimum daily break is filled up at the cost of the
/// worked time, which never falls below nothing. `None` where a sum passes
/// the longest span; this is the test to make before `get_time_from_day`.
pub fn checked_time_from_day(
    settings: &Settings,
    data: &[TrackingEvent],
    include_seconds: bool,
    now: i64,
) -> (time: Option<i64>)
    requires
        valid_instant(now as int),
    ensures
        int_of(time) == day_time(
            data@,
            settings.min_daily_break as int,
            include_seconds,
            now as int,
        ),
        time matches Some(t) ==> 0 <= t <= MAX_DURATION,
{
    let end_of_open: i64 = if include_seconds {
        now
    } else {
        truncate_to_minute(now)
    };
    let mut work: i64 = 0;
    let mut first: Option<i64> = None;
    let mut last: Option<i64> = None;
    let mut from: usize = 0;
    loop
        invariant_except_break
            pair_up(
                data@,
                from as int,
                include_seconds,
                now as int,
                Tally { work: work as int, first: int_of(first), last: int_of(last) },
            ) == pair_up(data@, 0, include_seconds, now as int, empty_tally()),
        invariant
            from <= data@.len(),
            valid_instant(now as int),
            end_of_open == read_instant(now as int, include_seconds),
            -MAX_DURATION <= work <= MAX_DURATION,
            first matches Some(f) ==> -9_000_000_000_000 <= f <= 9_000_000_000_000,
            last matches Some(l) ==> -9_000_000_000_000 <= l <= 9_000_000_000_000,
        ensures
            -MAX_DURATION <= work <= MAX_DURATION,
            first matches Some(f) ==> -9_000_000_000_000 <= f <= 9_000_000_000_000,
            last matches Some(l) ==> -9_000_000_000_000 <= l <= 9_000_000_000_000,
            pair_up(data@, 0, include_seconds, now as int, empty_tally()) == Some(
                Tally { work: work as int, first: int_of(first), last: int_of(last) },
            ),
        decreases data@.len() - from,
    {
        let s = find_next(data, from, true);
        if s >= data.len() {
            break;
        }
        let begin = data[s].time(include_seconds);
        let p = find_next(data, s + 1, false);
        let open = p >= data.len();
        let end = if open {
            end_of_open
        } else {
            data[p].time(include_seconds)
        };
        let sum = match checked_add(work, end - begin) {
            Some(w) => w,
            None => {
                return None;
            },
        };
        work = sum;
        if first.is_none() {
            first = Some(begin);
        }
        last = Some(end);
        if open {
            break;
        }
        from = p + 1;
    }
    Some(apply_break(work, first, last, settings.min_daily_break))
}

/// The worked time of one day-run in seconds, at the instant `now`, for a
/// day whose sums stay within the longest span. A day that passes it is a
/// fault of the log that no caller is to bring here; `checked_time_from_day`
/// tells whether it does.
pub fn get_time_from_day(
    settings: &Settings,
    data: &[TrackingEvent],
    include_seconds: bool,
    now: i64,
) -> (time: i64)
    requires
        valid_instant(now as int),
        day_time(data@, settings.min_daily_break as int, include_seconds, now as int) is Some,
    ensures
        Some(time as int) == day_time(
            data@,
            settings.min_daily_break as int,
            include_seconds,
            now as int,
        ),
        0 <= time <= MAX_DURATION,
{
    checked_time_from_day(settings, data, include_seconds, now).unwrap()
}

/// The worked time of a list of day-runs in seconds, at the instant `now`:
/// the sum of the days, each added with a check. `None` where a sum passes
/// the longest span; this is the test to make before `worked_time`.
pub fn checked_worked_time(
    settings: &Settings,
    days: &[Vec<TrackingEvent>],
    include_seconds: bool,
    now: i64,
) -> (time: Option<i64>)
    requires
        valid_instant(now as int),
    ensures
        int_of(time) == total_time(
            run_views(days@),
            settings.min_daily_break as int,
            include_seconds,
            now as int,
            0,
        ),
        time matches Some(t) ==> 0 <= t <= MAX_DURATION,
{
    let ghost runs = run_views(days@);
    let ghost least = settings.min_daily_break as int;
    let mut time: i64 = 0;
    let mut i: usize = 0;
    proof {
        assert(runs.skip(0) =~= runs);
    }
    while i < days.len()
        invariant
            i <= days@.len(),
            valid_instant(now as int),
            runs == run_views(days@),
            least == settings.min_daily_break as int,
            0 <= time <= MAX_DURATION,
            total_time(runs.skip(i as int), least, include_seconds, now as int, time as int)
                == total_time(runs, least, include_seconds, now as int, 0),
        decreases days.len() - i,
    {
        proof {
            let open = runs.skip(i as int);
            assert(open.drop_first() =~= runs.skip(i + 1));
        }
        let day = match checked_time_from_day(settings, days[i].as_slice(), include_seconds, now) {
            Some(t) => t,
            None => {
                return None;
            },
        };
        time = match checked_add(time, day) {
            Some(t) => t,
            None => {
                return None;
            },
        };
        i += 1;
    }
    Some(time)
}

/// The worked time of a list of day-runs in seconds, at the instant `now`,
/// for days whose sums stay within the longest span. `checked_worked_time`
/// tells whether they do.
pub fn worked_time(
    settings: &Settings,
    days: &[Vec<TrackingEvent>],
    include_seconds: bool,
    now: i64,
) -> (time: i64)
    requires
        valid_instant(now as int),
        total_time(
            run_views(days@),
            settings.min_daily_break as int,
            include_seconds,
            now as int,
            0,
        ) is Some,
    ensures
        Some(time as int) == total_time(
            run_views(days@),
            settings.min_daily_break as int,
            include_seconds,
            now as int,
            0,
        ),
        0 <= time <= MAX_DURATION,
{
    checked_worked_time(settings, days, include_seconds, now).unwrap()
}

/// Why the worked time of a log could not be told.
#[derive(Debug, Clone, Copy, PartialEq, Eq, Structural)]
pub enum WorkTimeError {
    /// A sum of worked time passes the longest span.
    Overflow,
    /// The system clock shows a time that events cannot carry.
    Clock,
}

/// Whether `time` is what the log comes to at the instant `now`, with
/// `days` as the calendar days of its events: the sum of its day-runs, or
/// an overflow where that sum passes the longest span.
pub open spec fn sums_to(
    log: Seq<TrackingEvent>,
    min_break: int,
    include_seconds: bool,
    now: int,
    days: Seq<i64>,
    time: Result<i64, WorkTimeError>,
) -> bool {
    &&& valid_instant(now)
    &&& zone_days(log, days)
    &&& match total_time(day_runs(log, days), min_break, include_seconds, now, 0) {
        Some(t) => time matches Ok(found) && found == t,
        None => time == Err::<i64, WorkTimeError>(WorkTimeError::Overflow),
    }
}

/// The worked time of the log in seconds, as of now: the log is cut into
/// day-runs by the calendar of the machine's zone, and the worked times of
/// the days are added with a check. The log has to be in the order of
/// time, as the filter hands it out. An empty log comes to nothing, and
/// the clock is not read for it; for any other log the error says so where
/// the clock cannot be used.
pub fn checked_time_from_events(
    settings: &Settings,
    data: &[TrackingEvent],
    include_seconds: bool,
) -> (time: Result<i64, WorkTimeError>)
    ensures
        time matches Ok(t) ==> 0 <= t <= MAX_DURATION,
        time == Err::<i64, WorkTimeError>(WorkTimeError::Clock) || exists|
            now: int,
            days: Seq<i64>,
        | #[trigger]
            sums_to(data@, settings.min_daily_break as int, include_seconds, now, days, time),
        data@.len() == 0 ==> time == Ok::<i64, WorkTimeError>(0),
        time is Err ==> data@.len() > 0,
{
    if data.len() == 0 {
        proof {
            let none = Seq::<i64>::empty();
            assert(day_runs(data@, none) =~= Seq::<Seq<TrackingEvent>>::empty());
            assert(sums_to(
                data@,
                settings.min_daily_break as int,
                include_seconds,
                0,
                none,
                Ok(0),
            ));
        }
        return Ok(0);
    }
    let now = match current_instant() {
        Some(t) => t,
        None => {
            return Err(WorkTimeError::Clock);
        },
    };
    let days = get_data_as_days(data);
    let time = match checked_worked_time(settings, days.as_slice(), include_seconds, now) {
        Some(t) => Ok(t),
        None => Err(WorkTimeError::Overflow),
    };
    proof {
        let keys = choose|keys: Seq<i64>| #[trigger]
            zone_days(data@, keys) && run_views(days@) == day_runs(data@, keys);
        assert(sums_to(
            data@,
            settings.min_daily_break as int,
            include_seconds,
            now as int,
            keys,
            time,
        ));
    }
    time
}

/// Whether the worked time of the log stays within the longest span, at
/// whatever instant it is told and on whatever calendar days a zone puts
/// its events.
pub open spec fn sum_fits(log: Seq<TrackingEvent>, min_break: int, include_seconds: bool) -> bool {
    forall|now: int, days: Seq<i64>|
        valid_instant(now) && zone_days(log, days) ==> (#[trigger] total_time(
            day_runs(log, days),
            min_break,
            include_seconds,
            now,
            0,
        )) is Some
}

/// Most events of a log whose worked time is sure to stay within the
/// longest span: each pair of them adds less than 16 400 000 000 060
/// seconds, the longest time between two instants read with or without
/// seconds.
pub const SURE_TO_FIT: usize = 500;

/// Pairing the rest of a run keeps the time worked within what the events
/// that are left can add.
proof fn lemma_pair_up_fits(
    run: Seq<TrackingEvent>,
    from: int,
    include_seconds: bool,
    now: int,
    tally: Tally,
)
    requires
        0 <= from <= run.len(),
        well_formed_log(run),
        valid_instant(now),
        -MAX_DURATION <= tally.work - (run.len() - from) * 16_400_000_000_060,
        tally.work + (run.len() - from) * 16_400_000_000_060 <= MAX_DURATION,
    ensures
        pair_up(run, from, include_seconds, now, tally) matches Some(t) && tally.work - (run.len()
            - from) * 16_400_000_000_060 <= t.work <= tally.work + (run.len() - from)
            * 16_400_000_000_060,
    decreases run.len() - from,
{
    lemma_next_of(run, from, true);
    let s = next_of(run, from, true);
    if s < run.len() {
        lemma_next_of(run, s + 1, false);
        let p = next_of(run, s + 1, false);
        let begin = read_instant(run[s].instant(), include_seconds);
        assert(run[s].well_formed());
        if p < run.len() {
            assert(run[p].well_formed());
            let end = read_instant(run[p].instant(), include_seconds);
            let w = tally.work + (end - begin);
            lemma_pair_up_fits(
                run,
                p + 1,
                include_seconds,
                now,
                Tally { work: w, first: first_or(tally, begin), last: Some(end) },
            );
        }
    }
}

/// A day of well-formed events fits where its events cannot add up to
/// more than the longest span.
proof fn lemma_day_fits(run: Seq<TrackingEvent>, min_break: int, include_seconds: bool, now: int)
    requires
        well_formed_log(run),
        valid_instant(now),
        run.len() * 16_400_000_000_060 <= MAX_DURATION,
    ensures
        day_time(run, min_break, include_seconds, now) matches Some(t) && 0 <= t <= run.len()
            * 16_400_000_000_060,
{
    lemma_pair_up_fits(run, 0, include_seconds, now, empty_tally());
}

/// The days of well-formed events fit where all their events together
/// cannot add up to more than the longest span.
proof fn lemma_total_fits(
    runs: Seq<Seq<TrackingEvent>>,
    min_break: int,
    include_seconds: bool,
    now: int,
    acc: int,
)
    requires
        well_formed_log(joined(runs)),
        valid_instant(now),
        0 <= acc,
        acc + joined(runs).len() * 16_400_000_000_060 <= MAX_DURATION,
    ensures
        total_time(runs, min_break, include_seconds, now, acc) is Some,
    decreases runs.len(),
{
    if runs.len() > 0 {
        let first = runs[0];
        let rest = runs.drop_first();
        let all = joined(runs);
        assert(all == first + joined(rest));
        assert forall|i: int| 0 <= i < first.len() implies (#[trigger] first[i]).well_formed() by {
            assert(all[i] == first[i]);
        }
        assert forall|i: int| 0 <= i < joined(rest).len() implies (#[trigger] joined(
            rest,
        )[i]).well_formed() by {
            assert(all[first.len() + i] == joined(rest)[i]);
        }
        lemma_day_fits(first, min_break, include_seconds, now);
        let t = day_time(first, min_break, include_seconds, now)->0;
        lemma_total_fits(rest, min_break, include_seconds, now, acc + t);
    }
}

/// The worked time of a log of well-formed events that holds no more than
/// `SURE_TO_FIT` of them stays within the longest span.
pub proof fn lemma_short_log_fits(log: Seq<TrackingEvent>, min_break: int, include_seconds: bool)
    requires
        well_formed_log(log),
        log.len() <= SURE_TO_FIT,
    ensures
        sum_fits(log, min_break, include_seconds),
{
    assert forall|now: int, days: Seq<i64>| valid_instant(now) && zone_days(log, days) implies (
    #[trigger] total_time(day_runs(log, days), min_break, include_seconds, now, 0)) is Some by {
        lemma_day_runs_cover(log, days);
        lemma_total_fits(day_runs(log, days), min_break, include_seconds, now, 0);
    }
}

/// Tells of a log, by the number of its events alone, whether its worked
/// time is sure to stay within the longest span, whatever the settings
/// are: it is for a log of no more than `SURE_TO_FIT` events. For a longer
/// log `checked_time_from_events` makes the full test.
pub fn sure_to_fit(data: &[TrackingEvent]) -> (sure: bool)
    ensures
        sure == (data@.len() <= SURE_TO_FIT),
        sure ==> forall|min_break: int, include_seconds: bool| #[trigger]
            sum_fits(data@, min_break, include_seconds),
{
    if data.len() > SURE_TO_FIT {
        return false;
    }
    let mut i: usize = 0;
    while i < data.len()
        invariant
            i <= data@.len(),
            forall|k: int| 0 <= k < i ==> (#[trigger] data@[k]).well_formed(),
        decreases data.len() - i,
    {
        let _ = data[i].time(true);
        i += 1;
    }
    proof {
        assert forall|min_break: int, include_seconds: bool| #[trigger]
            sum_fits(data@, min_break, include_seconds) by {
            lemma_short_log_fits(data@, min_break, include_seconds);
        }
    }
    true
}

/// The worked time of the log in seconds, as of now, for a log whose
/// worked time stays within the longest span. A log that passes it is
/// corrupted, and no caller is to bring it here; `checked_time_from_events`
/// tells whether it does. An empty log comes to nothing without a look at
/// the clock; `None` where the clock is needed and cannot be used.
pub fn get_time_from_events(
    settings: &Settings,
    data: &[TrackingEvent],
    include_seconds: bool,
) -> (time: Option<i64>)
    requires
        sum_fits(data@, settings.min_daily_break as int, include_seconds),
    ensures
        time matches Some(t) ==> 0 <= t <= MAX_DURATION && exists|now: int, days: Seq<i64>|
            #[trigger] sums_to(
                data@,
                settings.min_daily_break as int,
                include_seconds,
                now,
                days,
                Ok(t),
            ),
        data@.len() == 0 ==> time == Some(0i64),
        time is None ==> data@.len() > 0,
{
    let time = checked_time_from_events(settings, data, include_seconds);
    match time {
        Ok(t) => Some(t),
        Err(e) => {
            proof {
                if e == WorkTimeError::Overflow {
                    let (now, days) = choose|now: int, days: Seq<i64>| #[trigger]
                        sums_to(
                            data@,
                            settings.min_daily_break as int,
                            include_seconds,
                            now,
                            days,
                            time,
                        );
                    assert(total_time(
                        day_runs(data@, days),
                        settings.min_daily_break as int,
                        include_seconds,
                        now,
                        0,
                    ) is Some);
                }
            }
            None
        },
    }
}

/// The whole part of `a / b`, rounded toward zero.
pub open spec fn toward_zero(a: int, b: int) -> int {
    if a >= 0 {
        a / b
    } else {
        -((-a) / b)
    }
}

/// Splits a span of seconds into whole hours, the whole minutes beside
/// them, and the seconds beside those. The parts of a negative span are
/// negative or zero.
pub fn split_duration(duration: i64) -> (parts: (i64, i64, i64))
    ensures
        parts.0 == toward_zero(duration as int, 3600),
        parts.1 == toward_zero(duration as int, 60) - parts.0 * 60,
        parts.2 == duration - parts.0 * 3600 - parts.1 * 60,
        duration >= 0 ==> 0 <= parts.0 && 0 <= parts.1 < 60 && 0 <= parts.2 < 60,
        duration <= 0 ==> parts.0 <= 0 && -60 < parts.1 <= 0 && -60 < parts.2 <= 0,
{
    let hours: i64 = duration / 3600;
    let minutes: i64 = duration / 60 - hours * 60;
    let seconds: i64 = duration - hours * 3600 - minutes * 60;
    (hours, minutes, seconds)
}

/// Whether the filter names the week, so that the weekly goal counts.
pub open spec fn weekly(filter: Seq<char>) -> bool {
    filter == "week"@
}

/// The minutes of the goal that a filter is held against: the weekly goal
/// for the filter `week`, the daily goal for any other.
pub open spec fn goal_minutes(settings: Settings, filter: Seq<char>) -> int {
    if weekly(filter) {
        settings.time_goal.weekly.spec_total_minutes()
    } else {
        settings.time_goal.daily.spec_total_minutes()
    }
}

/// The minutes that are left to the goal after the given hours and minutes
/// of work. The number is negative where the goal is passed.
pub open spec fn remaining_minutes(
    settings: Settings,
    filter: Seq<char>,
    hours: int,
    minutes: int,
) -> int {
    goal_minutes(settings, filter) - (minutes + hours * 60)
}

/// The minutes that are left to the goal after the given hours and minutes
/// of work.
pub fn get_remaining_minutes(settings: &Settings, filter: &str, hours: i64, minutes: i64) -> (left:
    i64)
    requires
        i64::MIN <= remaining_minutes(*settings, filter@, hours as int, minutes as int)
            <= i64::MAX,
    ensures
        left == remaining_minutes(*settings, filter@, hours as int, minutes as int),
{
    let goal = if same_text(filter, "week") {
        settings.time_goal.weekly.total_minutes()
    } else {
        settings.time_goal.daily.total_minutes()
    };
    let wide: i128 = goal as i128 - (minutes as i128 + hours as i128 * 60);
    wide as i64
}

/// The minutes that are shown as left: on the last day of the work week
/// what is left of the week, on any other day the lesser of what is left
/// of the day and of the week; and never less than nothing.
pub open spec fn shown_remaining(of_day: int, of_week: int, last_day: bool) -> int {
    let left = if last_day || of_week < of_day {
        of_week
    } else {
        of_day
    };
    if left < 0 {
        0
    } else {
        left
    }
}

/// The minutes that are shown as left when no filter narrows the query,
/// from what is left of the day and of the week.
pub fn combined_remaining(settings: &Settings, of_day: i64, of_week: i64, today: Weekday) -> (left:
    i64)
    ensures
        left == shown_remaining(
            of_day as int,
            of_week as int,
            today == settings.last_day_of_work_week,
        ),
        left >= 0,
{
    let left = if today == settings.last_day_of_work_week || of_week < of_day {
        of_week
    } else {
        of_day
    };
    if left < 0 {
        0
    } else {
        left
    }
}

} // verus!
