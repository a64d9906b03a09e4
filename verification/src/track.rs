//! The decisions behind the tracking commands: whether a start, a stop or
//! a continuation is entered into the log, and what the status of the log
//! is.

use vstd::prelude::*;
use crate::clock::current_instant;
use crate::event::{int_of, valid_instant, TrackingEvent};
use crate::settings::Settings;
use crate::text::same_text;
use crate::window::{parse_date_time, reads_as, ResolveError};

verus! {

/// Whether `e` is the event of the given kind, description and instant.
pub open spec fn is_event(e: TrackingEvent, start: bool, text: Option<String>, at: int) -> bool {
    (e is Start) == start && e.text() == text && e.instant() == at
}

/// Whether `after` is `before` with one event added at its end.
pub open spec fn appended(
    before: Seq<TrackingEvent>,
    after: Seq<TrackingEvent>,
    start: bool,
    text: Option<String>,
    at: int,
) -> bool {
    after.len() == before.len() + 1 && after.drop_last() == before && is_event(
        after.last(),
        start,
        text,
        at,
    )
}

/// Whether a new start can follow the log as it is: it is empty or ends
/// in a stop.
pub open spec fn is_stopped(log: Seq<TrackingEvent>) -> bool {
    log.len() == 0 || log.last() is Stop
}

/// Whether a new stop can follow the log as it is: it is empty or ends in
/// a start.
pub open spec fn is_running(log: Seq<TrackingEvent>) -> bool {
    log.len() == 0 || log.last() is Start
}

/// Whether two optional texts are both there and read the same.
pub open spec fn same_described(a: Option<String>, b: Option<String>) -> bool {
    a matches Some(x) && b matches Some(y) && x@ == y@
}

/// What became of a request to start.
#[derive(Debug, Clone, Copy, PartialEq, Eq, Structural)]
pub enum StartOutcome {
    /// A start was entered.
    Started,
    /// Work was running: a stop and then the new start were entered.
    Restarted,
    /// Work with this description was running already: nothing was
    /// entered.
    SameDescription,
    /// Work was running already: nothing was entered.
    AlreadyRunning,
}

/// What became of a request to stop.
#[derive(Debug, Clone, Copy, PartialEq, Eq, Structural)]
pub enum StopOutcome {
    /// A stop was entered.
    Stopped,
    /// Work was stopped already: nothing was entered.
    AlreadyStopped,
}

/// What became of a request to continue.
#[derive(Debug, Clone, Copy, PartialEq, Eq, Structural)]
pub enum ContinueOutcome {
    /// A start with the description of the latest start was entered.
    Continued,
    /// The log ends in a stop but holds no start: nothing was entered.
    NothingToContinue,
    /// The log does not end in a stop: nothing was entered.
    NotStopped,
}

/// What a request to start makes of the log. With an explicit instant, or
/// with a log that is empty or ends in a stop, the start is entered, at
/// the explicit instant or else now. Otherwise work is running: where
/// stops are inserted on request, a stop without description and the new
/// start are entered, both now, unless the running work has the very
/// description that was asked for; where they are not, nothing is entered.
pub open spec fn start_step(
    settings: Settings,
    before: Seq<TrackingEvent>,
    after: Seq<TrackingEvent>,
    description: Option<String>,
    at: Option<int>,
    now: int,
    outcome: StartOutcome,
) -> bool {
    if is_stopped(before) || at is Some {
        outcome == StartOutcome::Started && appended(
            before,
            after,
            true,
            description,
            match at {
                Some(t) => t,
                None => now,
            },
        )
    } else if settings.auto_insert_stop {
        if same_described(description, before.last().text()) {
            outcome == StartOutcome::SameDescription && after == before
        } else {
            &&& outcome == StartOutcome::Restarted
            &&& after.len() == before.len() + 2
            &&& after.take(before.len() as int) == before
            &&& is_event(after[before.len() as int], false, None, now)
            &&& is_event(after[before.len() as int + 1], true, description, now)
        }
    } else {
        outcome == StartOutcome::AlreadyRunning && after == before
    }
}

/// Adds an event of the given kind, description and instant to the end
/// of the log.
fn push_event(data: &mut Vec<TrackingEvent>, start: bool, description: Option<String>, at: i64)
    requires
        valid_instant(at as int),
    ensures
        appended(old(data)@, final(data)@, start, description, at as int),
{
    let event = if start {
        TrackingEvent::start(description, at)
    } else {
        TrackingEvent::stop(description, at)
    };
    match event {
        Some(e) => {
            data.push(e);
            proof {
                assert(data@.drop_last() =~= old(data)@);
            }
        },
        None => {
            proof {
                assert(false);
            }
        },
    }
}

/// Whether two optional texts are both there and read the same.
fn same_description(a: &Option<String>, b: &Option<String>) -> (same: bool)
    ensures
        same == same_described(*a, *b),
{
    match (a, b) {
        (Some(x), Some(y)) => same_text(x.as_str(), y.as_str()),
        _ => false,
    }
}

/// Enters a request to start into the log, with the instant of the request
/// already read: `at` is the explicit instant if one was given, `now` the
/// current one.
pub fn start_at(
    settings: &Settings,
    data: &mut Vec<TrackingEvent>,
    description: Option<String>,
    at: Option<i64>,
    now: i64,
) -> (outcome: StartOutcome)
    requires
        valid_instant(now as int),
        at matches Some(t) ==> valid_instant(t as int),
    ensures
        start_step(
            *settings,
            old(data)@,
            final(data)@,
            description,
            int_of(at),
            now as int,
            outcome,
        ),
{
    let stopped = data.len() == 0 || data[data.len() - 1].is_stop();
    if stopped || at.is_some() {
        let when = match at {
            Some(t) => t,
            None => now,
        };
        push_event(data, true, description, when);
        StartOutcome::Started
    } else if settings.auto_insert_stop {
        let running = data[data.len() - 1].description();
        if same_description(&description, &running) {
            StartOutcome::SameDescription
        } else {
            let ghost before = data@;
            push_event(data, false, None, now);
            push_event(data, true, description, now);
            proof {
                assert(data@.take(before.len() as int) =~= before);
            }
            StartOutcome::Restarted
        }
    } else {
        StartOutcome::AlreadyRunning
    }
}

/// What a request to stop makes of the log. With an explicit instant, or
/// with a log that is empty or ends in a start, the stop is entered, at
/// the explicit instant or else now. Otherwise nothing is entered.
pub open spec fn stop_step(
    before: Seq<TrackingEvent>,
    after: Seq<TrackingEvent>,
    description: Option<String>,
    at: Option<int>,
    now: int,
    outcome: StopOutcome,
) -> bool {
    if is_running(before) || at is Some {
        outcome == StopOutcome::Stopped && appended(
            before,
            after,
            false,
            description,
            match at {
                Some(t) => t,
                None => now,
            },
        )
    } else {
        outcome == StopOutcome::AlreadyStopped && after == before
    }
}

/// Enters a request to stop into the log, with the instant of the request
/// already read.
pub fn stop_at(
    data: &mut Vec<TrackingEvent>,
    description: Option<String>,
    at: Option<i64>,
    now: i64,
) -> (outcome: StopOutcome)
    requires
        valid_instant(now as int),
        at matches Some(t) ==> valid_instant(t as int),
    ensures
        stop_step(
            old(data)@,
            final(data)@,
            description,
            int_of(at),
            now as int,
            outcome,
        ),
{
    let running = data.len() == 0 || data[data.len() - 1].is_start();
    if running || at.is_some() {
        let when = match at {
            Some(t) => t,
            None => now,
        };
        push_event(data, false, description, when);
        StopOutcome::Stopped
    } else {
        StopOutcome::AlreadyStopped
    }
}

/// The place of the latest start of the log; -1 where it holds none.
pub open spec fn latest_start(log: Seq<TrackingEvent>) -> int
    decreases log.len(),
{
    if log.len() == 0 {
        -1
    } else if log.last() is Start {
        log.len() - 1
    } else {
        latest_start(log.drop_last())
    }
}

/// What a request to continue makes of the log. Where the log ends in a
/// stop and holds a start, a start with the description of the latest
/// start is entered, now. Otherwise nothing is entered.
pub open spec fn continue_step(
    before: Seq<TrackingEvent>,
    after: Seq<TrackingEvent>,
    now: int,
    outcome: ContinueOutcome,
) -> bool {
    if before.len() > 0 && before.last() is Stop {
        if latest_start(before) >= 0 {
            outcome == ContinueOutcome::Continued && appended(
                before,
                after,
                true,
                before[latest_start(before)].text(),
                now,
            )
        } else {
            outcome == ContinueOutcome::NothingToContinue && after == before
        }
    } else {
        outcome == ContinueOutcome::NotStopped && after == before
    }
}

/// The place of the latest start of the log.
pub fn find_latest_start(data: &[TrackingEvent]) -> (place: Option<usize>)
    ensures
        match place {
            Some(i) => i == latest_start(data@) && i < data@.len() && data@[i as int] is Start,
            None => latest_start(data@) == -1,
        },
{
    let mut i: usize = data.len();
    proof {
        assert(data@.take(i as int) =~= data@);
    }
    while i > 0
        invariant
            i <= data@.len(),
            latest_start(data@) == latest_start(data@.take(i as int)),
        decreases i,
    {
        proof {
            let front = data@.take(i as int);
            assert(front.drop_last() =~= data@.take(i - 1));
        }
        if data[i - 1].is_start() {
            return Some(i - 1);
        }
        i -= 1;
    }
    None
}

/// Enters a request to continue into the log, at the instant `now`.
pub fn continue_at(data: &mut Vec<TrackingEvent>, now: i64) -> (outcome: ContinueOutcome)
    requires
        valid_instant(now as int),
    ensures
        continue_step(old(data)@, final(data)@, now as int, outcome),
{
    if data.len() > 0 && data[data.len() - 1].is_stop() {
        match find_latest_start(data.as_slice()) {
            Some(i) => {
                let description = data[i].description();
                push_event(data, true, description, now);
                ContinueOutcome::Continued
            },
            None => ContinueOutcome::NothingToContinue,
        }
    } else {
        ContinueOutcome::NotStopped
    }
}

/// Whether `when` is the instant that the text of a request names: none
/// where no text is given, else what `parse_date_time` reads the text as,
/// on some day and for some answers of the zone.
pub open spec fn named_by(at: Option<String>, when: Option<int>) -> bool {
    match at {
        None => when is None,
        Some(text) => when matches Some(t) && i64::MIN <= t <= i64::MAX && exists|
            today: int,
            candidates: Seq<i64>,
            answers: Seq<Option<i64>>,
        | #[trigger] reads_as(text@, today, candidates, answers, Ok(t as i64)),
    }
}

/// Enters a request to start into the log. An explicit time is read as
/// `parse_date_time` reads it; without one the start is entered now. The
/// log is left as it was where the time cannot be read or the clock cannot
/// be used.
pub fn start_tracking(
    settings: &Settings,
    data: &mut Vec<TrackingEvent>,
    description: Option<String>,
    at: Option<String>,
) -> (outcome: Result<StartOutcome, ResolveError>)
    ensures
        match outcome {
            Ok(done) => exists|when: Option<int>, now: int| #[trigger]
                start_step(*settings, old(data)@, final(data)@, description, when, now, done)
                    && named_by(at, when),
            Err(e) => final(data)@ == old(data)@ && (e == ResolveError::Clock || at is Some),
        },
{
    match at {
        Some(text) => {
            let when = match parse_date_time(text.as_str()) {
                Ok(t) => t,
                Err(e) => {
                    return Err(e);
                },
            };
            let done = start_at(settings, data, description, Some(when), when);
            proof {
                let (today, candidates, answers) = choose|
                    today: int,
                    candidates: Seq<i64>,
                    answers: Seq<Option<i64>>,
                | #[trigger] reads_as(text@, today, candidates, answers, Ok(when));
                assert(reads_as(text@, today, candidates, answers, Ok((when as int) as i64)));
            }
            Ok(done)
        },
        None => {
            let now = match current_instant() {
                Some(t) => t,
                None => {
                    return Err(ResolveError::Clock);
                },
            };
            let done = start_at(settings, data, description, None, now);
            Ok(done)
        },
    }
}

/// Enters a request to stop into the log. An explicit time is read as
/// `parse_date_time` reads it; without one the stop is entered now. The
/// log is left as it was where the time cannot be read or the clock cannot
/// be used.
pub fn stop_tracking(
    data: &mut Vec<TrackingEvent>,
    description: Option<String>,
    at: Option<String>,
) -> (outcome: Result<StopOutcome, ResolveError>)
    ensures
        match outcome {
            Ok(done) => exists|when: Option<int>, now: int| #[trigger]
                stop_step(old(data)@, final(data)@, description, when, now, done) && named_by(
                    at,
                    when,
                ),
            Err(e) => final(data)@ == old(data)@ && (e == ResolveError::Clock || at is Some),
        },
{
    match at {
        Some(text) => {
            let when = match parse_date_time(text.as_str()) {
                Ok(t) => t,
                Err(e) => {
                    return Err(e);
                },
            };
            let done = stop_at(data, description, Some(when), when);
            proof {
                let (today, candidates, answers) = choose|
                    today: int,
                    candidates: Seq<i64>,
                    answers: Seq<Option<i64>>,
                | #[trigger] reads_as(text@, today, candidates, answers, Ok(when));
                assert(reads_as(text@, today, candidates, answers, Ok((when as int) as i64)));
            }
            Ok(done)
        },
        None => {
            let now = match current_instant() {
                Some(t) => t,
                None => {
                    return Err(ResolveError::Clock);
                },
            };
            let done = stop_at(data, description, None, now);
            Ok(done)
        },
    }
}

/// Whether a request to continue enters a start: the log ends in a stop
/// and holds a start to take the description from.
pub open spec fn continues(log: Seq<TrackingEvent>) -> bool {
    log.len() > 0 && log.last() is Stop && latest_start(log) >= 0
}

/// Enters a request to continue into the log, now. The clock is read only
/// where a start is entered: a log that does not end in a stop, or holds
/// no start, is answered without it and left as it was. `None`, with the
/// log left as it was, where a start would be entered and the clock cannot
/// be used.
pub fn continue_tracking(data: &mut Vec<TrackingEvent>) -> (outcome: Option<ContinueOutcome>)
    ensures
        match outcome {
            Some(done) => exists|now: int| #[trigger]
                continue_step(old(data)@, final(data)@, now, done),
            None => final(data)@ == old(data)@ && continues(old(data)@),
        },
        !continues(old(data)@) ==> outcome is Some && final(data)@ == old(data)@,
        outcome matches Some(done) ==> (done == ContinueOutcome::Continued <==> continues(
            old(data)@,
        )),
{
    if data.len() > 0 && data[data.len() - 1].is_stop() {
        match find_latest_start(data.as_slice()) {
            Some(i) => {
                let now = match current_instant() {
                    Some(t) => t,
                    None => {
                        return None;
                    },
                };
                let description = data[i].description();
                push_event(data, true, description, now);
                assert(continue_step(old(data)@, data@, now as int, ContinueOutcome::Continued));
                Some(ContinueOutcome::Continued)
            },
            None => {
                assert(continue_step(old(data)@, data@, 0, ContinueOutcome::NothingToContinue));
                Some(ContinueOutcome::NothingToContinue)
            },
        }
    } else {
        assert(continue_step(old(data)@, data@, 0, ContinueOutcome::NotStopped));
        Some(ContinueOutcome::NotStopped)
    }
}

/// What the log says of the work at hand: whether it is running, and the
/// description and the instant of the latest event.
#[derive(Debug)]
pub struct Status {
    pub active: bool,
    pub description: Option<String>,
    pub time: i64,
}

/// The status of the log: that of its latest event, work running where
/// that is a start; `None` for an empty log.
pub fn status(data: &[TrackingEvent]) -> (found: Option<Status>)
    ensures
        found is Some <==> data@.len() > 0,
        found matches Some(s) ==> s.active == (data@.last() is Start) && s.description
            == data@.last().text() && s.time == data@.last().instant() && valid_instant(
            s.time as int,
        ),
{
    if data.len() == 0 {
        None
    } else {
        let latest = &data[data.len() - 1];
        Some(
            Status {
                active: latest.is_start(),
                description: latest.description(),
                time: latest.time(true),
            },
        )
    }
}

/// The exit code that reports a status: 0 while work is running, -1 while
/// it is not or the log is empty.
pub fn exit_code(found: &Option<Status>) -> (code: i32)
    ensures
        code == if found matches Some(s) && s.active {
            0int
        } else {
            -1int
        },
{
    match found {
        Some(s) => if s.active {
            0
        } else {
            -1
        },
        None => -1,
    }
}

} // verus!
