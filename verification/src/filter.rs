//! The event filter: a time window and a keyword, applied to the log, with
//! the stops dropped that would lead the result.

use vstd::prelude::*;
use crate::clock::{valid_day, DAY_SECONDS};
use crate::event::{int_of, TrackingEvent};
use crate::text::{contains_text, is_substring, same_text, text_of};
use crate::window::{
    asks_for_week, effective_keyword, instant_shown, is_week, local_today, lower_wall,
    names_no_time, parse_date_or_date_time, reads_as, resolve_window, shows_instant,
    spec_plain_bound, spec_time_of_day, upper_wall, window_end, window_from, window_start,
    window_to, DateOrDateTime, ResolveError,
};

verus! {

/// Whether the instant of the event lies in the window. A bound that is
/// absent leaves that side open; both bounds count as inside.
pub open spec fn in_window(e: TrackingEvent, lower: Option<int>, upper: Option<int>) -> bool {
    &&& lower matches Some(l) ==> e.instant() >= l
    &&& upper matches Some(u) ==> e.instant() <= u
}

/// Whether the keyword lets every event pass and switches the window off.
pub open spec fn is_all(keyword: Option<Seq<char>>) -> bool {
    keyword == Some("all"@)
}

/// Whether the description of the event meets the keyword: no keyword and
/// the keyword `all` are met by every event, any other keyword by the
/// events whose description holds it.
pub open spec fn meets_keyword(e: TrackingEvent, keyword: Option<Seq<char>>) -> bool {
    match keyword {
        None => true,
        Some(k) => k == "all"@ || (e.text() matches Some(d) && is_substring(k, d@)),
    }
}

/// Whether the filter keeps the event.
pub open spec fn passes(
    e: TrackingEvent,
    lower: Option<int>,
    upper: Option<int>,
    keyword: Option<Seq<char>>,
) -> bool {
    (is_all(keyword) || in_window(e, lower, upper)) && meets_keyword(e, keyword)
}

/// The rule of a filter, as a predicate on events.
pub open spec fn pass_rule(
    lower: Option<int>,
    upper: Option<int>,
    keyword: Option<Seq<char>>,
) -> spec_fn(TrackingEvent) -> bool {
    |e: TrackingEvent| passes(e, lower, upper, keyword)
}

/// The events of the log that the filter keeps, in the order of the log.
pub open spec fn kept(
    log: Seq<TrackingEvent>,
    lower: Option<int>,
    upper: Option<int>,
    keyword: Option<Seq<char>>,
) -> Seq<TrackingEvent> {
    log.filter(pass_rule(lower, upper, keyword))
}

/// How many stops stand at the front of the log before its first start.
pub open spec fn leading_stops(log: Seq<TrackingEvent>) -> nat
    decreases log.len(),
{
    if log.len() > 0 && log[0] is Stop {
        1 + leading_stops(log.drop_first())
    } else {
        0
    }
}

/// The log without the stops that stand at its front.
pub open spec fn without_leading_stops(log: Seq<TrackingEvent>) -> Seq<TrackingEvent> {
    log.skip(leading_stops(log) as int)
}

/// What the filter makes of the log: the events that pass, from the first
/// start among them on.
pub open spec fn filtered(
    log: Seq<TrackingEvent>,
    lower: Option<int>,
    upper: Option<int>,
    keyword: Option<Seq<char>>,
) -> Seq<TrackingEvent> {
    without_leading_stops(kept(log, lower, upper, keyword))
}

/// The stops at the front are stops, they end at the end of the log or at a
/// start, and no other count has these properties.
pub proof fn lemma_leading_stops(log: Seq<TrackingEvent>)
    ensures
        leading_stops(log) <= log.len(),
        forall|i: int| 0 <= i < leading_stops(log) ==> (#[trigger] log[i]) is Stop,
        leading_stops(log) < log.len() ==> log[leading_stops(log) as int] is Start,
    decreases log.len(),
{
    if log.len() > 0 && log[0] is Stop {
        let rest = log.drop_first();
        lemma_leading_stops(rest);
        assert forall|i: int| 0 <= i < leading_stops(log) implies (#[trigger] log[i]) is Stop by {
            if i > 0 {
                assert(log[i] == rest[i - 1]);
            }
        }
    }
}

/// A count of front stops that ends at the end of the log or at a start is
/// the count of leading stops.
pub proof fn lemma_leading_stops_is(log: Seq<TrackingEvent>, n: int)
    requires
        0 <= n <= log.len(),
        forall|i: int| 0 <= i < n ==> (#[trigger] log[i]) is Stop,
        n < log.len() ==> log[n] is Start,
    ensures
        leading_stops(log) == n,
{
    lemma_leading_stops(log);
}

/// Appending an event to a log: where the log held stops only and the
/// event is a stop, nothing is left once the leading stops are gone; else
/// the event follows what was left before.
pub proof fn lemma_without_leading_stops_push(log: Seq<TrackingEvent>, e: TrackingEvent)
    ensures
        without_leading_stops(log.push(e)) == if without_leading_stops(log).len() == 0
            && e is Stop {
            Seq::<TrackingEvent>::empty()
        } else {
            without_leading_stops(log).push(e)
        },
{
    lemma_leading_stops(log);
    let n = leading_stops(log) as int;
    let longer = log.push(e);
    if n == log.len() && e is Stop {
        assert forall|i: int| 0 <= i < n + 1 implies (#[trigger] longer[i]) is Stop by {
        }
        lemma_leading_stops_is(longer, n + 1);
    } else {
        assert forall|i: int| 0 <= i < n implies (#[trigger] longer[i]) is Stop by {
        }
        lemma_leading_stops_is(longer, n);
    }
}

/// What the filter hands out is empty or begins with a start, whatever the
/// log began with.
pub proof fn lemma_filtered_begins_with_start(
    log: Seq<TrackingEvent>,
    lower: Option<int>,
    upper: Option<int>,
    keyword: Option<Seq<char>>,
)
    ensures
        filtered(log, lower, upper, keyword).len() > 0 ==> filtered(
            log,
            lower,
            upper,
            keyword,
        )[0] is Start,
{
    lemma_leading_stops(kept(log, lower, upper, keyword));
}

/// With the keyword `all` every event passes, whatever the bounds are.
pub proof fn lemma_all_keeps_every_event(
    log: Seq<TrackingEvent>,
    lower: Option<int>,
    upper: Option<int>,
)
    ensures
        kept(log, lower, upper, Some("all"@)) == log,
        filtered(log, lower, upper, Some("all"@)) == without_leading_stops(log),
        log.len() == 0 || log[0] is Start ==> filtered(log, lower, upper, Some("all"@)) == log,
    decreases log.len(),
{
    reveal(Seq::filter);
    if log.len() > 0 {
        lemma_all_keeps_every_event(log.drop_last(), lower, upper);
    }
    if log.len() == 0 || log[0] is Start {
        assert(without_leading_stops(log) =~= log);
    }
}

/// Whether the filter keeps the event.
pub fn event_passes(
    e: &TrackingEvent,
    lower: Option<i64>,
    upper: Option<i64>,
    keyword: &Option<String>,
) -> (pass: bool)
    ensures
        pass == passes(*e, int_of(lower), int_of(upper), text_of(*keyword)),
{
    let time = e.time(true);
    match keyword {
        None => in_bounds(time, lower, upper),
        Some(k) => {
            if same_text(k.as_str(), "all") {
                true
            } else {
                let described = match e.description() {
                    Some(d) => contains_text(d.as_str(), k.as_str()),
                    None => false,
                };
                described && in_bounds(time, lower, upper)
            }
        },
    }
}

/// Whether `time` lies within the bounds that are given.
fn in_bounds(time: i64, lower: Option<i64>, upper: Option<i64>) -> (inside: bool)
    ensures
        inside == ((lower matches Some(l) ==> time >= l) && (upper matches Some(u) ==> time
            <= u)),
{
    let above = match lower {
        Some(l) => time >= l,
        None => true,
    };
    let below = match upper {
        Some(u) => time <= u,
        None => true,
    };
    above && below
}

/// Applies a window and a keyword to the log. The result holds, in the
/// order of the log, the events that pass, from the first start among them
/// on: it is empty or begins with a start.
pub fn select_events(
    data: &[TrackingEvent],
    lower: Option<i64>,
    upper: Option<i64>,
    keyword: &Option<String>,
) -> (selected: Vec<TrackingEvent>)
    ensures
        selected@ == filtered(data@, int_of(lower), int_of(upper), text_of(*keyword)),
        selected@.len() > 0 ==> selected@[0] is Start,
        selected@.len() <= data@.len(),
{
    let ghost rule = pass_rule(int_of(lower), int_of(upper), text_of(*keyword));
    let mut selected: Vec<TrackingEvent> = Vec::new();
    let mut i: usize = 0;
    proof {
        reveal(Seq::filter);
    }
    while i < data.len()
        invariant
            i <= data.len(),
            rule == pass_rule(int_of(lower), int_of(upper), text_of(*keyword)),
            selected@ == without_leading_stops(data@.take(i as int).filter(rule)),
            selected@.len() <= i,
        decreases data.len() - i,
    {
        let e = &data[i];
        proof {
            let before = data@.take(i as int);
            assert(data@.take(i + 1) =~= before.push(*e));
            before.lemma_filter_push(*e, rule);
            lemma_without_leading_stops_push(before.filter(rule), *e);
        }
        if event_passes(e, lower, upper, keyword) {
            if !(selected.len() == 0 && e.is_stop()) {
                selected.push(e.clone());
            }
        }
        i += 1;
    }
    proof {
        assert(data@.take(data.len() as int) =~= data@);
        lemma_filtered_begins_with_start(
            data@,
            int_of(lower),
            int_of(upper),
            text_of(*keyword),
        );
    }
    selected
}

/// Whether the keyword is the word `all`.
pub fn asks_for_all(keyword: &Option<String>) -> (all: bool)
    ensures
        all == is_all(text_of(*keyword)),
{
    match keyword {
        Some(k) => same_text(k.as_str(), "all"),
        None => false,
    }
}

/// Whether a bound is given as a text that names a calendar day or a day
/// with a time as it stands, so that reading it needs neither the clock
/// nor the zone.
pub open spec fn plainly_given(bound: Option<Seq<char>>) -> bool {
    bound matches Some(s) && spec_plain_bound(s) is Some
}

/// Whether a bound is given as a text that names nothing as it stands, so
/// that it is read as a time of day or with the help of the zone.
pub open spec fn read_by_zone(bound: Option<Seq<char>>) -> bool {
    bound matches Some(s) && spec_plain_bound(s) is None
}

/// Whether a bound is given as a text that names a time of day, so that
/// the clock is read to learn on which day.
pub open spec fn names_time_of_day(bound: Option<Seq<char>>) -> bool {
    bound matches Some(s) && spec_plain_bound(s) is None && spec_time_of_day(s) is Some
}

/// Whether a bound is given as a text that cannot be read: it names
/// neither a day nor a time, in any of the forms that are tried.
pub open spec fn unreadable(bound: Option<Seq<char>>) -> bool {
    bound matches Some(s) && spec_plain_bound(s) is None && names_no_time(s)
}

/// Whether a bound is given as a text that is read to nothing: it names
/// nothing as it stands, and on some day and for some answers of the zone
/// none of its candidates is shown exactly once at an instant that events
/// can carry.
pub open spec fn read_to_nothing(bound: Option<Seq<char>>) -> bool {
    bound matches Some(s) && spec_plain_bound(s) is None && exists|
        today: int,
        candidates: Seq<i64>,
        answers: Seq<Option<i64>>,
    | #[trigger] reads_as(s, today, candidates, answers, Err(ResolveError::Parse))
}

/// Whether `bound` is what the text of a bound can be read as. No text
/// gives no bound. A text that names a day or a time as it stands gives
/// what it names. Any other text gives the wall-clock time that a zone
/// shows, less than a day off, at an instant that the text is read as on
/// some day and for some answers of the zone.
pub open spec fn read_as(text: Option<Seq<char>>, bound: Option<DateOrDateTime>) -> bool {
    match text {
        None => bound is None,
        Some(s) => match spec_plain_bound(s) {
            Some(b) => bound == Some(b),
            None => bound matches Some(DateOrDateTime::DateTime(w)) && exists|
                today: int,
                candidates: Seq<i64>,
                answers: Seq<Option<i64>>,
                t: i64,
            | #[trigger]
                reads_as(s, today, candidates, answers, Ok(t)) && t - DAY_SECONDS < w < t
                    + DAY_SECONDS,
        },
    }
}

/// Whether an instant lies less than a day from a wall-clock time, as the
/// instant does at which a zone shows that time.
pub open spec fn within_a_day(instant: int, wall: int) -> bool {
    wall - DAY_SECONDS < instant < wall + DAY_SECONDS
}

/// Whether `found` is what a query makes of the log on the day `today`:
/// its bounds are read from the texts, unless it is for the week; its
/// window is resolved from them; the zone shows the first second of the
/// lower bound at the instant `lower` and the last second of the upper
/// bound at the instant `upper`; and the filter is applied with these.
pub open spec fn answers_query(
    log: Seq<TrackingEvent>,
    from: Option<Seq<char>>,
    to: Option<Seq<char>>,
    filter: Option<Seq<char>>,
    today: int,
    from_bound: Option<DateOrDateTime>,
    to_bound: Option<DateOrDateTime>,
    lower: int,
    upper: int,
    found: Seq<TrackingEvent>,
) -> bool {
    &&& valid_day(today)
    &&& is_week(filter) || (read_as(from, from_bound) && read_as(to, to_bound))
    &&& within_a_day(lower, lower_wall(window_from(from_bound, filter, today)))
    &&& within_a_day(upper, upper_wall(window_to(from_bound, to_bound, filter, today)))
    &&& found == filtered(log, Some(lower), Some(upper), effective_keyword(filter))
}

/// Whether `found` is a result of the query on the log. With the keyword
/// `all` it is the log from its first start on. An empty log gives
/// nothing. In any other case it is what the query makes of the log on
/// some day, for some reading of its bounds and some answers of the zone.
pub open spec fn query_result(
    log: Seq<TrackingEvent>,
    from: Option<Seq<char>>,
    to: Option<Seq<char>>,
    filter: Option<Seq<char>>,
    found: Seq<TrackingEvent>,
) -> bool {
    if is_all(filter) {
        found == without_leading_stops(log)
    } else if log.len() == 0 {
        found.len() == 0
    } else {
        exists|
            today: int,
            from_bound: Option<DateOrDateTime>,
            to_bound: Option<DateOrDateTime>,
            lower: int,
            upper: int,
        | #[trigger]
            answers_query(log, from, to, filter, today, from_bound, to_bound, lower, upper, found)
    }
}

/// Reads the text of a bound, if one is given.
fn read_bound(text: &Option<String>) -> (bound: Result<Option<DateOrDateTime>, ResolveError>)
    ensures
        bound matches Ok(b) ==> read_as(text_of(*text), b),
        !read_by_zone(text_of(*text)) ==> bound is Ok,
        unreadable(text_of(*text)) ==> bound == Err::<Option<DateOrDateTime>, ResolveError>(
            ResolveError::Parse,
        ),
        bound matches Err(e) ==> match e {
            ResolveError::Parse => read_to_nothing(text_of(*text)),
            ResolveError::Clock => names_time_of_day(text_of(*text)),
            ResolveError::LocalTime => false,
        },
{
    match text {
        Some(s) => {
            let read = parse_date_or_date_time(s.as_str());
            match read {
                Ok(b) => {
                    proof {
                        if spec_plain_bound(s@) is None {
                            let (today, candidates, answers, instant) = choose|
                                today: int,
                                candidates: Seq<i64>,
                                answers: Seq<Option<i64>>,
                                instant: Result<i64, ResolveError>,
                            | #[trigger]
                                reads_as(s@, today, candidates, answers, instant)
                                    && shows_instant(instant, read);
                            assert(reads_as(s@, today, candidates, answers, Ok(instant->Ok_0)));
                        }
                    }
                    Ok(Some(b))
                },
                Err(e) => {
                    proof {
                        if e == ResolveError::Parse {
                            let (today, candidates, answers, instant) = choose|
                                today: int,
                                candidates: Seq<i64>,
                                answers: Seq<Option<i64>>,
                                instant: Result<i64, ResolveError>,
                            | #[trigger]
                                reads_as(s@, today, candidates, answers, instant)
                                    && shows_instant(instant, read);
                            assert(reads_as(
                                s@,
                                today,
                                candidates,
                                answers,
                                Err(ResolveError::Parse),
                            ));
                        }
                    }
                    Err(e)
                },
            }
        },
        None => Ok(None),
    }
}

/// Whether the window of a query has to be applied to the log: the
/// keyword is not `all`, and the log holds events to apply it to.
pub open spec fn window_applies(log: Seq<TrackingEvent>, filter: Option<Seq<char>>) -> bool {
    !is_all(filter) && log.len() > 0
}

/// Whether the bounds of a query can be read without the clock and the
/// zone: the query is for the week, which has bounds of its own, or
/// neither bound is a text that names nothing as it stands.
pub open spec fn bounds_are_plain(
    from: Option<Seq<char>>,
    to: Option<Seq<char>>,
    filter: Option<Seq<char>>,
) -> bool {
    is_week(filter) || (!read_by_zone(from) && !read_by_zone(to))
}

/// Whether a query can fail with the given error: with `Parse` where a
/// bound is a text that is read to nothing; with `Clock` where a
/// bound names a time of day, or where the window has to be applied and
/// rests on today, as it does for the week and without a lower bound; with
/// `LocalTime` where the window has to be applied.
pub open spec fn may_fail_with(
    e: ResolveError,
    log: Seq<TrackingEvent>,
    from: Option<Seq<char>>,
    to: Option<Seq<char>>,
    filter: Option<Seq<char>>,
) -> bool {
    match e {
        ResolveError::Parse => !is_week(filter) && (read_to_nothing(from) || read_to_nothing(
            to,
        )),
        ResolveError::Clock => (!is_week(filter) && (names_time_of_day(from) || names_time_of_day(
            to,
        ))) || (window_applies(log, filter) && (is_week(filter) || from is None)),
        ResolveError::LocalTime => window_applies(log, filter),
    }
}

/// Filters the log by the texts of a query. The filter `week` sets the
/// window to the current week; otherwise `from` and `to` are read as
/// bounds, with today as the default. A calendar day as a bound stands for
/// its first second as the lower and its last second as the upper bound,
/// in the time of the machine's zone. With the keyword `all` the window
/// is not applied.
///
/// The result is what `select_events` makes of the log for the window of
/// the query; it is empty or begins with a start. Today and the zone are
/// asked only where the window has to be applied: with the keyword `all`,
/// or on an empty log, a query whose bounds can be read succeeds. A bound
/// that cannot be read is a `Parse` error for every log, unless the query
/// is for the week, which does not look at the bounds. The other errors:
/// `Parse` too where the zone shows the time of a bound never or twice;
/// `Clock` where the clock is needed, for a time of day or for today, and
/// cannot be used; `LocalTime` where a bound that has to be applied names
/// a time that the zone does not show exactly once.
pub fn filter_events(
    data: &[TrackingEvent],
    from: &Option<String>,
    to: &Option<String>,
    filter: &Option<String>,
) -> (found: Result<Vec<TrackingEvent>, ResolveError>)
    ensures
        found matches Ok(v) ==> {
            &&& query_result(data@, text_of(*from), text_of(*to), text_of(*filter), v@)
            &&& v@.len() > 0 ==> v@[0] is Start
        },
        found matches Err(e) ==> may_fail_with(
            e,
            data@,
            text_of(*from),
            text_of(*to),
            text_of(*filter),
        ),
        bounds_are_plain(text_of(*from), text_of(*to), text_of(*filter)) && !window_applies(
            data@,
            text_of(*filter),
        ) ==> found is Ok,
        !is_week(text_of(*filter)) && unreadable(text_of(*from)) ==> found == Err::<
            Vec<TrackingEvent>,
            ResolveError,
        >(ResolveError::Parse),
        !is_week(text_of(*filter)) && unreadable(text_of(*to)) ==> found == Err::<
            Vec<TrackingEvent>,
            ResolveError,
        >(ResolveError::Parse) || (names_time_of_day(text_of(*from)) && found == Err::<
            Vec<TrackingEvent>,
            ResolveError,
        >(ResolveError::Clock)),
{
    let week = asks_for_week(filter);
    let mut lower_bound: Option<DateOrDateTime> = None;
    let mut upper_bound: Option<DateOrDateTime> = None;
    if !week {
        match read_bound(from) {
            Ok(b) => {
                lower_bound = b;
            },
            Err(e) => {
                return Err(e);
            },
        }
        match read_bound(to) {
            Ok(b) => {
                upper_bound = b;
            },
            Err(e) => {
                return Err(e);
            },
        }
    }
    if asks_for_all(filter) || data.len() == 0 {
        proof {
            lemma_all_keeps_every_event(data@, None, None);
        }
        return Ok(select_events(data, None, None, filter));
    }
    let mut today: i64 = 0;
    if week || lower_bound.is_none() {
        match local_today() {
            Some(d) => {
                today = d;
            },
            None => {
                return Err(ResolveError::Clock);
            },
        }
    }
    let window = resolve_window(lower_bound, upper_bound, filter, today);
    let lower = match instant_shown(window_start(window.from)) {
        Some(t) => t,
        None => {
            return Err(ResolveError::LocalTime);
        },
    };
    let upper = match instant_shown(window_end(window.to)) {
        Some(t) => t,
        None => {
            return Err(ResolveError::LocalTime);
        },
    };
    let selected = select_events(data, Some(lower), Some(upper), &window.keyword);
    assert(answers_query(
        data@,
        text_of(*from),
        text_of(*to),
        text_of(*filter),
        today as int,
        lower_bound,
        upper_bound,
        lower as int,
        upper as int,
        selected@,
    ));
    Ok(selected)
}

} // verus!
