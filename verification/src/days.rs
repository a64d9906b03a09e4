//! Cuts a log into day-runs: the stretches of neighbouring events that fall
//! on one calendar day.

use vstd::prelude::*;
use crate::clock::{day_of, local_day};
use crate::event::TrackingEvent;

verus! {

/// The length of the stretch at the front of `days` that repeats its first
/// day.
pub open spec fn first_day_len(days: Seq<i64>) -> nat
    decreases days.len(),
{
    if days.len() == 0 {
        0
    } else if days.len() >= 2 && days[0] == days[1] {
        1 + first_day_len(days.drop_first())
    } else {
        1
    }
}

/// The log cut into day-runs, where `days` names the calendar day of each
/// event: a new run begins wherever the day differs from that of the event
/// before. The log is walked once from the front; it is not sorted.
pub open spec fn day_runs(log: Seq<TrackingEvent>, days: Seq<i64>) -> Seq<Seq<TrackingEvent>>
    decreases days.len(),
    via day_runs_decreases
{
    if days.len() == 0 {
        Seq::empty()
    } else {
        let n = first_day_len(days) as int;
        seq![log.take(n)] + day_runs(log.skip(n), days.skip(n))
    }
}

#[via_fn]
proof fn day_runs_decreases(log: Seq<TrackingEvent>, days: Seq<i64>) {
    lemma_first_day(days);
}

/// The stretch at the front is not empty, ends within the sequence, holds
/// one day, and ends where the day changes.
pub proof fn lemma_first_day(days: Seq<i64>)
    ensures
        first_day_len(days) <= days.len(),
        days.len() > 0 ==> first_day_len(days) >= 1,
        forall|i: int| 0 <= i < first_day_len(days) ==> #[trigger] days[i] == days[0],
        first_day_len(days) < days.len() ==> days[first_day_len(days) as int] != days[0],
    decreases days.len(),
{
    if days.len() >= 2 && days[0] == days[1] {
        let rest = days.drop_first();
        lemma_first_day(rest);
        assert forall|i: int| 0 <= i < first_day_len(days) implies #[trigger] days[i]
            == days[0] by {
            if i > 0 {
                assert(days[i] == rest[i - 1]);
            }
        }
    }
}

/// A stretch at the front that holds one day and ends where the day
/// changes is the first day's stretch.
pub proof fn lemma_first_day_is(days: Seq<i64>, n: int)
    requires
        1 <= n <= days.len(),
        forall|i: int| 0 <= i < n ==> #[trigger] days[i] == days[0],
        n < days.len() ==> days[n] != days[0],
    ensures
        first_day_len(days) == n,
{
    lemma_first_day(days);
}

/// The contents of a list of day-runs.
pub open spec fn run_views(list: Seq<Vec<TrackingEvent>>) -> Seq<Seq<TrackingEvent>> {
    list.map_values(|run: Vec<TrackingEvent>| run@)
}

/// The events of all runs, one run after the other.
pub open spec fn joined(list: Seq<Seq<TrackingEvent>>) -> Seq<TrackingEvent>
    decreases list.len(),
{
    if list.len() == 0 {
        Seq::empty()
    } else {
        list[0] + joined(list.drop_first())
    }
}

/// Day-runs are made of the events of the log in their order, and none of
/// them is empty.
pub proof fn lemma_day_runs_cover(log: Seq<TrackingEvent>, days: Seq<i64>)
    requires
        log.len() == days.len(),
    ensures
        joined(day_runs(log, days)) == log,
        forall|i: int|
            0 <= i < day_runs(log, days).len() ==> (#[trigger] day_runs(log, days)[i]).len() >= 1,
    decreases days.len(),
{
    if days.len() > 0 {
        lemma_first_day(days);
        let n = first_day_len(days) as int;
        let all = day_runs(log, days);
        let rest = day_runs(log.skip(n), days.skip(n));
        lemma_day_runs_cover(log.skip(n), days.skip(n));
        assert(all.drop_first() =~= rest);
        assert forall|i: int| 0 <= i < all.len() implies (#[trigger] all[i]).len() >= 1 by {
        }
    } else {
    }
}

/// Cuts the log into day-runs, where `days` names the calendar day of each
/// event.
pub fn group_by_day(data: &[TrackingEvent], days: &[i64]) -> (found: Vec<Vec<TrackingEvent>>)
    requires
        data@.len() == days@.len(),
    ensures
        run_views(found@) == day_runs(data@, days@),
{
    let mut found: Vec<Vec<TrackingEvent>> = Vec::new();
    let mut i: usize = 0;
    proof {
        assert(data@.skip(0) =~= data@);
        assert(days@.skip(0) =~= days@);
    }
    while i < data.len()
        invariant
            i <= data.len(),
            data@.len() == days@.len(),
            run_views(found@) + day_runs(data@.skip(i as int), days@.skip(i as int)) == day_runs(
                data@,
                days@,
            ),
        decreases data.len() - i,
    {
        let day = days[i];
        let mut run: Vec<TrackingEvent> = Vec::new();
        run.push(data[i].clone());
        let mut j: usize = i + 1;
        while j < data.len() && days[j] == day
            invariant
                i < j <= data.len(),
                data@.len() == days@.len(),
                day == days@[i as int],
                run@ == data@.subrange(i as int, j as int),
                forall|k: int| i <= k < j ==> #[trigger] days@[k] == day,
            decreases data.len() - j,
        {
            run.push(data[j].clone());
            j += 1;
        }
        found.push(run);
        proof {
            let rest = days@.skip(i as int);
            let n = (j - i) as int;
            assert forall|k: int| 0 <= k < n implies #[trigger] rest[k] == rest[0] by {
            }
            lemma_first_day_is(rest, n);
            assert(data@.skip(i as int).take(n) =~= run@);
            assert(data@.skip(i as int).skip(n) =~= data@.skip(j as int));
            assert(rest.skip(n) =~= days@.skip(j as int));
        }
        i = j;
    }
    found
}

/// Whether `days` can be the calendar days that a zone shows at the
/// instants of the log: one for each event, and each the day of the
/// instant in UTC, the day before, or the day after.
pub open spec fn zone_days(log: Seq<TrackingEvent>, days: Seq<i64>) -> bool {
    &&& days.len() == log.len()
    &&& forall|i: int|
        0 <= i < days.len() ==> day_of(log[i].instant()) - 1 <= #[trigger] days[i] <= day_of(
            log[i].instant(),
        ) + 1
}

/// The calendar day that the machine's zone shows at the instant of each
/// event.
pub fn local_days(data: &[TrackingEvent]) -> (days: Vec<i64>)
    ensures
        zone_days(data@, days@),
{
    let mut days: Vec<i64> = Vec::new();
    let mut i: usize = 0;
    while i < data.len()
        invariant
            i <= data.len(),
            zone_days(data@.take(i as int), days@),
        decreases data.len() - i,
    {
        let day = local_day(data[i].time(true));
        days.push(day);
        i += 1;
    }
    days
}

/// Cuts the log into day-runs by the calendar of the machine's zone: a new
/// run begins wherever the local day of an event differs from that of the
/// event before. The day of an event is that of its instant as it was
/// logged, to the second, also where the worked time is later told without
/// seconds. The runs hold the events of the log in their order, and none
/// is empty.
pub fn get_data_as_days(data: &[TrackingEvent]) -> (found: Vec<Vec<TrackingEvent>>)
    ensures
        exists|days: Seq<i64>|
            #[trigger] zone_days(data@, days) && run_views(found@) == day_runs(data@, days),
        joined(run_views(found@)) == data@,
        forall|i: int| 0 <= i < found@.len() ==> (#[trigger] found@[i])@.len() >= 1,
{
    let days = local_days(data);
    let found = group_by_day(data, days.as_slice());
    proof {
        lemma_day_runs_cover(data@, days@);
        assert forall|i: int| 0 <= i < found@.len() implies (#[trigger] found@[i])@.len()
            >= 1 by {
            assert(run_views(found@)[i] == found@[i]@);
        }
    }
    found
}

} // verus!
