//! Puts a log in order before it is stored: by time, events of one instant
//! in the order in which they were logged, and without events that repeat
//! the one before them.

use vstd::prelude::*;
use vstd::seq_lib::to_multiset_insert;
use crate::event::{same_event, TrackingEvent};

verus! {

/// Whether the log is in the order of time.
pub open spec fn ordered(log: Seq<TrackingEvent>) -> bool {
    forall|i: int, j: int|
        0 <= i <= j < log.len() ==> (#[trigger] log[i]).instant() <= (#[trigger] log[j]).instant()
}

/// How many events stand at the front of the log that are not later than
/// `t`.
pub open spec fn slot(log: Seq<TrackingEvent>, t: int) -> nat
    decreases log.len(),
{
    if log.len() > 0 && log[0].instant() <= t {
        1 + slot(log.drop_first(), t)
    } else {
        0
    }
}

/// The log in the order of time. Each event of the log in turn is put
/// behind the events before it that are not later than it, so that events
/// of one instant keep the order of the log.
pub open spec fn in_order(log: Seq<TrackingEvent>) -> Seq<TrackingEvent>
    decreases log.len(),
{
    if log.len() == 0 {
        log
    } else {
        let front = in_order(log.drop_last());
        front.insert(slot(front, log.last().instant()) as int, log.last())
    }
}

/// The log without the events that repeat the event before them.
pub open spec fn without_repeats(log: Seq<TrackingEvent>) -> Seq<TrackingEvent>
    decreases log.len(),
{
    if log.len() <= 1 {
        log
    } else if same_event(log.last(), log[log.len() - 2]) {
        without_repeats(log.drop_last())
    } else {
        without_repeats(log.drop_last()).push(log.last())
    }
}

/// The events at the front that are not later than `t` end at the end of
/// the log or at a later event.
pub proof fn lemma_slot(log: Seq<TrackingEvent>, t: int)
    ensures
        slot(log, t) <= log.len(),
        forall|i: int| 0 <= i < slot(log, t) ==> (#[trigger] log[i]).instant() <= t,
        slot(log, t) < log.len() ==> log[slot(log, t) as int].instant() > t,
    decreases log.len(),
{
    if log.len() > 0 && log[0].instant() <= t {
        let rest = log.drop_first();
        lemma_slot(rest, t);
        assert forall|i: int| 0 <= i < slot(log, t) implies (#[trigger] log[i]).instant()
            <= t by {
            if i > 0 {
                assert(log[i] == rest[i - 1]);
            }
        }
    }
}

/// A count of front events that are not later than `t`, which ends at the
/// end of the log or at a later event, is the slot of `t`.
pub proof fn lemma_slot_is(log: Seq<TrackingEvent>, t: int, n: int)
    requires
        0 <= n <= log.len(),
        forall|i: int| 0 <= i < n ==> (#[trigger] log[i]).instant() <= t,
        n < log.len() ==> log[n].instant() > t,
    ensures
        slot(log, t) == n,
{
    lemma_slot(log, t);
}

/// Putting a log in order gives the same events, each as often as before,
/// in the order of time.
pub proof fn lemma_in_order(log: Seq<TrackingEvent>)
    ensures
        in_order(log).len() == log.len(),
        in_order(log).to_multiset() == log.to_multiset(),
        ordered(in_order(log)),
    decreases log.len(),
{
    broadcast use vstd::seq_lib::group_to_multiset_ensures;

    if log.len() > 0 {
        let front = in_order(log.drop_last());
        let e = log.last();
        let k = slot(front, e.instant()) as int;
        lemma_in_order(log.drop_last());
        lemma_slot(front, e.instant());
        front.insert_ensures(k, e);
        to_multiset_insert(front, k, e);
        assert(log.drop_last().push(e) =~= log);
        let all = front.insert(k, e);
        assert forall|i: int, j: int| 0 <= i <= j < all.len() implies (#[trigger] all[i]).instant()
            <= (#[trigger] all[j]).instant() by {
        }
    }
}

/// A log that is in the order of time stays as it is.
pub proof fn lemma_in_order_keeps_ordered(log: Seq<TrackingEvent>)
    requires
        ordered(log),
    ensures
        in_order(log) == log,
    decreases log.len(),
{
    if log.len() > 0 {
        let front = log.drop_last();
        assert(ordered(front)) by {
            assert forall|i: int, j: int| 0 <= i <= j < front.len() implies (
            #[trigger] front[i]).instant() <= (#[trigger] front[j]).instant() by {
            }
        }
        lemma_in_order_keeps_ordered(front);
        assert forall|i: int| 0 <= i < front.len() implies (#[trigger] front[i]).instant()
            <= log.last().instant() by {
        }
        lemma_slot_is(front, log.last().instant(), front.len() as int);
    }
}

/// Puts the log in the order of time. Events of one instant keep the
/// order in which they stood; no event is lost or added.
pub fn sort_by_time(data: &mut Vec<TrackingEvent>)
    ensures
        final(data)@ == in_order(old(data)@),
        ordered(final(data)@),
        final(data)@.to_multiset() == old(data)@.to_multiset(),
        final(data)@.len() == old(data)@.len(),
{
    let mut sorted: Vec<TrackingEvent> = Vec::new();
    let mut i: usize = 0;
    while i < data.len()
        invariant
            i <= data@.len(),
            data@ == old(data)@,
            sorted@ == in_order(data@.take(i as int)),
            sorted@.len() == i,
        decreases data.len() - i,
    {
        let event = data[i].clone();
        let time = event.time(true);
        let mut k: usize = 0;
        while k < sorted.len() && sorted[k].time(true) <= time
            invariant
                k <= sorted@.len(),
                forall|j: int| 0 <= j < k ==> (#[trigger] sorted@[j]).instant() <= time,
            decreases sorted.len() - k,
        {
            k += 1;
        }
        proof {
            lemma_slot_is(sorted@, time as int, k as int);
            let longer = data@.take(i + 1);
            assert(longer.drop_last() =~= data@.take(i as int));
            sorted@.insert_ensures(k as int, event);
        }
        sorted.insert(k, event);
        i += 1;
    }
    proof {
        assert(data@.take(data@.len() as int) =~= data@);
        lemma_in_order(data@);
    }
    *data = sorted;
}

/// Takes out of the log every event that repeats the event before it.
pub fn remove_repeats(data: &mut Vec<TrackingEvent>)
    ensures
        final(data)@ == without_repeats(old(data)@),
{
    let mut kept: Vec<TrackingEvent> = Vec::new();
    let mut i: usize = 0;
    while i < data.len()
        invariant
            i <= data@.len(),
            data@ == old(data)@,
            kept@ == without_repeats(data@.take(i as int)),
        decreases data.len() - i,
    {
        proof {
            let longer = data@.take(i + 1);
            assert(longer.drop_last() =~= data@.take(i as int));
        }
        if i == 0 || data[i] != data[i - 1] {
            kept.push(data[i].clone());
        }
        i += 1;
    }
    proof {
        assert(data@.take(data@.len() as int) =~= data@);
    }
    *data = kept;
}

/// Readies a log for storing: puts it in the order of time, events of one
/// instant in the order in which they stood, and takes out every event
/// that repeats the event before it.
pub fn normalize(data: &mut Vec<TrackingEvent>)
    ensures
        final(data)@ == without_repeats(in_order(old(data)@)),
{
    sort_by_time(data);
    remove_repeats(data);
}

} // verus!
