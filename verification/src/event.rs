//! The event model: a start or stop record with an instant and an optional
//! description.

use vstd::prelude::*;
use crate::text::{same_text, text_of};

verus! {

/// Largest instant, in seconds since the Unix epoch (UTC), that an event may
/// carry. It lies a few centuries inside the range of the calendar library,
/// so that shifting an instant by a zone offset never leaves that range.
pub const MAX_INSTANT: i64 = 8_200_000_000_000;

/// Smallest instant that an event may carry.
pub const MIN_INSTANT: i64 = -8_200_000_000_000;

/// Whether `t` is an instant that an event may carry.
pub open spec fn valid_instant(t: int) -> bool {
    MIN_INSTANT <= t <= MAX_INSTANT
}

/// An optional number of seconds as a mathematical integer.
pub open spec fn int_of(t: Option<i64>) -> Option<int> {
    match t {
        Some(v) => Some(v as int),
        None => None,
    }
}

/// The start of the minute that holds instant `t`.
pub open spec fn whole_minute(t: int) -> int {
    t - t % 60
}

/// The instant as the aggregation reads it: as it is, or with its seconds
/// set to zero.
pub open spec fn read_instant(t: int, include_seconds: bool) -> int {
    if include_seconds {
        t
    } else {
        whole_minute(t)
    }
}

/// Sets the seconds of instant `t` to zero.
pub fn truncate_to_minute(t: i64) -> (r: i64)
    requires
        valid_instant(t as int),
    ensures
        r == whole_minute(t as int),
        r <= t < r + 60,
{
    let rest: i64 = t % 60;
    if rest < 0 {
        t - rest - 60
    } else {
        t - rest
    }
}

/// Payload of an event: what was worked on, and when.
#[derive(Debug)]
pub struct TrackingData {
    description: Option<String>,
    time: i64,
}

impl TrackingData {
    /// The instant of a record is one that events may carry.
    #[verifier::type_invariant]
    spec fn in_range(self) -> bool {
        valid_instant(self.time as int)
    }

    /// The instant of the record, in seconds since the Unix epoch (UTC).
    pub closed spec fn instant(self) -> int {
        self.time as int
    }

    /// The description of the record, if it has one.
    pub closed spec fn text(self) -> Option<String> {
        self.description
    }

    /// A record with the given description and instant; `None` when the
    /// instant is outside the range that events may carry.
    pub fn new(description: Option<String>, time: i64) -> (r: Option<TrackingData>)
        ensures
            r is Some <==> valid_instant(time as int),
            r matches Some(d) ==> d.instant() == time && d.text() == description,
    {
        if MIN_INSTANT <= time && time <= MAX_INSTANT {
            Some(TrackingData { description, time })
        } else {
            None
        }
    }

    /// The instant of the record.
    pub fn time(&self) -> (t: i64)
        ensures
            t == self.instant(),
            valid_instant(t as int),
    {
        proof {
            use_type_invariant(self);
        }
        self.time
    }

    /// The description of the record.
    pub fn description(&self) -> (d: &Option<String>)
        ensures
            *d == self.text(),
    {
        &self.description
    }
}

impl PartialEq for TrackingData {
    fn eq(&self, other: &Self) -> (same: bool) {
        if self.time != other.time {
            return false;
        }
        match (&self.description, &other.description) {
            (Some(a), Some(b)) => same_text(a.as_str(), b.as_str()),
            (None, None) => true,
            _ => false,
        }
    }
}

impl vstd::std_specs::cmp::PartialEqSpecImpl for TrackingData {
    open spec fn obeys_eq_spec() -> bool {
        true
    }

    open spec fn eq_spec(&self, other: &Self) -> bool {
        self.instant() == other.instant() && text_of(self.text()) == text_of(other.text())
    }
}

impl Clone for TrackingData {
    fn clone(&self) -> (r: Self)
        ensures
            r == *self,
    {
        proof {
            use_type_invariant(self);
        }
        let description = match &self.description {
            Some(s) => Some(s.clone()),
            None => None,
        };
        TrackingData { description, time: self.time }
    }
}

/// One entry of the log: work started, or work stopped.
#[derive(Debug)]
pub enum TrackingEvent {
    Start(TrackingData),
    Stop(TrackingData),
}

impl TrackingEvent {
    /// The payload of the event.
    pub open spec fn data(self) -> TrackingData {
        match self {
            TrackingEvent::Start(d) => d,
            TrackingEvent::Stop(d) => d,
        }
    }

    /// The instant of the event, in seconds since the Unix epoch (UTC).
    pub open spec fn instant(self) -> int {
        self.data().instant()
    }

    /// The description of the event, if it has one.
    pub open spec fn text(self) -> Option<String> {
        self.data().text()
    }

    /// Whether the instant of the event is one that events may carry. Every
    /// event that exists at run time is; laws that speak of arbitrary
    /// events ask for it.
    pub open spec fn well_formed(self) -> bool {
        valid_instant(self.instant())
    }

    /// A start event; `None` when the instant is out of range.
    pub fn start(description: Option<String>, time: i64) -> (r: Option<TrackingEvent>)
        ensures
            r is Some <==> valid_instant(time as int),
            r matches Some(e) ==> e is Start && e.instant() == time && e.text() == description,
    {
        match TrackingData::new(description, time) {
            Some(d) => Some(TrackingEvent::Start(d)),
            None => None,
        }
    }

    /// A stop event; `None` when the instant is out of range.
    pub fn stop(description: Option<String>, time: i64) -> (r: Option<TrackingEvent>)
        ensures
            r is Some <==> valid_instant(time as int),
            r matches Some(e) ==> e is Stop && e.instant() == time && e.text() == description,
    {
        match TrackingData::new(description, time) {
            Some(d) => Some(TrackingEvent::Stop(d)),
            None => None,
        }
    }

    /// The instant of the event. Without `include_seconds` its seconds are
    /// set to zero.
    pub fn time(&self, include_seconds: bool) -> (t: i64)
        ensures
            t == read_instant(self.instant(), include_seconds),
            self.well_formed(),
            include_seconds ==> valid_instant(t as int),
            MIN_INSTANT - 60 < t <= MAX_INSTANT,
    {
        let time = match self {
            TrackingEvent::Start(d) => d.time(),
            TrackingEvent::Stop(d) => d.time(),
        };
        if include_seconds {
            time
        } else {
            truncate_to_minute(time)
        }
    }

    /// The description of the event.
    pub fn description(&self) -> (d: Option<String>)
        ensures
            d == self.text(),
    {
        let text = match self {
            TrackingEvent::Start(d) => d.description(),
            TrackingEvent::Stop(d) => d.description(),
        };
        match text {
            Some(s) => Some(s.clone()),
            None => None,
        }
    }

    /// Whether work started with this event.
    pub fn is_start(&self) -> (b: bool)
        ensures
            b == (self is Start),
    {
        match self {
            TrackingEvent::Start(_) => true,
            TrackingEvent::Stop(_) => false,
        }
    }

    /// Whether work stopped with this event.
    pub fn is_stop(&self) -> (b: bool)
        ensures
            b == (self is Stop),
    {
        match self {
            TrackingEvent::Start(_) => false,
            TrackingEvent::Stop(_) => true,
        }
    }
}

/// Whether two events are the same record: of one kind, at one instant,
/// with descriptions that read the same or with none.
pub open spec fn same_event(a: TrackingEvent, b: TrackingEvent) -> bool {
    (a is Start) == (b is Start) && a.instant() == b.instant() && text_of(a.text()) == text_of(
        b.text(),
    )
}

impl PartialEq for TrackingEvent {
    fn eq(&self, other: &Self) -> (same: bool) {
        match (self, other) {
            (TrackingEvent::Start(a), TrackingEvent::Start(b)) => a == b,
            (TrackingEvent::Stop(a), TrackingEvent::Stop(b)) => a == b,
            _ => false,
        }
    }
}

impl vstd::std_specs::cmp::PartialEqSpecImpl for TrackingEvent {
    open spec fn obeys_eq_spec() -> bool {
        true
    }

    open spec fn eq_spec(&self, other: &Self) -> bool {
        same_event(*self, *other)
    }
}

impl Clone for TrackingEvent {
    fn clone(&self) -> (r: Self)
        ensures
            r == *self,
    {
        match self {
            TrackingEvent::Start(d) => TrackingEvent::Start(d.clone()),
            TrackingEvent::Stop(d) => TrackingEvent::Stop(d.clone()),
        }
    }
}

/// Whether every event of the log carries an instant in range.
pub open spec fn well_formed_log(log: Seq<TrackingEvent>) -> bool {
    forall|i: int| 0 <= i < log.len() ==> (#[trigger] log[i]).well_formed()
}

} // verus!
