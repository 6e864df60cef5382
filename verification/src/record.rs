//! The timestamped event log: stream emissions stamped with the elapsed
//! time from the start of a run, and the inversion that turns a finished
//! run's log into remaining-time entries.

use vstd::prelude::*;

verus! {

/// States of a stream.
#[derive(Debug, Clone, Copy, PartialEq, Eq, Hash)]
pub enum Emission<E, F> {
    /// The stream is still ongoing, and has yielded a value.
    Intermediate(E),
    /// The stream has completed, and has yielded a separate type of value.
    Final(F),
}

/// The elapsed time from when a process was invoked to this event being
/// recorded, in nanoseconds.
#[derive(Debug, Clone, Copy, PartialEq, Eq, Hash, Structural)]
pub struct TimeFromStart(pub u128);

/// The elapsed time from this event being recorded to the end of the
/// process invocation, in nanoseconds.
#[derive(Debug, Clone, Copy, PartialEq, Eq, Hash, Structural)]
pub struct RemainingTime(pub u128);

/// A timestamped record of an emission.
#[derive(Debug, Clone, Copy, PartialEq, Eq, Hash)]
pub struct Event<E, F> {
    /// Time since the [`EventStamper`] was created.
    pub timestamp: TimeFromStart,
    /// Emission from the stream.
    pub emission: Emission<E, F>,
}

/// Relies on `std::time::SystemTime::now` and the duration since the epoch,
/// converted to plain nanoseconds; a clock before the epoch reads as zero.
/// The value depends on the wall clock, so nothing is promised of it.
#[verifier::external_body]
pub(crate) fn epoch_nanos_now() -> (r: u128) {
    std::time::SystemTime::now()
        .duration_since(std::time::SystemTime::UNIX_EPOCH)
        .map(|d| d.as_nanos())
        .unwrap_or(0)
}

/// Timestamp values from a stream, measured against the moment the stamper
/// was created.
pub struct EventStamper {
    start_nanos: u128,
}

impl EventStamper {
    /// The moment the stamper was created, in epoch nanoseconds.
    pub closed spec fn spec_start(self) -> u128 {
        self.start_nanos
    }

    /// Create a timestamper measuring from now.
    pub fn now() -> (s: EventStamper) {
        EventStamper { start_nanos: epoch_nanos_now() }
    }

    /// The elapsed time since the stamper was created; zero if the wall
    /// clock has moved backwards meanwhile.
    pub fn elapsed(&self) -> (t: TimeFromStart) {
        let nanos = epoch_nanos_now();
        if nanos >= self.start_nanos {
            TimeFromStart(nanos - self.start_nanos)
        } else {
            TimeFromStart(0)
        }
    }

    /// Stamp an already obtained emission with the elapsed time.
    pub fn stamp<E, F>(&self, emission: Emission<E, F>) -> (e: Event<E, F>) {
        Event { timestamp: self.elapsed(), emission }
    }
}

/// An in-memory store recording intermediate emissions and their timings
/// from the start of the run, in arrival order.
pub struct ElapsedTimeTracker<E> {
    events: Vec<(E, TimeFromStart)>,
}

impl<E> ElapsedTimeTracker<E> {
    /// The recorded events in arrival order.
    pub closed spec fn spec_events(self) -> Seq<(E, TimeFromStart)> {
        self.events@
    }

    /// Create a new event log to record a process invocation.
    pub fn new() -> (t: ElapsedTimeTracker<E>)
        ensures
            t.spec_events() == Seq::<(E, TimeFromStart)>::empty(),
    {
        ElapsedTimeTracker { events: Vec::new() }
    }

    /// While the process is still emitting intermediate emissions, record
    /// each of them here.
    pub fn accept(&mut self, intermediate_emission: E, timestamp: TimeFromStart)
        ensures
            final(self).spec_events() == old(self).spec_events().push(
                (intermediate_emission, timestamp),
            ),
    {
        self.events.push((intermediate_emission, timestamp));
    }

    /// Hand the recorded events back out, in arrival order.
    pub fn into_events(self) -> (r: Vec<(E, TimeFromStart)>)
        ensures
            r@ == self.spec_events(),
    {
        let ElapsedTimeTracker { events } = self;
        events
    }
}

/// An in-memory store recording intermediate emissions and their timings
/// from the start of the run; the raw material [`TimeLookup::invert`] turns
/// into remaining times once the run has finished.
pub struct RemainingTimeInverter<E> {
    events_from_start: Vec<(E, TimeFromStart)>,
}

impl<E> RemainingTimeInverter<E> {
    /// The recorded events in arrival order.
    pub closed spec fn spec_events(self) -> Seq<(E, TimeFromStart)> {
        self.events_from_start@
    }

    /// Create a new event log to record a process invocation.
    pub fn new() -> (t: RemainingTimeInverter<E>)
        ensures
            t.spec_events() == Seq::<(E, TimeFromStart)>::empty(),
    {
        RemainingTimeInverter { events_from_start: Vec::new() }
    }

    /// While the process is still emitting intermediate emissions, record
    /// each of them here.
    pub fn accept(&mut self, intermediate_emission: E, timestamp: TimeFromStart)
        ensures
            final(self).spec_events() == old(self).spec_events().push(
                (intermediate_emission, timestamp),
            ),
    {
        self.events_from_start.push((intermediate_emission, timestamp));
    }
}

/// The inverted table: for each recorded event, the time that remained
/// until the run's final emission.
pub struct TimeLookup<E> {
    events_from_end: Vec<(E, RemainingTime)>,
}

impl<E> TimeLookup<E> {
    /// The inverted entries, in the order the events were recorded.
    pub closed spec fn spec_events(self) -> Seq<(E, RemainingTime)> {
        self.events_from_end@
    }

    /// Create the remaining-time table from a finished run: each recorded
    /// event's distance to the final timestamp. The final timestamp comes
    /// from the single final emission, so every recorded event lies at or
    /// before it.
    ///
    /// For every entry, the time from the start and the time until the end
    /// add up to the run's total time — the invariant the inversion exists
    /// to provide.
    pub fn invert(final_time: TimeFromStart, inverter: RemainingTimeInverter<E>) -> (r: TimeLookup<
        E,
    >)
        requires
            forall|i: int|
                0 <= i < inverter.spec_events().len() ==> (#[trigger] inverter.spec_events()[i]).1.0
                    <= final_time.0,
        ensures
            r.spec_events().len() == inverter.spec_events().len(),
            forall|i: int|
                0 <= i < r.spec_events().len() ==> (#[trigger] r.spec_events()[i]).0
                    == inverter.spec_events()[i].0 && r.spec_events()[i].1.0
                    + inverter.spec_events()[i].1.0 == final_time.0,
    {
        let RemainingTimeInverter { events_from_start } = inverter;
        let ghost source = events_from_start@;
        let mut events_from_end: Vec<(E, RemainingTime)> = Vec::new();
        let mut rest = events_from_start;
        let mut taken: usize = 0;
        let n = rest.len();
        proof {
            assert(source == inverter.spec_events());
            assert(rest@ =~= source.skip(0));
        }
        // consume the source front to back, moving each emission over
        while taken < n
            invariant
                source.len() == n,
                0 <= taken <= n,
                rest@ == source.skip(taken as int),
                events_from_end@.len() == taken,
                forall|i: int|
                    0 <= i < source.len() ==> (#[trigger] source[i]).1.0 <= final_time.0,
                forall|i: int|
                    0 <= i < taken ==> (#[trigger] events_from_end@[i]).0 == source[i].0
                        && events_from_end@[i].1.0 + source[i].1.0 == final_time.0,
            decreases n - taken,
        {
            let (emission, timestamp) = rest.remove(0);
            proof {
                assert(source.skip(taken as int)[0] == source[taken as int]);
                assert(rest@ =~= source.skip(taken + 1));
            }
            let remaining = RemainingTime(final_time.0 - timestamp.0);
            events_from_end.push((emission, remaining));
            taken = taken + 1;
        }
        TimeLookup { events_from_end }
    }

    /// Hand the inverted entries back out.
    pub fn get_events(self) -> (r: Vec<(E, RemainingTime)>)
        ensures
            r@ == self.spec_events(),
    {
        let TimeLookup { events_from_end } = self;
        events_from_end
    }
}

} // verus!
