//! The timestamped event log and its inversion: the time from the start
//! and the time until the end always add up to the total run time.

use thrift_ffi::record::ElapsedTimeTracker;
use thrift_ffi::record::EventStamper;
use thrift_ffi::record::RemainingTimeInverter;
use thrift_ffi::record::TimeFromStart;
use thrift_ffi::record::TimeLookup;

#[test]
fn tracker_keeps_events_in_arrival_order() {
    let mut tracker: ElapsedTimeTracker<u32> = ElapsedTimeTracker::new();
    tracker.accept(1, TimeFromStart(10));
    tracker.accept(2, TimeFromStart(30));
    tracker.accept(1, TimeFromStart(45));
    let events = tracker.into_events();
    assert_eq!(events.len(), 3);
    assert_eq!(events[0], (1, TimeFromStart(10)));
    assert_eq!(events[1], (2, TimeFromStart(30)));
    assert_eq!(events[2], (1, TimeFromStart(45)));
}

#[test]
fn inversion_preserves_the_total_time() {
    let mut inverter: RemainingTimeInverter<u32> = RemainingTimeInverter::new();
    inverter.accept(1, TimeFromStart(250));
    inverter.accept(2, TimeFromStart(500));
    inverter.accept(3, TimeFromStart(750));
    let total = TimeFromStart(1000);
    let lookup = TimeLookup::invert(total, inverter);
    let entries = lookup.get_events();
    assert_eq!(entries.len(), 3);
    assert_eq!(entries[0].0, 1);
    assert_eq!(entries[0].1 .0, 750);
    assert_eq!(entries[1].0, 2);
    assert_eq!(entries[1].1 .0, 500);
    assert_eq!(entries[2].0, 3);
    assert_eq!(entries[2].1 .0, 250);
    // whatever the spacing, from-start plus until-end is the total
    assert_eq!(entries[0].1 .0 + 250, total.0);
    assert_eq!(entries[1].1 .0 + 500, total.0);
    assert_eq!(entries[2].1 .0 + 750, total.0);
}

#[test]
fn stamper_elapsed_times_never_run_backwards() {
    let stamper = EventStamper::now();
    let first = stamper.elapsed();
    let second = stamper.elapsed();
    assert!(second.0 >= first.0 || second.0 == 0);
}
