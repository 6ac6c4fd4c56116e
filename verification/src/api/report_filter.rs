//! Filter for events that should not be reported too often.

use std::time::Instant;

use vstd::prelude::*;

verus! {

/// A point in time of the monotonic clock.
#[verifier::external_type_specification]
#[verifier::external_body]
pub struct ExInstant(std::time::Instant);

/// Returns the time since `start` in nanoseconds, as `std::time::Instant::elapsed()` measures it.
///
/// Nothing is claimed of the result: it depends on when the function is called.
#[verifier::external_body]
pub(crate) fn elapsed_nanos(start: &Instant) -> (res: u128) {
    start.elapsed().as_nanos()
}

/// Clock that measures time in nanoseconds since its start.
#[derive(Debug, Clone, Copy)]
pub struct Clock {
    start: Instant,
}

impl Clock {
    /// Start of the clock.
    pub closed spec fn spec_start(&self) -> Instant {
        self.start
    }

    /// Creates a clock with the specified start.
    pub fn new(start: Instant) -> (res: Self)
        ensures
            res.spec_start() == start,
    {
        Clock { start }
    }

    /// Returns the time since the start of the clock.
    pub(crate) fn now(&self) -> (res: u128) {
        elapsed_nanos(&self.start)
    }
}

/// Allows filtering events (e.g., for logging) so that they are reported no more frequently than
/// with a configurable interval.
#[derive(Debug, Clone, Copy, PartialEq, Eq)]
pub struct ReportFilter {
    /// Interval between reports, in nanoseconds.
    pub interval: u128,
    /// Time of the latest report, in nanoseconds.
    pub last_timestamp: Option<u128>,
}

impl ReportFilter {
    /// Whether an event at the specified time should be reported: nothing has been reported yet, or
    /// more than the interval has passed since the latest report.
    pub open spec fn is_due(self, now: u128) -> bool {
        match self.last_timestamp {
            Some(timestamp) => now - timestamp > self.interval,
            None => true,
        }
    }

    /// The filter after an event at the specified time.
    pub open spec fn after_event(self, now: u128) -> Self {
        if self.is_due(now) {
            ReportFilter { last_timestamp: Some(now), ..self }
        } else {
            self
        }
    }

    /// Creates a filter that has not reported anything yet.
    pub fn new(interval: u128) -> (res: Self)
        ensures
            res == (ReportFilter { interval, last_timestamp: None }),
    {
        ReportFilter { interval, last_timestamp: None }
    }

    /// Checks whether an event that happens now should be reported.
    ///
    /// Should be called sparingly, since it involves moderately heavy operations (getting current
    /// time).
    pub fn should_report(&mut self, clock: &Clock) -> (res: bool)
        ensures
            exists|now: u128| #[trigger]
                old(self).is_due(now) == res && *final(self) == old(self).after_event(now),
    {
        let now = clock.now();
        self.should_report_at(now)
    }

    /// Checks whether an event at the specified time should be reported.
    pub fn should_report_at(&mut self, now: u128) -> (res: bool)
        ensures
            res == old(self).is_due(now),
            *final(self) == old(self).after_event(now),
    {
        let is_due = match self.last_timestamp {
            Some(timestamp) => now > timestamp && now - timestamp > self.interval,
            None => true,
        };
        if is_due {
            self.last_timestamp = Some(now);
        }
        is_due
    }
}

/// The filter after events at the specified times.
pub open spec fn after_events(filter: ReportFilter, times: Seq<u128>) -> ReportFilter
    decreases times.len(),
{
    if times.len() == 0 {
        filter
    } else {
        after_events(filter, times.drop_last()).after_event(times.last())
    }
}

/// Whether the event with the specified index is reported.
pub open spec fn is_reported(filter: ReportFilter, times: Seq<u128>, index: int) -> bool {
    after_events(filter, times.take(index)).is_due(times[index])
}

/// After events that include a report, the filter remembers the time of the latest one, which is no
/// earlier than the time of any report.
proof fn lemma_latest_report(filter: ReportFilter, times: Seq<u128>, index: int)
    requires
        0 <= index < times.len(),
        is_reported(filter, times, index),
    ensures
        after_events(filter, times).interval == filter.interval,
        after_events(filter, times).last_timestamp matches Some(timestamp) && timestamp
            >= times[index],
    decreases times.len(),
{
    let rest = times.drop_last();
    lemma_interval_is_kept(filter, rest);
    assert(times.take(times.len() - 1) =~= rest);
    if index < times.len() - 1 {
        assert(rest.take(index) =~= times.take(index));
        lemma_latest_report(filter, rest, index);
    }
}

/// Events do not change the interval.
proof fn lemma_interval_is_kept(filter: ReportFilter, times: Seq<u128>)
    ensures
        after_events(filter, times).interval == filter.interval,
    decreases times.len(),
{
    if times.len() > 0 {
        lemma_interval_is_kept(filter, times.drop_last());
    }
}

/// Whatever the times of events are, more than the interval lies between any two reports.
pub proof fn law_reports_are_spaced(
    filter: ReportFilter,
    times: Seq<u128>,
    earlier: int,
    later: int,
)
    requires
        0 <= earlier < later < times.len(),
        is_reported(filter, times, earlier),
        is_reported(filter, times, later),
    ensures
        times[later] - times[earlier] > filter.interval,
{
    let before = times.take(later);
    assert(before.take(earlier) =~= times.take(earlier));
    lemma_latest_report(filter, before, earlier);
}

/// An event is left out only if another one has been reported no more than the interval before it.
pub proof fn law_suppressed_event_follows_report(interval: u128, times: Seq<u128>, index: int)
    requires
        0 <= index < times.len(),
        !is_reported(ReportFilter { interval, last_timestamp: None }, times, index),
    ensures
        exists|earlier: int|
            0 <= earlier < index && #[trigger] is_reported(
                ReportFilter { interval, last_timestamp: None },
                times,
                earlier,
            ) && times[index] - times[earlier] <= interval,
{
    let filter = ReportFilter { interval, last_timestamp: None };
    let before = times.take(index);
    lemma_interval_is_kept(filter, before);
    lemma_timestamp_is_of_report(filter, before);
    let earlier = choose|earlier: int|
        0 <= earlier < before.len() && #[trigger] is_reported(filter, before, earlier)
            && after_events(filter, before).last_timestamp == Some(before[earlier]);
    assert(before.take(earlier) =~= times.take(earlier));
    assert(is_reported(filter, times, earlier));
}

/// The time that the filter remembers, if it did not start with one, is the time of a report.
proof fn lemma_timestamp_is_of_report(filter: ReportFilter, times: Seq<u128>)
    requires
        filter.last_timestamp is None,
        after_events(filter, times).last_timestamp is Some,
    ensures
        exists|index: int|
            0 <= index < times.len() && #[trigger] is_reported(filter, times, index)
                && after_events(filter, times).last_timestamp == Some(times[index]),
    decreases times.len(),
{
    let rest = times.drop_last();
    let last = times.len() - 1;
    assert(times.take(last) =~= rest);
    if is_reported(filter, times, last) {
        assert(after_events(filter, times).last_timestamp == Some(times[last]));
    } else {
        lemma_timestamp_is_of_report(filter, rest);
        let index = choose|index: int|
            0 <= index < rest.len() && #[trigger] is_reported(filter, rest, index)
                && after_events(filter, rest).last_timestamp == Some(rest[index]);
        assert(rest.take(index) =~= times.take(index));
        assert(is_reported(filter, times, index));
    }
}

} // verus!
