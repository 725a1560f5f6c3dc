//! The temporal state of one event at a given instant.

use vstd::prelude::*;
use crate::event::{Event, EventView};
use crate::time::{Instant, Span};

verus! {

/// The temporal state of an event.
#[derive(Clone, Copy, Debug, PartialEq, Eq, Structural)]
pub enum Classification {
    /// It has ended.
    Ended,
    /// It has started and has not ended.
    Ongoing,
    /// It has not started and starts within the lookahead window.
    StartingSoon,
    /// It starts later than the lookahead window reaches.
    Upcoming,
    /// It has no start to reason about.
    Undetermined,
}

impl EventView {
    /// The event has not started and starts no later than `now + window`.
    pub open spec fn starts_soon(self, now: int, window: int) -> bool {
        !self.has_started(now) && self.starts_by(now, window)
    }

    /// The state of the event at `now`, with lookahead `window`.
    ///
    /// The states are tried in the order ongoing, starting soon, ended;
    /// what is left is upcoming where the event has a start, and
    /// undetermined where it has none.
    pub open spec fn classification(self, now: int, window: int) -> Classification {
        if self.is_ongoing(now) {
            Classification::Ongoing
        } else if self.starts_soon(now, window) {
            Classification::StartingSoon
        } else if self.has_ended(now) {
            Classification::Ended
        } else if self.start.is_some() {
            Classification::Upcoming
        } else {
            Classification::Undetermined
        }
    }
}

/// Classifies `event` at `now`, with lookahead `soon_window`.
pub fn classify(event: &Event, now: &Instant, soon_window: &Span) -> (state: Classification)
    ensures
        state == event@.classification(now@, soon_window@),
{
    let started = event.has_started(now);
    let ended = event.has_ended(now);
    if started && !ended {
        return Classification::Ongoing;
    }
    match &event.start {
        Some(start) => {
            if !started && start.is_within(now, soon_window) {
                Classification::StartingSoon
            } else if ended {
                Classification::Ended
            } else {
                Classification::Upcoming
            }
        },
        None => {
            if ended {
                Classification::Ended
            } else {
                Classification::Undetermined
            }
        },
    }
}

/// Every event is in exactly one state.
///
/// Where the event does not end before it starts, the three conditions
/// that are tried in order exclude one another, so that the order in which
/// they are tried decides nothing: each state is the state of the event
/// exactly when its own condition holds.
pub proof fn lemma_classification_well_defined(event: EventView, now: int, window: int)
    requires
        event.chronological(),
    ensures
        event.classification(now, window) == Classification::Ongoing <==> event.is_ongoing(now),
        event.classification(now, window) == Classification::StartingSoon <==> event.starts_soon(
            now,
            window,
        ),
        event.classification(now, window) == Classification::Ended <==> event.has_ended(now),
        event.classification(now, window) == Classification::Upcoming <==> (event.start.is_some()
            && !event.has_started(now) && !event.starts_by(now, window) && !event.has_ended(now)),
        event.classification(now, window) == Classification::Undetermined <==> (
        event.start.is_none() && !event.has_ended(now)),
        !(event.is_ongoing(now) && event.starts_soon(now, window)),
        !(event.is_ongoing(now) && event.has_ended(now)),
        !(event.starts_soon(now, window) && event.has_ended(now)),
{
}

/// An ongoing event was ongoing at every earlier instant from its start on,
/// whatever the lookahead windows.
pub proof fn lemma_ongoing_since_start(
    event: EventView,
    now: int,
    earlier: int,
    window: int,
    earlier_window: int,
)
    requires
        event.classification(now, window) == Classification::Ongoing,
        event.start matches Some(start) && start <= earlier,
        earlier <= now,
    ensures
        event.classification(earlier, earlier_window) == Classification::Ongoing,
{
}

/// An event that has started and has not ended is ongoing, also where its
/// start lies within the lookahead window: it is never starting soon.
pub proof fn lemma_ongoing_before_starting_soon(event: EventView, now: int, window: int)
    requires
        event.start matches Some(start) && start <= now && start <= now + window,
        event.end matches Some(end) ==> end > now,
    ensures
        event.classification(now, window) == Classification::Ongoing,
        event.classification(now, window) != Classification::StartingSoon,
{
}

} // verus!
