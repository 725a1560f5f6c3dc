//! The event record and the predicates on it that classification and
//! resolution share.

use vstd::prelude::*;
use crate::time::Instant;

verus! {

/// One way of joining a conference.
#[derive(Clone, Debug, PartialEq, Eq)]
pub struct EntryPoint {
    pub uri: Option<String>,
}

/// The conference attached to an event.
#[derive(Clone, Debug, PartialEq, Eq)]
pub struct Conference {
    pub entry_points: Option<Vec<EntryPoint>>,
}

/// A calendar event as the calendar service reports it.
///
/// `start` and `end` are absent for an event that has only a date.
#[derive(Clone, Debug, PartialEq, Eq)]
pub struct Event {
    pub summary: Option<String>,
    pub start: Option<Instant>,
    pub end: Option<Instant>,
    pub recurring_id: Option<String>,
    pub meet_link: Option<String>,
    pub conference: Option<Conference>,
}

/// What an event is to the rules: texts as character sequences, instants
/// as nanoseconds since the epoch, and the conference reduced to the
/// addresses of its entry points, in order.
pub struct EventView {
    pub summary: Option<Seq<char>>,
    pub start: Option<int>,
    pub end: Option<int>,
    pub recurring_id: Option<Seq<char>>,
    pub meet_link: Option<Seq<char>>,
    pub entry_uris: Seq<Option<Seq<char>>>,
}

/// The view of an optional text.
pub open spec fn text_view(text: Option<String>) -> Option<Seq<char>> {
    match text {
        Some(s) => Some(s@),
        None => None,
    }
}

/// The view of an optional instant.
pub open spec fn instant_view(at: Option<Instant>) -> Option<int> {
    match at {
        Some(t) => Some(t@),
        None => None,
    }
}

impl View for EntryPoint {
    type V = Option<Seq<char>>;

    open spec fn view(&self) -> Option<Seq<char>> {
        text_view(self.uri)
    }
}

impl View for Conference {
    type V = Seq<Option<Seq<char>>>;

    open spec fn view(&self) -> Seq<Option<Seq<char>>> {
        match self.entry_points {
            Some(points) => points@.map_values(|p: EntryPoint| p@),
            None => Seq::empty(),
        }
    }
}

impl View for Event {
    type V = EventView;

    open spec fn view(&self) -> EventView {
        EventView {
            summary: text_view(self.summary),
            start: instant_view(self.start),
            end: instant_view(self.end),
            recurring_id: text_view(self.recurring_id),
            meet_link: text_view(self.meet_link),
            entry_uris: match self.conference {
                Some(c) => c@,
                None => Seq::empty(),
            },
        }
    }
}

/// The views of a list of events, in order.
pub open spec fn event_views(events: Seq<Event>) -> Seq<EventView> {
    events.map_values(|e: Event| e@)
}

impl EventView {
    /// The event has a start and it is not later than `now`.
    pub open spec fn has_started(self, now: int) -> bool {
        self.start matches Some(s) && s <= now
    }

    /// The event has an end and it is not later than `now`.
    pub open spec fn has_ended(self, now: int) -> bool {
        self.end matches Some(e) && e <= now
    }

    /// The event has started and has not ended.
    pub open spec fn is_ongoing(self, now: int) -> bool {
        self.has_started(now) && !self.has_ended(now)
    }

    /// The event has a start and it is later than `now`.
    pub open spec fn starts_after(self, now: int) -> bool {
        self.start matches Some(s) && s > now
    }

    /// The event has a start and it is not later than `now + window`.
    pub open spec fn starts_by(self, now: int, window: int) -> bool {
        self.start matches Some(s) && s <= now + window
    }

    /// The event does not end before it starts.
    pub open spec fn chronological(self) -> bool {
        self.start matches Some(s) ==> (self.end matches Some(e) ==> s <= e)
    }

    /// The event is an instance of a recurrence.
    pub open spec fn is_recurring(self) -> bool {
        self.recurring_id matches Some(id) && id.len() > 0
    }

    /// The address to join by: the direct meeting link where there is one,
    /// else the address of the first entry point of the conference.
    pub open spec fn link(self) -> Option<Seq<char>> {
        match self.meet_link {
            Some(direct) => Some(direct),
            None => if self.entry_uris.len() > 0 {
                self.entry_uris[0]
            } else {
                None
            },
        }
    }

    /// The title to show: the summary, or a fixed text where there is none.
    pub open spec fn title(self) -> Seq<char> {
        match self.summary {
            Some(s) => s,
            None => NO_SUMMARY@,
        }
    }
}

/// Shown in place of the summary of an event that has none.
pub const NO_SUMMARY: &'static str = "<No description given>";

impl Event {
    /// Whether the event has a start that is not later than `now`.
    pub fn has_started(&self, now: &Instant) -> (b: bool)
        ensures
            b == self@.has_started(now@),
    {
        match &self.start {
            Some(start) => start.is_at_or_before(now),
            None => false,
        }
    }

    /// Whether the event has an end that is not later than `now`.
    pub fn has_ended(&self, now: &Instant) -> (b: bool)
        ensures
            b == self@.has_ended(now@),
    {
        match &self.end {
            Some(end) => end.is_at_or_before(now),
            None => false,
        }
    }

    /// Whether the event has started and has not ended.
    pub fn is_ongoing(&self, now: &Instant) -> (b: bool)
        ensures
            b == self@.is_ongoing(now@),
    {
        self.has_started(now) && !self.has_ended(now)
    }

    /// Whether the event has a start that is later than `now`.
    pub fn starts_after(&self, now: &Instant) -> (b: bool)
        ensures
            b == self@.starts_after(now@),
    {
        match &self.start {
            Some(start) => start.is_after(now),
            None => false,
        }
    }

    /// Whether the event does not end before it starts.
    pub fn is_chronological(&self) -> (b: bool)
        ensures
            b == self@.chronological(),
    {
        match (&self.start, &self.end) {
            (Some(start), Some(end)) => start.is_at_or_before(end),
            _ => true,
        }
    }

    /// Whether the event is an instance of a recurrence.
    pub fn is_recurring(&self) -> (b: bool)
        ensures
            b == self@.is_recurring(),
    {
        match &self.recurring_id {
            Some(id) => !id.as_str().is_empty(),
            None => false,
        }
    }

    /// The title to show for the event.
    pub fn title(&self) -> (title: &str)
        ensures
            title@ == self@.title(),
    {
        match &self.summary {
            Some(summary) => summary.as_str(),
            None => NO_SUMMARY,
        }
    }
}

/// The address to join `event` by, if it has one: its direct meeting link,
/// else the address of the first entry point of its conference.
pub fn extract_link(event: &Event) -> (link: Option<&str>)
    ensures
        match link {
            Some(l) => event@.link() == Some(l@),
            None => event@.link().is_none(),
        },
{
    match &event.meet_link {
        Some(direct) => Some(direct.as_str()),
        None => match &event.conference {
            Some(conference) => match &conference.entry_points {
                Some(points) => if points.len() > 0 {
                    match &points[0].uri {
                        Some(uri) => Some(uri.as_str()),
                        None => None,
                    }
                } else {
                    None
                },
                None => None,
            },
            None => None,
        },
    }
}

} // verus!
