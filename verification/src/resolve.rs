//! Which event's meeting link to open.

use vstd::prelude::*;
use crate::event::{event_views, extract_link, Event, EventView};
use crate::text::{decimal, decimal_text, lemma_decimal_injective};
use crate::time::Instant;

verus! {

/// Why no meeting link could be resolved.
#[derive(Clone, Copy, Debug, PartialEq, Eq, Structural)]
pub enum ResolutionError {
    /// The explicit index, as given, is not that of an event in the list.
    NoEventAtIndex(usize),
    /// The event at the explicit index has no link.
    NoLinkForEvent,
    /// An event is ongoing and has no link.
    NoLinkForOngoingEvent,
    /// No event is ongoing and none starts later.
    NoUpcomingEvents,
    /// No event is ongoing and the next one to start has no link.
    NoLinkOnNextEvent,
}

/// By which rule an event was selected.
#[derive(Clone, Copy, Debug, PartialEq, Eq, Structural)]
pub enum Route {
    /// It stands at the explicit index.
    ExplicitIndex,
    /// It is the first ongoing event.
    Ongoing,
    /// It is the first event that starts later.
    NextUpcoming,
}

/// The selected event and its link.
#[derive(Clone, Debug, PartialEq, Eq)]
pub struct Resolution {
    /// Position of the event in the list, from 0.
    pub position: usize,
    /// The address to open.
    pub link: String,
    /// The rule that selected the event.
    pub route: Route,
}

/// What a resolution is to the rules: the position as an integer and the
/// link as a character sequence.
pub struct ResolutionView {
    pub position: int,
    pub link: Seq<char>,
    pub route: Route,
}

impl View for Resolution {
    type V = ResolutionView;

    open spec fn view(&self) -> ResolutionView {
        ResolutionView { position: self.position as int, link: self.link@, route: self.route }
    }
}

/// The view of what `resolve` returns.
pub open spec fn outcome_view(outcome: Result<Resolution, ResolutionError>) -> Result<
    ResolutionView,
    ResolutionError,
> {
    match outcome {
        Ok(resolution) => Ok(resolution@),
        Err(error) => Err(error),
    }
}

impl ResolutionError {
    /// The message that tells the user of the error.
    pub open spec fn message_text(self) -> Seq<char> {
        match self {
            ResolutionError::NoEventAtIndex(number) => "No event found at index "@ + decimal(
                number as nat,
            ),
            ResolutionError::NoLinkForEvent => "No Google Meet link found for event"@,
            ResolutionError::NoLinkForOngoingEvent => "No Google Meet link found for ongoing event"@,
            ResolutionError::NoUpcomingEvents => "No upcoming events found"@,
            ResolutionError::NoLinkOnNextEvent => "No ongoing or upcoming events found, specify the index of the event"@,
        }
    }

    /// Whether the two errors are of the same kind, whatever they carry.
    pub open spec fn same_kind(self, other: ResolutionError) -> bool {
        match self {
            ResolutionError::NoEventAtIndex(_) => other is NoEventAtIndex,
            ResolutionError::NoLinkForEvent => other is NoLinkForEvent,
            ResolutionError::NoLinkForOngoingEvent => other is NoLinkForOngoingEvent,
            ResolutionError::NoUpcomingEvents => other is NoUpcomingEvents,
            ResolutionError::NoLinkOnNextEvent => other is NoLinkOnNextEvent,
        }
    }

    /// The message that tells the user of the error.
    pub fn message(&self) -> (text: String)
        ensures
            text@ == self.message_text(),
    {
        match self {
            ResolutionError::NoEventAtIndex(number) => {
                let numeral = decimal_text(*number);
                String::from_str("No event found at index ").concat(numeral.as_str())
            },
            ResolutionError::NoLinkForEvent => String::from_str(
                "No Google Meet link found for event",
            ),
            ResolutionError::NoLinkForOngoingEvent => String::from_str(
                "No Google Meet link found for ongoing event",
            ),
            ResolutionError::NoUpcomingEvents => String::from_str("No upcoming events found"),
            ResolutionError::NoLinkOnNextEvent => String::from_str(
                "No ongoing or upcoming events found, specify the index of the event",
            ),
        }
    }
}

impl Route {
    /// How the announcement names an event selected by this rule.
    pub open spec fn phrase(self) -> Seq<char> {
        match self {
            Route::ExplicitIndex => Seq::empty(),
            Route::Ongoing => "ongoing event "@,
            Route::NextUpcoming => "next event "@,
        }
    }
}

/// The line that announces which link is opened, for an event with this
/// title that was selected by `route`.
pub open spec fn announcement_text(route: Route, title: Seq<char>, link: Seq<char>) -> Seq<char> {
    "Opening Google Meet link for "@ + route.phrase() + "'"@ + title + "' ("@ + link + ")"@
}

/// The line that announces the opening of the link of `resolution`, where
/// `event` is the event that it selected.
pub fn announcement(event: &Event, resolution: &Resolution) -> (text: String)
    ensures
        text@ == announcement_text(resolution.route, event@.title(), resolution.link@),
{
    let mut text = String::from_str("Opening Google Meet link for ");
    match resolution.route {
        Route::ExplicitIndex => {
            assert(text@ + Seq::<char>::empty() =~= text@);
        },
        Route::Ongoing => {
            text.append("ongoing event ");
        },
        Route::NextUpcoming => {
            text.append("next event ");
        },
    }
    text.append("'");
    text.append(event.title());
    text.append("' (");
    text.append(resolution.link.as_str());
    text.append(")");
    text
}

/// The events that are ongoing at `now`.
pub open spec fn ongoing_at(now: int) -> spec_fn(EventView) -> bool {
    |event: EventView| event.is_ongoing(now)
}

/// The events that start later than `now`.
pub open spec fn starting_after(now: int) -> spec_fn(EventView) -> bool {
    |event: EventView| event.starts_after(now)
}

/// The position of the first event at or behind `from` that is among
/// `wanted`.
pub open spec fn first_where(
    events: Seq<EventView>,
    wanted: spec_fn(EventView) -> bool,
    from: int,
) -> Option<int>
    decreases events.len() - from,
{
    if from < 0 || from >= events.len() {
        None
    } else if wanted(events[from]) {
        Some(from)
    } else {
        first_where(events, wanted, from + 1)
    }
}

/// The event at `position` with its link, or `missing` where it has none.
pub open spec fn with_link(
    events: Seq<EventView>,
    position: int,
    route: Route,
    missing: ResolutionError,
) -> Result<ResolutionView, ResolutionError> {
    match events[position].link() {
        Some(link) => Ok(ResolutionView { position, link, route }),
        None => Err(missing),
    }
}

/// The event whose link is to be opened.
///
/// An explicit index, counted from 1, selects the event at that place and
/// nothing else. Without one, the first ongoing event is selected; where
/// none is ongoing, the first event that starts later. Whichever event is
/// selected, the result is its link, or the error that says which rule
/// found an event without one.
pub open spec fn resolution(
    events: Seq<EventView>,
    now: int,
    explicit_index: Option<usize>,
) -> Result<ResolutionView, ResolutionError> {
    match explicit_index {
        Some(number) => if 1 <= number <= events.len() {
            with_link(events, number - 1, Route::ExplicitIndex, ResolutionError::NoLinkForEvent)
        } else {
            Err(ResolutionError::NoEventAtIndex(number))
        },
        None => match first_where(events, ongoing_at(now), 0) {
            Some(position) => with_link(
                events,
                position,
                Route::Ongoing,
                ResolutionError::NoLinkForOngoingEvent,
            ),
            None => match first_where(events, starting_after(now), 0) {
                Some(position) => with_link(
                    events,
                    position,
                    Route::NextUpcoming,
                    ResolutionError::NoLinkOnNextEvent,
                ),
                None => Err(ResolutionError::NoUpcomingEvents),
            },
        },
    }
}

/// The view of an optional position.
pub open spec fn position_view(position: Option<usize>) -> Option<int> {
    match position {
        Some(p) => Some(p as int),
        None => None,
    }
}

/// The position of the first event that is ongoing at `now`.
pub fn first_ongoing(events: &Vec<Event>, now: &Instant) -> (found: Option<usize>)
    ensures
        position_view(found) == first_where(event_views(events@), ongoing_at(now@), 0),
{
    let mut i: usize = 0;
    while i < events.len()
        invariant
            i <= events.len(),
            first_where(event_views(events@), ongoing_at(now@), 0) == first_where(
                event_views(events@),
                ongoing_at(now@),
                i as int,
            ),
        decreases events.len() - i,
    {
        if events[i].is_ongoing(now) {
            return Some(i);
        }
        i += 1;
    }
    None
}

/// The position of the first event that starts later than `now`.
pub fn first_upcoming(events: &Vec<Event>, now: &Instant) -> (found: Option<usize>)
    ensures
        position_view(found) == first_where(event_views(events@), starting_after(now@), 0),
{
    let mut i: usize = 0;
    while i < events.len()
        invariant
            i <= events.len(),
            first_where(event_views(events@), starting_after(now@), 0) == first_where(
                event_views(events@),
                starting_after(now@),
                i as int,
            ),
        decreases events.len() - i,
    {
        if events[i].starts_after(now) {
            return Some(i);
        }
        i += 1;
    }
    None
}

/// The event at `position` with its link, or `missing` where it has none.
fn select(events: &Vec<Event>, position: usize, route: Route, missing: ResolutionError) -> (outcome:
    Result<Resolution, ResolutionError>)
    requires
        position < events.len(),
    ensures
        outcome_view(outcome) == with_link(event_views(events@), position as int, route, missing),
{
    match extract_link(&events[position]) {
        Some(link) => Ok(Resolution { position, link: String::from_str(link), route }),
        None => Err(missing),
    }
}

/// Selects, among `events`, the event whose meeting link is to be opened
/// at `now`, and returns it with its link.
///
/// `explicit_index` is the place of an event in the list, counted from 1.
pub fn resolve(events: &Vec<Event>, now: &Instant, explicit_index: Option<usize>) -> (outcome:
    Result<Resolution, ResolutionError>)
    ensures
        outcome_view(outcome) == resolution(event_views(events@), now@, explicit_index),
{
    match explicit_index {
        Some(number) => {
            if 1 <= number && number <= events.len() {
                select(events, number - 1, Route::ExplicitIndex, ResolutionError::NoLinkForEvent)
            } else {
                Err(ResolutionError::NoEventAtIndex(number))
            }
        },
        None => match first_ongoing(events, now) {
            Some(position) => {
                proof {
                    lemma_first_where(event_views(events@), ongoing_at(now@), 0);
                }
                select(events, position, Route::Ongoing, ResolutionError::NoLinkForOngoingEvent)
            },
            None => match first_upcoming(events, now) {
                Some(position) => {
                    proof {
                        lemma_first_where(event_views(events@), starting_after(now@), 0);
                    }
                    select(
                        events,
                        position,
                        Route::NextUpcoming,
                        ResolutionError::NoLinkOnNextEvent,
                    )
                },
                None => Err(ResolutionError::NoUpcomingEvents),
            },
        },
    }
}

/// What `first_where` finds is among `wanted` and no event between `from`
/// and it is; where it finds nothing, no event from `from` on is.
pub proof fn lemma_first_where(
    events: Seq<EventView>,
    wanted: spec_fn(EventView) -> bool,
    from: int,
)
    requires
        0 <= from,
    ensures
        match first_where(events, wanted, from) {
            Some(position) => {
                &&& from <= position < events.len()
                &&& wanted(events[position])
                &&& forall|j: int| from <= j < position ==> !wanted(#[trigger] events[j])
            },
            None => forall|j: int| from <= j < events.len() ==> !wanted(#[trigger] events[j]),
        },
    decreases events.len() - from,
{
    if from < events.len() && !wanted(events[from]) {
        lemma_first_where(events, wanted, from + 1);
    }
}

/// Whether `outcome` is what `resolve` returns for these arguments.
pub open spec fn is_outcome(
    events: Seq<Event>,
    now: Instant,
    explicit_index: Option<usize>,
    outcome: Result<Resolution, ResolutionError>,
) -> bool {
    outcome_view(outcome) == resolution(event_views(events), now@, explicit_index)
}

/// Resolution is a function of its arguments: two outcomes for the same
/// events, the same instant and the same explicit index are the same
/// outcome.
pub proof fn lemma_resolution_deterministic(
    events: Seq<Event>,
    now: Instant,
    explicit_index: Option<usize>,
    first: Result<Resolution, ResolutionError>,
    second: Result<Resolution, ResolutionError>,
)
    requires
        is_outcome(events, now, explicit_index, first),
        is_outcome(events, now, explicit_index, second),
    ensures
        outcome_view(first) == outcome_view(second),
        first is Ok <==> second is Ok,
        first matches Ok(a) ==> second matches Ok(b) && a.position == b.position && a.link@
            == b.link@ && a.route == b.route,
        first matches Err(e) ==> second == Err::<Resolution, ResolutionError>(e),
{
}

/// An explicit index counts from 1: index 1 selects the first event, the
/// length of the list selects the last, and 0 or an index beyond the
/// length selects nothing and is handed back in the error.
pub proof fn lemma_explicit_index(events: Seq<EventView>, now: int, number: usize)
    ensures
        1 <= number <= events.len() ==> resolution(events, now, Some(number)) == with_link(
            events,
            number - 1,
            Route::ExplicitIndex,
            ResolutionError::NoLinkForEvent,
        ),
        number == 1 && events.len() >= 1 ==> resolution(events, now, Some(number)) == with_link(
            events,
            0,
            Route::ExplicitIndex,
            ResolutionError::NoLinkForEvent,
        ),
        number == events.len() && events.len() >= 1 ==> resolution(events, now, Some(number))
            == with_link(
            events,
            events.len() - 1,
            Route::ExplicitIndex,
            ResolutionError::NoLinkForEvent,
        ),
        number == 0 || number > events.len() ==> resolution(events, now, Some(number)) == Err::<
            ResolutionView,
            ResolutionError,
        >(ResolutionError::NoEventAtIndex(number)),
{
}

/// With an explicit index the instant decides nothing: an event that has
/// ended is selected like any other.
pub proof fn lemma_explicit_index_ignores_time(
    events: Seq<EventView>,
    now: int,
    other_now: int,
    number: usize,
)
    ensures
        resolution(events, now, Some(number)) == resolution(events, other_now, Some(number)),
{
}

/// Without an explicit index an ongoing event goes before every event that
/// starts later, with or without a link: the outcome is that of the first
/// ongoing event.
pub proof fn lemma_ongoing_goes_first(events: Seq<EventView>, now: int, position: int)
    requires
        0 <= position < events.len(),
        events[position].is_ongoing(now),
        forall|j: int| 0 <= j < position ==> !(#[trigger] events[j]).is_ongoing(now),
    ensures
        resolution(events, now, None) == with_link(
            events,
            position,
            Route::Ongoing,
            ResolutionError::NoLinkForOngoingEvent,
        ),
{
    lemma_first_where(events, ongoing_at(now), 0);
}

/// Without an explicit index and with no ongoing event, the outcome is
/// that of the first event that starts later; where there is none either,
/// it is `NoUpcomingEvents`.
pub proof fn lemma_next_upcoming(events: Seq<EventView>, now: int)
    requires
        forall|j: int| 0 <= j < events.len() ==> !(#[trigger] events[j]).is_ongoing(now),
    ensures
        (forall|j: int| 0 <= j < events.len() ==> !(#[trigger] events[j]).starts_after(now))
            ==> resolution(events, now, None) == Err::<ResolutionView, ResolutionError>(
            ResolutionError::NoUpcomingEvents,
        ),
        forall|position: int|
            0 <= position < events.len() && (#[trigger] events[position]).starts_after(now) && (
            forall|j: int| 0 <= j < position ==> !(#[trigger] events[j]).starts_after(now))
                ==> resolution(events, now, None) == with_link(
                events,
                position,
                Route::NextUpcoming,
                ResolutionError::NoLinkOnNextEvent,
            ),
{
    lemma_first_where(events, ongoing_at(now), 0);
    lemma_first_where(events, starting_after(now), 0);
}

/// The events that have a start stand in the order of their starts.
pub open spec fn sorted_by_start(events: Seq<EventView>) -> bool {
    forall|i: int, j: int|
        0 <= i < j < events.len() ==> ((#[trigger] events[i]).start matches Some(earlier) ==> ((
        #[trigger] events[j]).start matches Some(later) ==> earlier <= later))
}

/// Whether the events that have a start stand in the order of their
/// starts, as the resolver's reading of "next" takes for granted.
pub fn is_sorted_by_start(events: &Vec<Event>) -> (sorted: bool)
    ensures
        sorted == sorted_by_start(event_views(events@)),
{
    let ghost views = event_views(events@);
    let mut latest: Option<Instant> = None;
    let ghost mut latest_at: int = 0;
    let mut i: usize = 0;
    while i < events.len()
        invariant
            i <= events.len(),
            views == event_views(events@),
            forall|a: int, b: int|
                0 <= a < b < i ==> ((#[trigger] views[a]).start matches Some(earlier) ==> ((
                #[trigger] views[b]).start matches Some(later) ==> earlier <= later)),
            forall|k: int|
                0 <= k < i ==> ((#[trigger] views[k]).start matches Some(start) ==> (
                latest matches Some(l) && start <= l@)),
            latest matches Some(l) ==> 0 <= latest_at < i && views[latest_at].start == Some(l@),
        decreases events.len() - i,
    {
        match events[i].start {
            Some(start) => {
                match latest {
                    Some(l) => {
                        if !l.is_at_or_before(&start) {
                            assert(views[latest_at].start == Some(l@));
                            assert(views[i as int].start == Some(start@));
                            return false;
                        }
                    },
                    None => {},
                }
                latest = Some(start);
                proof {
                    latest_at = i as int;
                }
            },
            None => {},
        }
        i += 1;
    }
    true
}

/// In a list sorted by start, the first event that starts later than `now`
/// is the one that starts next: no event that starts later than `now`
/// starts before it.
pub proof fn lemma_first_upcoming_is_next(events: Seq<EventView>, now: int, other: int)
    requires
        sorted_by_start(events),
        first_where(events, starting_after(now), 0) is Some,
        0 <= other < events.len(),
        events[other].starts_after(now),
    ensures
        ({
            let first = first_where(events, starting_after(now), 0).unwrap();
            events[first].start.unwrap() <= events[other].start.unwrap()
        }),
{
    lemma_first_where(events, starting_after(now), 0);
}

/// Errors of different kinds have different messages, so that the kind can
/// be told from the message.
pub proof fn lemma_messages_tell_kinds_apart(first: ResolutionError, second: ResolutionError)
    requires
        !first.same_kind(second),
    ensures
        first.message_text() != second.message_text(),
{
    reveal_strlit("No event found at index ");
    reveal_strlit("No Google Meet link found for event");
    reveal_strlit("No Google Meet link found for ongoing event");
    reveal_strlit("No upcoming events found");
    reveal_strlit("No ongoing or upcoming events found, specify the index of the event");
    let a = first.message_text();
    let b = second.message_text();
    if first is NoEventAtIndex {
        assert(a[3] == 'e');
    }
    if second is NoEventAtIndex {
        assert(b[3] == 'e');
    }
    assert(a.len() != b.len() || a[3] != b[3]);
}

/// Different errors have different messages.
pub proof fn lemma_messages_tell_errors_apart(first: ResolutionError, second: ResolutionError)
    requires
        first != second,
    ensures
        first.message_text() != second.message_text(),
{
    if first.same_kind(second) {
        let lead = "No event found at index "@;
        let a = first->NoEventAtIndex_0 as nat;
        let b = second->NoEventAtIndex_0 as nat;
        if lead + decimal(a) == lead + decimal(b) {
            assert(decimal(a) =~= (lead + decimal(a)).subrange(
                lead.len() as int,
                (lead + decimal(a)).len() as int,
            ));
            assert(decimal(b) =~= (lead + decimal(b)).subrange(
                lead.len() as int,
                (lead + decimal(b)).len() as int,
            ));
            lemma_decimal_injective(a, b);
        }
    } else {
        lemma_messages_tell_kinds_apart(first, second);
    }
}

} // verus!
