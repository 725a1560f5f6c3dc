//! One line of the day's listing for each event, and how it is styled.

use vstd::prelude::*;
use crate::classify::{classify, Classification};
use crate::event::{Event, EventView};
use crate::text::{decimal, decimal_text};
use crate::time::{Instant, Span};

verus! {

/// How a line of the listing is set off.
#[derive(Clone, Copy, Debug, PartialEq, Eq, Structural)]
pub enum Style {
    /// As an alert: the event is going on.
    Alert,
    /// Highlighted: the event starts soon.
    Highlight,
    /// Dimmed: the event is over.
    Dimmed,
    /// Not set off.
    Plain,
}

/// Shown in place of the time of day of an event that has no start.
pub const NO_START: &'static str = "<No start time given>";

/// The style of the line of an event in `state`.
pub open spec fn style_of(state: Classification) -> Style {
    match state {
        Classification::Ongoing => Style::Alert,
        Classification::StartingSoon => Style::Highlight,
        Classification::Ended => Style::Dimmed,
        Classification::Upcoming => Style::Plain,
        Classification::Undetermined => Style::Plain,
    }
}

/// The text of the line of `event`, which stands at place `number` of the
/// listing and starts at the time of day `clock`: the number, the title and
/// the time of day, then a mark for an instance of a recurrence and a mark
/// for an event that is going on at `now`.
pub open spec fn line_text(number: nat, event: EventView, clock: Option<Seq<char>>, now: int) -> Seq<
    char,
> {
    decimal(number) + ". "@ + event.title() + ": "@ + (match clock {
        Some(time_of_day) => time_of_day,
        None => NO_START@,
    }) + (if event.is_recurring() {
        " (recurring)"@
    } else {
        Seq::empty()
    }) + (if event.is_ongoing(now) {
        " (ONGOING)"@
    } else {
        Seq::empty()
    })
}

/// A line of the listing.
#[derive(Clone, Debug, PartialEq, Eq)]
pub struct Line {
    pub text: String,
    pub style: Style,
}

/// The view of an optional time of day.
pub open spec fn clock_view(clock: Option<&str>) -> Option<Seq<char>> {
    match clock {
        Some(time_of_day) => Some(time_of_day@),
        None => None,
    }
}

/// The style of the line of an event in `state`.
pub fn style_for(state: Classification) -> (style: Style)
    ensures
        style == style_of(state),
{
    match state {
        Classification::Ongoing => Style::Alert,
        Classification::StartingSoon => Style::Highlight,
        Classification::Ended => Style::Dimmed,
        Classification::Upcoming => Style::Plain,
        Classification::Undetermined => Style::Plain,
    }
}

/// The line of `event` in the listing at `now`.
///
/// `number` is the place of the event in the list, counted from 1, and
/// `clock` the time of day at which it starts, as the user's clock shows
/// it; an event without a start has none.
pub fn render_line(
    number: usize,
    event: &Event,
    clock: Option<&str>,
    now: &Instant,
    soon_window: &Span,
) -> (line: Line)
    ensures
        line.text@ == line_text(number as nat, event@, clock_view(clock), now@),
        line.style == style_of(event@.classification(now@, soon_window@)),
{
    let mut text = decimal_text(number);
    text.append(". ");
    text.append(event.title());
    text.append(": ");
    match clock {
        Some(time_of_day) => text.append(time_of_day),
        None => text.append(NO_START),
    }
    if event.is_recurring() {
        text.append(" (recurring)");
    } else {
        assert(text@ + Seq::<char>::empty() =~= text@);
    }
    if event.is_ongoing(now) {
        text.append(" (ONGOING)");
    } else {
        assert(text@ + Seq::<char>::empty() =~= text@);
    }
    Line { text, style: style_for(classify(event, now, soon_window)) }
}

} // verus!
