//! The reminder record and its annotated form.

use crate::calendar::{Date, Ymd};
use crate::text::{compare_texts, lemma_text_order_equal_is_same, text_order};
use std::cmp::Ordering;
use vstd::std_specs::cmp::{PartialEqSpecImpl, PartialOrdSpecImpl};
use vstd::prelude::*;
use vstd::string::StringExecFns;

verus! {

/// One reminder: a day of the calendar, a short label and a description.
#[derive(Debug, Eq, Ord)]
pub struct Event {
    pub date: Date,
    pub category: String,
    pub description: String,
}

/// The model of an [`Event`].
pub struct EventView {
    pub date: Ymd,
    pub category: Seq<char>,
    pub description: Seq<char>,
}

impl EventView {
    /// How this event compares with `other`: by the date, then by the
    /// category, then by the description.
    pub open spec fn comparison(self, other: EventView) -> Ordering {
        if self.date.is_before(other.date) {
            Ordering::Less
        } else if other.date.is_before(self.date) {
            Ordering::Greater
        } else {
            match text_order(self.category, other.category) {
                Ordering::Equal => text_order(self.description, other.description),
                unequal => unequal,
            }
        }
    }

    /// The line that shows the event: its date, a colon, its description
    /// and, in brackets, its category.
    pub open spec fn line(self) -> Seq<char> {
        self.date.text() + ": "@ + self.description + " ("@ + self.category + ")"@
    }
}

impl View for Event {
    type V = EventView;

    open spec fn view(&self) -> EventView {
        EventView {
            date: self.date@,
            category: self.category@,
            description: self.description@,
        }
    }
}

impl PartialEq for Event {
    fn eq(&self, other: &Event) -> (same: bool) {
        proof {
            self.date.lemma_same_day_same_date(other.date);
        }
        self.date == other.date && self.category == other.category && self.description
            == other.description
    }
}

impl PartialEqSpecImpl for Event {
    open spec fn obeys_eq_spec() -> bool {
        true
    }

    /// Two events are equal where they have the same date and the same
    /// two texts.
    open spec fn eq_spec(&self, other: &Event) -> bool {
        self@ == other@
    }
}

impl PartialOrd for Event {
    fn partial_cmp(&self, other: &Event) -> (order: Option<Ordering>) {
        match self.date.partial_cmp(&other.date) {
            Some(Ordering::Equal) => {},
            unequal => {
                return unequal;
            },
        }
        match compare_texts(self.category.as_str(), other.category.as_str()) {
            Ordering::Equal => Some(
                compare_texts(self.description.as_str(), other.description.as_str()),
            ),
            unequal => Some(unequal),
        }
    }
}

impl PartialOrdSpecImpl for Event {
    open spec fn obeys_partial_cmp_spec() -> bool {
        true
    }

    open spec fn partial_cmp_spec(&self, other: &Event) -> Option<Ordering> {
        Some(self@.comparison(other@))
    }
}

impl Clone for Event {
    fn clone(&self) -> (copy: Event)
        ensures
            copy@ == self@,
    {
        Event {
            date: self.date,
            category: self.category.clone(),
            description: self.description.clone(),
        }
    }
}

impl Event {
    /// An event on `date` with copies of the two texts.
    pub fn new(date: Date, category: &str, description: &str) -> (event: Event)
        ensures
            event@ == (EventView {
                date: date@,
                category: category@,
                description: description@,
            }),
    {
        Event {
            date,
            category: String::from_str(category),
            description: String::from_str(description),
        }
    }

    /// The line that shows this event.
    pub fn to_line(&self) -> (line: String)
        ensures
            line@ == self@.line(),
    {
        let mut line = self.date.to_text();
        line.append(": ");
        line.append(self.description.as_str());
        line.append(" (");
        line.append(self.category.as_str());
        line.append(")");
        line
    }
}

/// An event with its distance from today in whole days: negative for a
/// day that has passed, zero for today, positive for a day to come.
#[derive(Debug, Eq, Ord)]
pub struct EventItem {
    pub days: i64,
    pub event: Event,
}

/// The model of an [`EventItem`].
pub struct EventItemView {
    pub days: int,
    pub event: EventView,
}

impl EventItemView {
    /// How this item compares with `other`: by the distance, then as the
    /// events do.
    pub open spec fn comparison(self, other: EventItemView) -> Ordering {
        if self.days < other.days {
            Ordering::Less
        } else if self.days > other.days {
            Ordering::Greater
        } else {
            self.event.comparison(other.event)
        }
    }
}

impl View for EventItem {
    type V = EventItemView;

    open spec fn view(&self) -> EventItemView {
        EventItemView { days: self.days as int, event: self.event@ }
    }
}

impl PartialEq for EventItem {
    fn eq(&self, other: &EventItem) -> (same: bool) {
        self.days == other.days && self.event == other.event
    }
}

impl PartialEqSpecImpl for EventItem {
    open spec fn obeys_eq_spec() -> bool {
        true
    }

    /// Two items are equal where they are the same event at the same
    /// distance.
    open spec fn eq_spec(&self, other: &EventItem) -> bool {
        self@ == other@
    }
}

impl PartialOrd for EventItem {
    fn partial_cmp(&self, other: &EventItem) -> (order: Option<Ordering>) {
        if self.days < other.days {
            Some(Ordering::Less)
        } else if self.days > other.days {
            Some(Ordering::Greater)
        } else {
            self.event.partial_cmp(&other.event)
        }
    }
}

impl PartialOrdSpecImpl for EventItem {
    open spec fn obeys_partial_cmp_spec() -> bool {
        true
    }

    open spec fn partial_cmp_spec(&self, other: &EventItem) -> Option<Ordering> {
        Some(self@.comparison(other@))
    }
}

impl Clone for EventItem {
    fn clone(&self) -> (copy: EventItem)
        ensures
            copy@ == self@,
    {
        EventItem { days: self.days, event: self.event.clone() }
    }
}

/// Events compare as equal where they are equal, and only there.
pub proof fn lemma_comparison_agrees_with_equality(a: EventView, b: EventView)
    ensures
        a.comparison(b) == Ordering::Equal <==> a == b,
{
    lemma_text_order_equal_is_same(a.category, b.category);
    lemma_text_order_equal_is_same(a.description, b.description);
}

/// The models of the events of `events`, in their order.
pub open spec fn event_views(events: Seq<Event>) -> Seq<EventView> {
    events.map_values(|e: Event| e@)
}

/// The models of the items of `items`, in their order.
pub open spec fn item_views(items: Seq<EventItem>) -> Seq<EventItemView> {
    items.map_values(|item: EventItem| item@)
}

} // verus!
