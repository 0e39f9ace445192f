//! Each event against today: how many days away it is, and whether that
//! day has passed, is today, or is still to come.

use crate::calendar::{
    days_from_to, lemma_day_number_orders_dates, lemma_next_day_is_one_more, Date, Ymd,
};
use crate::event::{event_views, item_views, Event, EventItem, EventItemView, EventView};
use vstd::prelude::*;

verus! {

/// Where an event lies in time, seen from today.
#[derive(Debug, Clone, Copy, PartialEq, Eq, Structural)]
pub enum Bucket {
    Past,
    Today,
    Future,
}

/// The bucket of an event that is `days` days away.
pub open spec fn bucket_of(days: int) -> Bucket {
    if days < 0 {
        Bucket::Past
    } else if days == 0 {
        Bucket::Today
    } else {
        Bucket::Future
    }
}

/// The event with its distance in days from `today`.
pub open spec fn annotate(event: EventView, today: Ymd) -> EventItemView {
    EventItemView { days: days_from_to(today, event.date), event }
}

/// The events of `events` that fall into `bucket`, each with its distance
/// from `today`, in the order in which `events` has them.
pub open spec fn bucket_items(events: Seq<EventView>, today: Ymd, bucket: Bucket) -> Seq<
    EventItemView,
>
    decreases events.len(),
{
    if events.len() == 0 {
        Seq::empty()
    } else {
        let item = annotate(events.last(), today);
        let before = bucket_items(events.drop_last(), today, bucket);
        if bucket_of(item.days) == bucket {
            before.push(item)
        } else {
            before
        }
    }
}

/// The events of one run, by bucket.
#[derive(Debug, PartialEq, Eq)]
pub struct Classified {
    pub past: Vec<EventItem>,
    pub today: Vec<EventItem>,
    pub future: Vec<EventItem>,
}

/// The model of a [`Classified`].
pub struct ClassifiedView {
    pub past: Seq<EventItemView>,
    pub today: Seq<EventItemView>,
    pub future: Seq<EventItemView>,
}

impl View for Classified {
    type V = ClassifiedView;

    open spec fn view(&self) -> ClassifiedView {
        ClassifiedView {
            past: item_views(self.past@),
            today: item_views(self.today@),
            future: item_views(self.future@),
        }
    }
}

/// The three buckets of `events`, seen from `today`.
pub open spec fn classify_spec(events: Seq<EventView>, today: Ymd) -> ClassifiedView {
    ClassifiedView {
        past: bucket_items(events, today, Bucket::Past),
        today: bucket_items(events, today, Bucket::Today),
        future: bucket_items(events, today, Bucket::Future),
    }
}

/// The bucket of an event that is `days` days away.
pub fn bucket(days: i64) -> (b: Bucket)
    ensures
        b == bucket_of(days as int),
{
    if days < 0 {
        Bucket::Past
    } else if days == 0 {
        Bucket::Today
    } else {
        Bucket::Future
    }
}

/// Sorts `events` into the three buckets, each event with its distance in
/// whole days from `today`. The events are left as they are, and each
/// bucket keeps their order.
pub fn classify(events: &Vec<Event>, today: Date) -> (classified: Classified)
    ensures
        classified@ == classify_spec(event_views(events@), today@),
{
    let mut past: Vec<EventItem> = Vec::new();
    let mut present: Vec<EventItem> = Vec::new();
    let mut future: Vec<EventItem> = Vec::new();
    let ghost all = event_views(events@);
    let mut i: usize = 0;
    while i < events.len()
        invariant
            i <= events.len(),
            all == event_views(events@),
            item_views(past@) == bucket_items(all.take(i as int), today@, Bucket::Past),
            item_views(present@) == bucket_items(all.take(i as int), today@, Bucket::Today),
            item_views(future@) == bucket_items(all.take(i as int), today@, Bucket::Future),
        decreases events.len() - i,
    {
        let event = &events[i];
        let days = today.days_until(&event.date);
        let item = EventItem { days, event: event.clone() };
        assert(all.take(i + 1).drop_last() =~= all.take(i as int));
        match bucket(days) {
            Bucket::Past => {
                past.push(item);
            },
            Bucket::Today => {
                present.push(item);
            },
            Bucket::Future => {
                future.push(item);
            },
        }
        i += 1;
    }
    assert(all.take(events.len() as int) =~= all);
    Classified { past, today: present, future }
}

/// The three buckets together are as many as the events.
pub proof fn lemma_buckets_hold_all(events: Seq<EventView>, today: Ymd)
    ensures
        classify_spec(events, today).past.len() + classify_spec(events, today).today.len()
            + classify_spec(events, today).future.len() == events.len(),
    decreases events.len(),
{
    if events.len() > 0 {
        lemma_buckets_hold_all(events.drop_last(), today);
    }
}

/// Every item of a bucket is an event of the list with its distance from
/// today, and that distance has the bucket's sign: no item is in a bucket
/// other than its own.
pub proof fn lemma_bucket_holds_its_own(events: Seq<EventView>, today: Ymd, bucket: Bucket)
    ensures
        forall|j: int|
            0 <= j < bucket_items(events, today, bucket).len() ==> {
                let item = #[trigger] bucket_items(events, today, bucket)[j];
                &&& bucket_of(item.days) == bucket
                &&& events.contains(item.event)
                &&& item == annotate(item.event, today)
            },
    decreases events.len(),
{
    if events.len() > 0 {
        let fewer = events.drop_last();
        lemma_bucket_holds_its_own(fewer, today, bucket);
        assert forall|j: int| 0 <= j < bucket_items(events, today, bucket).len() implies {
            let item = #[trigger] bucket_items(events, today, bucket)[j];
            &&& bucket_of(item.days) == bucket
            &&& events.contains(item.event)
            &&& item == annotate(item.event, today)
        } by {}
    }
}

/// Every event of the list is in the bucket of its distance from today.
pub proof fn lemma_event_is_in_its_bucket(events: Seq<EventView>, today: Ymd, i: int)
    requires
        0 <= i < events.len(),
    ensures
        bucket_items(events, today, bucket_of(annotate(events[i], today).days)).contains(
            annotate(events[i], today),
        ),
    decreases events.len(),
{
    let item = annotate(events[i], today);
    let own = bucket_of(item.days);
    let items = bucket_items(events, today, own);
    let fewer = events.drop_last();
    if i == events.len() - 1 {
        assert(items[items.len() - 1] == item);
    } else {
        lemma_event_is_in_its_bucket(fewer, today, i);
        let before = bucket_items(fewer, today, own);
        let at = choose|at: int| 0 <= at < before.len() && before[at] == item;
        assert(items[at] == item);
    }
}

/// The buckets hold each event as often as the list does: taken as
/// multisets, the three of them add up to the events with their
/// distances.
pub proof fn lemma_buckets_partition(events: Seq<EventView>, today: Ymd)
    ensures
        events.map_values(|event: EventView| annotate(event, today)).to_multiset()
            == classify_spec(events, today).past.to_multiset().add(
            classify_spec(events, today).today.to_multiset(),
        ).add(classify_spec(events, today).future.to_multiset()),
    decreases events.len(),
{
    broadcast use vstd::seq_lib::group_to_multiset_ensures;

    let all = events.map_values(|event: EventView| annotate(event, today));
    let buckets = classify_spec(events, today);
    if events.len() > 0 {
        let fewer = events.drop_last();
        lemma_buckets_partition(fewer, today);
        let item = annotate(events.last(), today);
        assert(all =~= fewer.map_values(|event: EventView| annotate(event, today)).push(item));
    }
}

/// The sign of the distance is the side of today on which the event lies:
/// an earlier day is past, today is today, a later day is to come.
pub proof fn lemma_bucket_follows_calendar(event: EventView, today: Ymd)
    requires
        event.date.is_date(),
        today.is_date(),
    ensures
        bucket_of(annotate(event, today).days) == Bucket::Past <==> event.date.is_before(today),
        bucket_of(annotate(event, today).days) == Bucket::Today <==> event.date == today,
        bucket_of(annotate(event, today).days) == Bucket::Future <==> today.is_before(
            event.date,
        ),
{
    lemma_day_number_orders_dates(event.date, today);
    lemma_day_number_orders_dates(today, event.date);
}

/// An event of the day before today is one day past.
pub proof fn lemma_yesterday_is_minus_one(event: EventView, today: Ymd)
    requires
        event.date.is_date(),
        event.date.is_eve_of(today),
    ensures
        annotate(event, today).days == -1,
        bucket_of(annotate(event, today).days) == Bucket::Past,
{
    lemma_next_day_is_one_more(event.date, today);
}

/// An event of the day after today is one day to come.
pub proof fn lemma_tomorrow_is_plus_one(event: EventView, today: Ymd)
    requires
        today.is_date(),
        today.is_eve_of(event.date),
    ensures
        annotate(event, today).days == 1,
        bucket_of(annotate(event, today).days) == Bucket::Future,
{
    lemma_next_day_is_one_more(today, event.date);
}

/// An event of today is no days away.
pub proof fn lemma_today_is_zero(event: EventView, today: Ymd)
    requires
        event.date == today,
    ensures
        annotate(event, today).days == 0,
        bucket_of(annotate(event, today).days) == Bucket::Today,
{
}

} // verus!
