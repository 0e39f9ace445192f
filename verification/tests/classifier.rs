use days::calendar::Date;
use days::classifier::{bucket, classify, Bucket};
use days::event::{Event, EventItem};

fn date(year: i32, month: u32, day: u32) -> Date {
    Date::new(year, month, day).unwrap()
}

fn event(year: i32, month: u32, day: u32, description: &str) -> Event {
    Event::new(date(year, month, day), "test", description)
}

#[test]
fn bucket_goes_by_the_sign() {
    assert_eq!(bucket(-1), Bucket::Past);
    assert_eq!(bucket(i64::MIN), Bucket::Past);
    assert_eq!(bucket(0), Bucket::Today);
    assert_eq!(bucket(1), Bucket::Future);
    assert_eq!(bucket(i64::MAX), Bucket::Future);
}

#[test]
fn classify_no_events() {
    let c = classify(&vec![], date(2024, 3, 15));
    assert!(c.past.is_empty());
    assert!(c.today.is_empty());
    assert!(c.future.is_empty());
}

#[test]
fn yesterday_is_minus_one_and_past() {
    let c = classify(&vec![event(2024, 3, 14, "yesterday")], date(2024, 3, 15));
    assert_eq!(c.past, vec![EventItem { days: -1, event: event(2024, 3, 14, "yesterday") }]);
    assert!(c.today.is_empty());
    assert!(c.future.is_empty());
}

#[test]
fn tomorrow_is_plus_one_and_future() {
    let c = classify(&vec![event(2024, 3, 16, "tomorrow")], date(2024, 3, 15));
    assert!(c.past.is_empty());
    assert!(c.today.is_empty());
    assert_eq!(c.future, vec![EventItem { days: 1, event: event(2024, 3, 16, "tomorrow") }]);
}

#[test]
fn today_is_zero_and_today() {
    let c = classify(&vec![event(2024, 3, 15, "now")], date(2024, 3, 15));
    assert!(c.past.is_empty());
    assert_eq!(c.today, vec![EventItem { days: 0, event: event(2024, 3, 15, "now") }]);
    assert!(c.future.is_empty());
}

#[test]
fn one_day_across_month_and_year_ends() {
    let c = classify(
        &vec![event(2023, 12, 31, "old year"), event(2024, 2, 29, "leap day")],
        date(2024, 1, 1),
    );
    assert_eq!(c.past[0].days, -1);
    assert_eq!(c.future[0].days, 59);
    let d = classify(&vec![event(2024, 3, 1, "march")], date(2024, 2, 29));
    assert_eq!(d.future[0].days, 1);
    let e = classify(&vec![event(2023, 3, 1, "march")], date(2023, 2, 28));
    assert_eq!(e.future[0].days, 1);
}

#[test]
fn every_event_lands_in_exactly_one_bucket() {
    let events = vec![
        event(2024, 3, 10, "a"),
        event(2024, 3, 15, "b"),
        event(2024, 3, 20, "c"),
        event(2020, 1, 1, "d"),
        event(2024, 3, 15, "e"),
        event(2030, 12, 31, "f"),
        event(2024, 3, 10, "a"),
    ];
    let c = classify(&events, date(2024, 3, 15));
    assert_eq!(c.past.len() + c.today.len() + c.future.len(), events.len());
    for e in &events {
        let in_past = c.past.iter().filter(|item| &item.event == e).count();
        let in_today = c.today.iter().filter(|item| &item.event == e).count();
        let in_future = c.future.iter().filter(|item| &item.event == e).count();
        let in_events = events.iter().filter(|other| *other == e).count();
        assert_eq!(in_past + in_today + in_future, in_events);
        assert_eq!((in_past > 0) as u8 + (in_today > 0) as u8 + (in_future > 0) as u8, 1);
    }
    assert!(c.past.iter().all(|item| item.days < 0));
    assert!(c.today.iter().all(|item| item.days == 0));
    assert!(c.future.iter().all(|item| item.days > 0));
}

#[test]
fn buckets_keep_the_order_of_the_events() {
    let events = vec![
        event(2024, 3, 10, "a"),
        event(2024, 3, 20, "b"),
        event(2020, 1, 1, "c"),
        event(2024, 3, 15, "d"),
        event(2024, 3, 16, "e"),
        event(2024, 3, 15, "f"),
        event(2024, 3, 14, "g"),
    ];
    let c = classify(&events, date(2024, 3, 15));
    let names = |items: &Vec<EventItem>| -> Vec<String> {
        items.iter().map(|item| item.event.description.clone()).collect()
    };
    assert_eq!(names(&c.past), vec!["a", "c", "g"]);
    assert_eq!(names(&c.today), vec!["d", "f"]);
    assert_eq!(names(&c.future), vec!["b", "e"]);
    let days = |items: &Vec<EventItem>| -> Vec<i64> { items.iter().map(|i| i.days).collect() };
    assert_eq!(days(&c.past), vec![-5, -1535, -1]);
    assert_eq!(days(&c.today), vec![0, 0]);
    assert_eq!(days(&c.future), vec![5, 1]);
}

#[test]
fn classify_leaves_the_events_as_they_are() {
    let events = vec![event(2024, 3, 10, "a"), event(2024, 3, 20, "b")];
    let copy = events.clone();
    let _ = classify(&events, date(2024, 3, 15));
    assert_eq!(events, copy);
}

#[test]
fn classify_gives_the_same_for_the_same() {
    let events = vec![event(2024, 3, 10, "a"), event(2024, 3, 20, "b"), event(2024, 3, 15, "c")];
    assert_eq!(classify(&events, date(2024, 3, 15)), classify(&events, date(2024, 3, 15)));
}
