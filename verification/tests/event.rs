use days::calendar::Date;
use days::error::{DaysError, StoreError};
use days::event::{Event, EventItem};

#[test]
fn event_line_shows_date_description_and_category() {
    let e = Event::new(Date::new(2024, 3, 15).unwrap(), "birthday", "Alice");
    assert_eq!(e.to_line(), "2024-03-15: Alice (birthday)");
}

#[test]
fn event_line_with_empty_texts() {
    let e = Event::new(Date::new(5, 6, 7).unwrap(), "", "");
    assert_eq!(e.to_line(), "0005-06-07:  ()");
}

#[test]
fn event_new_copies_its_texts() {
    let e = Event::new(Date::new(2024, 3, 15).unwrap(), "birthday", "Alice");
    assert_eq!(e.date, Date::new(2024, 3, 15).unwrap());
    assert_eq!(e.category, "birthday");
    assert_eq!(e.description, "Alice");
}

#[test]
fn event_clone_is_equal() {
    let e = Event::new(Date::new(2024, 3, 15).unwrap(), "birthday", "Alice");
    assert_eq!(e.clone(), e);
    let item = EventItem { days: -3, event: e };
    assert_eq!(item.clone(), item);
}

#[test]
fn events_compare_by_date_then_category_then_description() {
    let d1 = Date::new(2024, 3, 15).unwrap();
    let d2 = Date::new(2024, 3, 16).unwrap();
    assert!(Event::new(d1, "z", "z") < Event::new(d2, "a", "a"));
    assert!(Event::new(d1, "a", "z") < Event::new(d1, "b", "a"));
    assert!(Event::new(d1, "a", "a") < Event::new(d1, "a", "b"));
    assert_eq!(Event::new(d1, "a", "a"), Event::new(d1, "a", "a"));
}

#[test]
fn days_error_messages() {
    assert_eq!(DaysError::HomeDirectoryNotFound.message(), "Home directory not found");
    assert_eq!(DaysError::WorkingDirectoryNotFound.message(), "Working directory not found");
    assert_eq!(DaysError::ReadError.message(), "Error reading events");
    assert_eq!(DaysError::WriteError.message(), "Error writing events");
    assert_eq!(DaysError::CreateError.message(), "Unable to crate working directory");
    assert_eq!(DaysError::InvalidDate.message(), "Invalid date");
}

#[test]
fn store_errors_become_run_errors() {
    assert_eq!(DaysError::from_store(StoreError::Read), DaysError::ReadError);
    assert_eq!(DaysError::from_store(StoreError::Write), DaysError::WriteError);
}

#[test]
fn texts_compare_by_code_points() {
    let d = Date::new(2024, 3, 15).unwrap();
    assert!(Event::new(d, "", "x") < Event::new(d, "a", "x"));
    assert!(Event::new(d, "a", "x") < Event::new(d, "ab", "x"));
    assert!(Event::new(d, "Z", "x") < Event::new(d, "a", "x"));
    assert!(Event::new(d, "z", "x") < Event::new(d, "\u{e9}", "x"));
    assert!(Event::new(d, "\u{e9}", "x") < Event::new(d, "\u{4e2d}", "x"));
    assert!(Event::new(d, "\u{ffff}", "x") < Event::new(d, "\u{10000}", "x"));
    assert!(Event::new(d, "a", "abc") < Event::new(d, "a", "abd"));
    assert!(Event::new(d, "a", "b") > Event::new(d, "a", "a\u{10ffff}"));
}

#[test]
fn partial_order_agrees_with_total_order() {
    let dates = [Date::new(2024, 3, 15).unwrap(), Date::new(2024, 3, 16).unwrap()];
    let texts = ["", "a", "ab", "b", "B", "\u{e9}"];
    let mut events = Vec::new();
    for date in dates {
        for category in texts {
            for description in texts {
                events.push(Event::new(date, category, description));
            }
        }
    }
    for a in &events {
        for b in &events {
            assert_eq!(a.partial_cmp(b), Some(a.cmp(b)));
            assert_eq!(a == b, a.cmp(b) == std::cmp::Ordering::Equal);
            let x = EventItem { days: 1, event: a.clone() };
            let y = EventItem { days: 1, event: b.clone() };
            assert_eq!(x.partial_cmp(&y), Some(x.cmp(&y)));
            let z = EventItem { days: 2, event: b.clone() };
            assert!(x < z);
            assert_eq!(x.partial_cmp(&z), Some(x.cmp(&z)));
        }
    }
}

#[test]
fn items_compare_by_days_then_event() {
    let d = Date::new(2024, 3, 15).unwrap();
    let item = |days: i64, text: &str| EventItem { days, event: Event::new(d, "c", text) };
    assert!(item(-2, "z") < item(-1, "a"));
    assert!(item(3, "a") < item(3, "b"));
    assert_eq!(item(3, "a"), item(3, "a"));
    assert!(item(i64::MIN, "z") < item(i64::MAX, "a"));
}
