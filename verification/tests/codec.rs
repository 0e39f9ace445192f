use days::calendar::Date;
use days::codec::{decode_row, encode_row, header_row, is_header};
use days::error::RowError;
use days::event::Event;

fn fields(texts: &[&str]) -> Vec<String> {
    texts.iter().map(|t| t.to_string()).collect()
}

fn event(year: i32, month: u32, day: u32, category: &str, description: &str) -> Event {
    Event::new(Date::new(year, month, day).unwrap(), category, description)
}

#[test]
fn header_row_has_the_three_labels() {
    assert_eq!(header_row(), fields(&["date", "category", "description"]));
}

#[test]
fn is_header_takes_the_three_labels_only() {
    assert!(is_header(&fields(&["date", "category", "description"])));
    assert!(!is_header(&fields(&["date", "description", "category"])));
    assert!(!is_header(&fields(&["date", "category"])));
    assert!(!is_header(&fields(&["date", "category", "description", "more"])));
    assert!(!is_header(&fields(&["Date", "category", "description"])));
    assert!(!is_header(&fields(&["timestamp", "description"])));
    assert!(!is_header(&fields(&[])));
}

#[test]
fn decode_row_reads_date_category_description() {
    let decoded = decode_row(&fields(&["2024-03-15", "birthday", "Alice"]));
    assert_eq!(decoded, Ok(event(2024, 3, 15, "birthday", "Alice")));
}

#[test]
fn decode_row_keeps_empty_texts() {
    let decoded = decode_row(&fields(&["2024-03-15", "", ""]));
    assert_eq!(decoded, Ok(event(2024, 3, 15, "", "")));
}

#[test]
fn decode_row_does_not_read_past_the_third_field() {
    let decoded = decode_row(&fields(&["2024-03-15", "a", "b", "c", "d"]));
    assert_eq!(decoded, Ok(event(2024, 3, 15, "a", "b")));
}

#[test]
fn decode_row_reports_the_text_that_is_no_date() {
    let decoded = decode_row(&fields(&["not-a-date", "misc", "Something"]));
    assert_eq!(
        decoded,
        Err(RowError::InvalidDate {
            text: "not-a-date".to_string(),
            description: Some("Something".to_string()),
        })
    );
}

#[test]
fn decode_row_reports_a_day_that_does_not_exist() {
    let decoded = decode_row(&fields(&["2023-02-29", "misc", "Leap"]));
    assert_eq!(
        decoded,
        Err(RowError::InvalidDate {
            text: "2023-02-29".to_string(),
            description: Some("Leap".to_string()),
        })
    );
}

#[test]
fn decode_row_reports_a_bad_date_without_description() {
    assert_eq!(
        decode_row(&fields(&["soon"])),
        Err(RowError::InvalidDate { text: "soon".to_string(), description: None })
    );
    assert_eq!(
        decode_row(&fields(&["soon", "misc"])),
        Err(RowError::InvalidDate { text: "soon".to_string(), description: None })
    );
    assert_eq!(
        decode_row(&fields(&["", "misc"])),
        Err(RowError::InvalidDate { text: "".to_string(), description: None })
    );
}

#[test]
fn decode_row_reports_missing_fields() {
    assert_eq!(decode_row(&fields(&[])), Err(RowError::MissingField { found: 0 }));
    assert_eq!(decode_row(&fields(&["2024-03-15"])), Err(RowError::MissingField { found: 1 }));
    assert_eq!(
        decode_row(&fields(&["2024-03-15", "misc"])),
        Err(RowError::MissingField { found: 2 })
    );
}

#[test]
fn encode_row_writes_date_category_description() {
    let row = encode_row(&event(2024, 3, 5, "birthday", "Alice"));
    assert_eq!(row, fields(&["2024-03-05", "birthday", "Alice"]));
}

#[test]
fn encode_row_pads_early_years() {
    let row = encode_row(&event(33, 4, 3, "history", "Long ago"));
    assert_eq!(row, fields(&["0033-04-03", "history", "Long ago"]));
}

#[test]
fn decode_inverts_encode() {
    let events = vec![
        event(2024, 3, 15, "birthday", "Alice"),
        event(0, 1, 1, "", ""),
        event(9999, 12, 31, "far, far away", "with \"quotes\" and\nlines"),
        event(2000, 2, 29, "leap", "day"),
    ];
    for e in events {
        assert_eq!(decode_row(&encode_row(&e)), Ok(e));
    }
}

#[test]
fn encode_inverts_decode_of_a_well_formed_row() {
    let row = fields(&["1990-03-15", "birthday", "Bob"]);
    let e = decode_row(&row).unwrap();
    assert_eq!(encode_row(&e), row);
}

#[test]
fn row_error_says_which_text_was_wrong() {
    let error = RowError::InvalidDate { text: "not-a-date".to_string(), description: None };
    assert_eq!(error.message(), "Invalid timestamp 'not-a-date'");
    let described = RowError::InvalidDate {
        text: "2024-13-01".to_string(),
        description: Some("Party".to_string()),
    };
    assert_eq!(described.message(), "Invalid timestamp '2024-13-01'");
    assert_eq!(RowError::MissingField { found: 1 }.message(), "Incomplete row");
}
