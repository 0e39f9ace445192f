//! One event as one row of text fields: the date as `YYYY-MM-DD`, then the
//! category, then the description.

use crate::calendar::{lemma_pattern_is_its_own_text, lemma_text_names_the_day, Date, Ymd};
use crate::error::{RowError, RowErrorView};
use crate::event::{Event, EventView};
use vstd::prelude::*;
use vstd::string::StringExecFns;

verus! {

/// The texts of a row's fields, in their order.
pub open spec fn row_texts(row: Seq<String>) -> Seq<Seq<char>> {
    row.map_values(|field: String| field@)
}

/// The labels of the three columns, in their fixed order.
pub open spec fn header_labels() -> Seq<Seq<char>> {
    seq!["date"@, "category"@, "description"@]
}

/// The row that stands for an event.
pub open spec fn encode_spec(event: EventView) -> Seq<Seq<char>> {
    seq![event.date.text(), event.category, event.description]
}

/// The event that a row stands for, or why it stands for none.
///
/// The first field must name a day, as [`Ymd::parse`] has it; where it
/// does not, the error carries that field and the third field, if the row
/// has one. A row that names a day needs two more fields, the category and
/// the description; fields after the third are not read.
pub open spec fn decode_spec(fields: Seq<Seq<char>>) -> Result<EventView, RowErrorView> {
    if fields.len() == 0 {
        Err(RowErrorView::MissingField { found: 0 })
    } else {
        match Ymd::parse(fields[0]) {
            None => Err(
                RowErrorView::InvalidDate {
                    text: fields[0],
                    description: if fields.len() >= 3 {
                        Some(fields[2])
                    } else {
                        None
                    },
                },
            ),
            Some(date) => if fields.len() < 3 {
                Err(RowErrorView::MissingField { found: fields.len() })
            } else {
                Ok(EventView { date, category: fields[1], description: fields[2] })
            },
        }
    }
}

/// The model of what [`decode_row`] returns.
pub open spec fn decoded_view(decoded: Result<Event, RowError>) -> Result<
    EventView,
    RowErrorView,
> {
    match decoded {
        Ok(event) => Ok(event@),
        Err(error) => Err(error@),
    }
}

/// The header row of the stored table.
pub fn header_row() -> (row: Vec<String>)
    ensures
        row@.len() == 3,
        row_texts(row@) == header_labels(),
{
    let mut row: Vec<String> = Vec::new();
    row.push(String::from_str("date"));
    row.push(String::from_str("category"));
    row.push(String::from_str("description"));
    row
}

/// Whether `row` is the header row: the three labels and nothing else.
pub fn is_header(row: &Vec<String>) -> (b: bool)
    ensures
        b == (row_texts(row@) == header_labels()),
{
    if row.len() != 3 {
        return false;
    }
    let header = header_row();
    let same = row[0] == header[0] && row[1] == header[1] && row[2] == header[2];
    proof {
        assert forall|i: int| 0 <= i < 3 implies row_texts(row@)[i] == row[i]@ && row_texts(
            header@,
        )[i] == header[i]@ by {}
        if same {
            assert(row_texts(row@) =~= header_labels());
        }
    }
    same
}

/// Reads one row as an event.
pub fn decode_row(fields: &Vec<String>) -> (decoded: Result<Event, RowError>)
    ensures
        decoded_view(decoded) == decode_spec(row_texts(fields@)),
{
    let found = fields.len();
    if found == 0 {
        return Err(RowError::MissingField { found });
    }
    match Date::parse(fields[0].as_str()) {
        None => {
            let description = if found >= 3 {
                Some(fields[2].clone())
            } else {
                None
            };
            Err(RowError::InvalidDate { text: fields[0].clone(), description })
        },
        Some(date) => {
            if found < 3 {
                Err(RowError::MissingField { found })
            } else {
                Ok(Event { date, category: fields[1].clone(), description: fields[2].clone() })
            }
        },
    }
}

/// Writes one event as a row.
pub fn encode_row(event: &Event) -> (row: Vec<String>)
    ensures
        row_texts(row@) == encode_spec(event@),
{
    let mut row: Vec<String> = Vec::new();
    row.push(event.date.to_text());
    row.push(event.category.clone());
    row.push(event.description.clone());
    row
}

/// Reading what was written gives the event back: for every event on a
/// day of the calendar, the row that stands for it stands for it alone.
pub proof fn lemma_decode_inverts_encode(event: EventView)
    requires
        event.date.is_date(),
    ensures
        decode_spec(encode_spec(event)) == Ok::<EventView, RowErrorView>(event),
{
    lemma_text_names_the_day(event.date);
}

/// Writing what was read gives the row back: a row of three fields that
/// stands for an event is the row that stands for that event.
pub proof fn lemma_encode_inverts_decode(fields: Seq<Seq<char>>)
    requires
        fields.len() == 3,
        decode_spec(fields) is Ok,
    ensures
        encode_spec(decode_spec(fields)->Ok_0) == fields,
{
    lemma_pattern_is_its_own_text(fields[0]);
    assert(encode_spec(decode_spec(fields)->Ok_0) =~= fields);
}

} // verus!
