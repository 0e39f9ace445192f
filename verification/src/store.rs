//! The stored table: comma-separated text under a fixed header, one row
//! for each event.
//!
//! The text is read and written by `csv`. This module decides what a table
//! must look like, which of its rows are events, and what is written for a
//! list of events. A store that does not exist yet is the empty store: it
//! loads as no events, and nothing is put into it on the way.

use crate::codec::{
    decode_row, decode_spec, encode_row, encode_spec, header_labels, header_row, is_header,
    lemma_decode_inverts_encode, row_texts,
};
use crate::error::{RowError, RowErrorView, StoreError};
use crate::event::{event_views, Event, EventView};
use vstd::prelude::*;

verus! {

/// `csv::Error`: why `csv` could not read or write. Nothing is said of
/// what it holds.
#[verifier::external_type_specification]
#[verifier::external_body]
pub struct ExCsvError(csv::Error);

/// The rows that a `csv::Reader` reads from `text`, the first row among
/// them, each row as the texts of its fields; or nothing, where the reader
/// reports an error. What a row is in a text is for `csv` to say.
pub uninterp spec fn csv_rows(text: Seq<u8>) -> Option<Seq<Seq<Seq<char>>>>;

/// The bytes that a `csv::Writer` writes for one row of `fields`, its line
/// end among them; or nothing, where the writer reports an error.
pub uninterp spec fn csv_line(fields: Seq<Seq<char>>) -> Option<Seq<u8>>;

/// The texts of the fields of each row, in their order.
pub open spec fn table_texts(rows: Seq<Vec<String>>) -> Seq<Seq<Seq<char>>> {
    rows.map_values(|row: Vec<String>| row_texts(row@))
}

/// `csv::Reader::records`, on a reader that `csv::ReaderBuilder` makes
/// over `text` with `has_headers(false)`: all the rows of the text, or the
/// first error that the reader reports.
#[verifier::external_body]
fn csv_read(text: &[u8]) -> (r: Result<Vec<Vec<String>>, csv::Error>)
    ensures
        r is Ok <==> csv_rows(text@) is Some,
        r matches Ok(rows) ==> csv_rows(text@) == Some(table_texts(rows@)),
{
    let mut reader = csv::ReaderBuilder::new().has_headers(false).from_reader(text);
    let mut rows = Vec::new();
    for record in reader.records() {
        rows.push(record?.iter().map(String::from).collect());
    }
    Ok(rows)
}

/// `csv::Writer::write_record` and `csv::Writer::into_inner`, on a new
/// writer into memory: the bytes written for the one row, or the error
/// that the writer reports.
#[verifier::external_body]
fn csv_write(fields: &Vec<String>) -> (r: Result<Vec<u8>, csv::Error>)
    ensures
        r is Ok <==> csv_line(row_texts(fields@)) is Some,
        r matches Ok(bytes) ==> csv_line(row_texts(fields@)) == Some(bytes@),
{
    let mut writer = csv::Writer::from_writer(Vec::new());
    writer.write_record(fields)?;
    match writer.into_inner() {
        Ok(bytes) => Ok(bytes),
        Err(e) => Err(csv::Error::from(e.into_error())),
    }
}

/// The events among `rows`, in their order: each row that stands for one.
pub open spec fn accepted(rows: Seq<Seq<Seq<char>>>) -> Seq<EventView>
    decreases rows.len(),
{
    if rows.len() == 0 {
        Seq::empty()
    } else {
        match decode_spec(rows.last()) {
            Ok(event) => accepted(rows.drop_last()).push(event),
            Err(_) => accepted(rows.drop_last()),
        }
    }
}

/// What is wrong with the other rows of `rows`, in their order.
pub open spec fn rejections(rows: Seq<Seq<Seq<char>>>) -> Seq<RowErrorView>
    decreases rows.len(),
{
    if rows.len() == 0 {
        Seq::empty()
    } else {
        match decode_spec(rows.last()) {
            Ok(_) => rejections(rows.drop_last()),
            Err(error) => rejections(rows.drop_last()).push(error),
        }
    }
}

/// What a load gives: the events, and one error for each row that was
/// passed over.
#[derive(Debug, PartialEq, Eq)]
pub struct Loaded {
    pub events: Vec<Event>,
    pub rejected: Vec<RowError>,
}

/// The model of a [`Loaded`].
pub struct LoadedView {
    pub events: Seq<EventView>,
    pub rejected: Seq<RowErrorView>,
}

impl View for Loaded {
    type V = LoadedView;

    open spec fn view(&self) -> LoadedView {
        LoadedView {
            events: event_views(self.events@),
            rejected: self.rejected@.map_values(|error: RowError| error@),
        }
    }
}

/// The model of what a load returns.
pub open spec fn loaded_view(loaded: Result<Loaded, StoreError>) -> Result<
    LoadedView,
    StoreError,
> {
    match loaded {
        Ok(l) => Ok(l@),
        Err(e) => Err(e),
    }
}

/// What a table loads as. It must begin with the header row; every row
/// after it is an event or is passed over.
pub open spec fn load_rows_spec(rows: Seq<Seq<Seq<char>>>) -> Result<LoadedView, StoreError> {
    if rows.len() == 0 || rows[0] != header_labels() {
        Err(StoreError::Read)
    } else {
        Ok(LoadedView { events: accepted(rows.skip(1)), rejected: rejections(rows.skip(1)) })
    }
}

/// What a stored text loads as: it must be readable as a table.
pub open spec fn load_text_spec(text: Seq<u8>) -> Result<LoadedView, StoreError> {
    match csv_rows(text) {
        Some(rows) => load_rows_spec(rows),
        None => Err(StoreError::Read),
    }
}

/// What a store loads as: one that does not exist holds no events.
pub open spec fn load_spec(stored: Option<Seq<u8>>) -> Result<LoadedView, StoreError> {
    match stored {
        Some(text) => load_text_spec(text),
        None => Ok(LoadedView { events: Seq::empty(), rejected: Seq::empty() }),
    }
}

/// The table for a list of events: the header row, then one row for each
/// event, in the order given.
pub open spec fn table_spec(events: Seq<EventView>) -> Seq<Seq<Seq<char>>> {
    seq![header_labels()] + events.map_values(|event: EventView| encode_spec(event))
}

/// The lines of all rows, one after the other; nothing where a row has
/// no line.
pub open spec fn joined_lines(rows: Seq<Seq<Seq<char>>>) -> Option<Seq<u8>>
    decreases rows.len(),
{
    if rows.len() == 0 {
        Some(Seq::empty())
    } else {
        match (joined_lines(rows.drop_last()), csv_line(rows.last())) {
            (Some(before), Some(line)) => Some(before + line),
            _ => None,
        }
    }
}

/// What is written for a table, or the error where a row cannot be
/// written.
pub open spec fn write_spec(rows: Seq<Seq<Seq<char>>>) -> Result<Seq<u8>, StoreError> {
    match joined_lines(rows) {
        Some(text) => Ok(text),
        None => Err(StoreError::Write),
    }
}

/// The model of what a save returns.
pub open spec fn written_view(written: Result<Vec<u8>, StoreError>) -> Result<
    Seq<u8>,
    StoreError,
> {
    match written {
        Ok(bytes) => Ok(bytes@),
        Err(e) => Err(e),
    }
}

/// The name of the working directory, under the user's home directory.
pub fn directory_name() -> (name: &'static str)
    ensures
        name@ == ".days"@,
{
    ".days"
}

/// The name of the store, in the working directory.
pub fn file_name() -> (name: &'static str)
    ensures
        name@ == "events.csv"@,
{
    "events.csv"
}

/// Reads the rows of a stored text. Every error of the reader is a
/// [`StoreError::Read`].
pub fn read_table(text: &[u8]) -> (r: Result<Vec<Vec<String>>, StoreError>)
    ensures
        r is Ok <==> csv_rows(text@) is Some,
        r matches Ok(rows) ==> csv_rows(text@) == Some(table_texts(rows@)),
        r matches Err(e) ==> e == StoreError::Read,
{
    match csv_read(text) {
        Ok(rows) => Ok(rows),
        Err(_) => Err(StoreError::Read),
    }
}

/// Takes the events out of a table. The first row must be the header
/// row; a row that is no event is passed over and its error kept.
pub fn load_rows(rows: &Vec<Vec<String>>) -> (r: Result<Loaded, StoreError>)
    ensures
        loaded_view(r) == load_rows_spec(table_texts(rows@)),
{
    let ghost texts = table_texts(rows@);
    if rows.len() == 0 {
        return Err(StoreError::Read);
    }
    if !is_header(&rows[0]) {
        return Err(StoreError::Read);
    }
    let mut events: Vec<Event> = Vec::new();
    let mut rejected: Vec<RowError> = Vec::new();
    let mut i: usize = 1;
    while i < rows.len()
        invariant
            1 <= i <= rows.len(),
            texts == table_texts(rows@),
            event_views(events@) == accepted(texts.subrange(1, i as int)),
            rejected@.map_values(|error: RowError| error@) == rejections(
                texts.subrange(1, i as int),
            ),
        decreases rows.len() - i,
    {
        assert(texts.subrange(1, i + 1).drop_last() =~= texts.subrange(1, i as int));
        match decode_row(&rows[i]) {
            Ok(event) => {
                events.push(event);
            },
            Err(error) => {
                rejected.push(error);
            },
        }
        i += 1;
    }
    Ok(Loaded { events, rejected })
}

/// Loads the events of a stored text.
pub fn load_text(text: &[u8]) -> (r: Result<Loaded, StoreError>)
    ensures
        loaded_view(r) == load_text_spec(text@),
{
    match read_table(text) {
        Ok(rows) => load_rows(&rows),
        Err(e) => Err(e),
    }
}

/// Loads the events of a store, given the text it holds, or nothing where
/// it does not exist yet.
pub fn load(stored: Option<&[u8]>) -> (r: Result<Loaded, StoreError>)
    ensures
        loaded_view(r) == load_spec(
            match stored {
                Some(text) => Some(text@),
                None => None,
            },
        ),
{
    match stored {
        Some(text) => load_text(text),
        None => {
            let loaded = Loaded { events: Vec::new(), rejected: Vec::new() };
            assert(loaded@.events =~= Seq::empty());
            assert(loaded@.rejected =~= Seq::empty());
            Ok(loaded)
        },
    }
}

/// The table for `events`: the header row, then one row for each event.
pub fn table(events: &Vec<Event>) -> (rows: Vec<Vec<String>>)
    ensures
        table_texts(rows@) == table_spec(event_views(events@)),
{
    let mut rows: Vec<Vec<String>> = Vec::new();
    rows.push(header_row());
    let mut i: usize = 0;
    while i < events.len()
        invariant
            i <= events.len(),
            table_texts(rows@) == table_spec(event_views(events@.take(i as int))),
        decreases events.len() - i,
    {
        let ghost before = table_texts(rows@);
        let row = encode_row(&events[i]);
        let ghost row_text = row_texts(row@);
        rows.push(row);
        assert(table_spec(event_views(events@.take(i + 1))) =~= before.push(row_text));
        i += 1;
    }
    rows
}

/// Writes a table as text, row after row.
pub fn write_table(rows: &Vec<Vec<String>>) -> (r: Result<Vec<u8>, StoreError>)
    ensures
        written_view(r) == write_spec(table_texts(rows@)),
{
    let ghost texts = table_texts(rows@);
    let mut text: Vec<u8> = Vec::new();
    let mut i: usize = 0;
    while i < rows.len()
        invariant
            i <= rows.len(),
            texts == table_texts(rows@),
            joined_lines(texts.take(i as int)) == Some(text@),
        decreases rows.len() - i,
    {
        assert(texts.take(i + 1).drop_last() =~= texts.take(i as int));
        match csv_write(&rows[i]) {
            Ok(mut line) => {
                text.append(&mut line);
            },
            Err(_) => {
                proof {
                    lemma_no_line_no_text(texts, i + 1);
                }
                return Err(StoreError::Write);
            },
        }
        i += 1;
    }
    assert(texts.take(rows.len() as int) =~= texts);
    Ok(text)
}

/// Where the first `n` rows cannot be written, the whole table cannot.
proof fn lemma_no_line_no_text(rows: Seq<Seq<Seq<char>>>, n: int)
    requires
        0 <= n <= rows.len(),
        joined_lines(rows.take(n)) is None,
    ensures
        joined_lines(rows) is None,
    decreases rows.len() - n,
{
    if n < rows.len() {
        assert(rows.take(n + 1).drop_last() =~= rows.take(n));
        lemma_no_line_no_text(rows, n + 1);
    } else {
        assert(rows.take(n) =~= rows);
    }
}

/// The text to store for `events`: the header row and one row for each
/// event, in the order given.
pub fn save(events: &Vec<Event>) -> (r: Result<Vec<u8>, StoreError>)
    ensures
        written_view(r) == write_spec(table_spec(event_views(events@))),
{
    let rows = table(events);
    write_table(&rows)
}

/// Every row of a table is an event or is passed over: none is lost and
/// none is counted twice.
pub proof fn lemma_rows_accepted_or_rejected(rows: Seq<Seq<Seq<char>>>)
    ensures
        accepted(rows).len() + rejections(rows).len() == rows.len(),
    decreases rows.len(),
{
    if rows.len() > 0 {
        lemma_rows_accepted_or_rejected(rows.drop_last());
    }
}

/// The table for a list of events loads as these events, with no row
/// passed over, where each event is on a day of the calendar.
pub proof fn lemma_load_inverts_table(events: Seq<EventView>)
    requires
        forall|i: int| 0 <= i < events.len() ==> (#[trigger] events[i]).date.is_date(),
    ensures
        load_rows_spec(table_spec(events)) == Ok::<LoadedView, StoreError>(
            LoadedView { events, rejected: Seq::empty() },
        ),
{
    let rows = events.map_values(|event: EventView| encode_spec(event));
    assert(table_spec(events).skip(1) =~= rows);
    lemma_encoded_rows_are_accepted(events);
}

proof fn lemma_encoded_rows_are_accepted(events: Seq<EventView>)
    requires
        forall|i: int| 0 <= i < events.len() ==> (#[trigger] events[i]).date.is_date(),
    ensures
        accepted(events.map_values(|event: EventView| encode_spec(event))) == events,
        rejections(events.map_values(|event: EventView| encode_spec(event))) == Seq::<
            RowErrorView,
        >::empty(),
    decreases events.len(),
{
    let rows = events.map_values(|event: EventView| encode_spec(event));
    if events.len() > 0 {
        let shorter = events.drop_last();
        assert(rows.drop_last() =~= shorter.map_values(|event: EventView| encode_spec(event)));
        lemma_encoded_rows_are_accepted(shorter);
        lemma_decode_inverts_encode(events.last());
    }
}

} // verus!
