//! One run: what to print and how to end, given the configured birthdate,
//! today's date and what was found where the events are kept. Nothing here
//! reads or prints; the caller hands in what it found and prints what
//! comes back.

use crate::birthday::{annotate, annotate_spec, BirthdayOutput, BirthdayOutputView};
use crate::calendar::{Date, Ymd};
use crate::classifier::{classify, classify_spec};
use crate::error::{DaysError, RowError, RowErrorView, StoreError};
use crate::presenter::{line_texts, present, report};
use crate::store::{
    load, load_spec, load_text, load_text_spec, loaded_view, Loaded, LoadedView,
};
use vstd::string::StringExecFns;
use vstd::prelude::*;

verus! {

/// What one run has to show for itself.
#[derive(Debug, PartialEq, Eq)]
pub struct Run {
    /// The lines for the output, in their order.
    pub printed: Vec<String>,
    /// The lines for the error channel, in their order.
    pub diagnostics: Vec<String>,
    /// Whether the run succeeded.
    pub outcome: Result<(), DaysError>,
}

/// The model of a [`Run`].
pub struct RunView {
    pub printed: Seq<Seq<char>>,
    pub diagnostics: Seq<Seq<char>>,
    pub outcome: Result<(), DaysError>,
}

impl View for Run {
    type V = RunView;

    open spec fn view(&self) -> RunView {
        RunView {
            printed: line_texts(self.printed@),
            diagnostics: line_texts(self.diagnostics@),
            outcome: self.outcome,
        }
    }
}

/// The diagnostics for the rows that a load passed over, one for each.
pub open spec fn row_diagnostics(rejected: Seq<RowErrorView>) -> Seq<Seq<char>> {
    rejected.map_values(|error: RowErrorView| error.message())
}

/// The lines of the output that the birthdate gives.
pub open spec fn note_printed(note: BirthdayOutputView) -> Seq<Seq<char>> {
    match note {
        BirthdayOutputView::Line(line) => seq![line],
        _ => Seq::empty(),
    }
}

/// The lines for the error channel that the birthdate gives.
pub open spec fn note_diagnostics(note: BirthdayOutputView) -> Seq<Seq<char>> {
    match note {
        BirthdayOutputView::Diagnostic(line) => seq![line],
        _ => Seq::empty(),
    }
}

/// A run, given what the birthdate had to say and what the load gave.
///
/// The line on the birthdate comes first. Where the load succeeded, the
/// report on its events follows, the rows that were passed over each give
/// a diagnostic, and the run succeeds. Where it failed, nothing follows
/// but the diagnostic of the failure, and the run fails with it.
pub open spec fn run_with(
    note: BirthdayOutputView,
    loaded: Result<LoadedView, StoreError>,
    today: Ymd,
) -> RunView {
    match loaded {
        Ok(l) => RunView {
            printed: note_printed(note) + report(classify_spec(l.events, today)),
            diagnostics: note_diagnostics(note) + row_diagnostics(l.rejected),
            outcome: Ok(()),
        },
        Err(StoreError::Read) => RunView {
            printed: note_printed(note),
            diagnostics: note_diagnostics(note) + seq![DaysError::ReadError.message_text()],
            outcome: Err(DaysError::ReadError),
        },
        Err(StoreError::Write) => RunView {
            printed: note_printed(note),
            diagnostics: note_diagnostics(note) + seq![DaysError::WriteError.message_text()],
            outcome: Err(DaysError::WriteError),
        },
    }
}

/// What the caller found where the events are kept.
#[derive(Debug, PartialEq, Eq)]
pub enum Storage {
    /// The user has no home directory.
    NoHome,
    /// The working directory is missing and could not be made.
    NoDirectory,
    /// The working directory is there; it holds no store yet.
    Absent,
    /// The store is there and could not be read.
    Unreadable,
    /// The text of the store.
    Text(Vec<u8>),
}

/// The model of a [`Storage`].
pub enum StorageView {
    NoHome,
    NoDirectory,
    Absent,
    Unreadable,
    Text(Seq<u8>),
}

impl View for Storage {
    type V = StorageView;

    open spec fn view(&self) -> StorageView {
        match self {
            Storage::NoHome => StorageView::NoHome,
            Storage::NoDirectory => StorageView::NoDirectory,
            Storage::Absent => StorageView::Absent,
            Storage::Unreadable => StorageView::Unreadable,
            Storage::Text(text) => StorageView::Text(text@),
        }
    }
}

/// A run that ends before any event is read: what the birthdate had to
/// say, then `said` on the error channel, and the failure `error`.
pub open spec fn run_cut_short(note: BirthdayOutputView, said: Seq<Seq<char>>, error: DaysError)
    -> RunView {
    RunView {
        printed: note_printed(note),
        diagnostics: note_diagnostics(note) + said,
        outcome: Err(error),
    }
}

/// One run.
///
/// Without today's date nothing can be said: the run fails at once.
/// Else the line on the birthdate comes first. Without a home directory,
/// or without the working directory, the run fails there. A store that
/// is not there yet is the empty store. One that could not be read fails
/// the run as an unreadable table does.
pub open spec fn run_spec(birthdate: Option<Seq<char>>, today: Option<Ymd>, storage: StorageView)
    -> RunView {
    match today {
        None => RunView {
            printed: Seq::empty(),
            diagnostics: seq!["Unable to get today's date"@],
            outcome: Err(DaysError::InvalidDate),
        },
        Some(today) => {
            let note = annotate_spec(birthdate, today);
            match storage {
                StorageView::NoHome => run_cut_short(
                    note,
                    seq!["No home directory for user"@, ".days path not found!"@],
                    DaysError::WorkingDirectoryNotFound,
                ),
                StorageView::NoDirectory => run_cut_short(
                    note,
                    Seq::empty(),
                    DaysError::CreateError,
                ),
                StorageView::Absent => run_with(note, load_spec(None), today),
                StorageView::Unreadable => run_with(note, Err(StoreError::Read), today),
                StorageView::Text(text) => run_with(note, load_text_spec(text), today),
            }
        },
    }
}

/// The two channels with what the birthdate had to say, each line on
/// the channel it is for.
fn channels(note: BirthdayOutput) -> (both: (Vec<String>, Vec<String>))
    ensures
        line_texts(both.0@) == note_printed(note@),
        line_texts(both.1@) == note_diagnostics(note@),
{
    let mut printed: Vec<String> = Vec::new();
    let mut diagnostics: Vec<String> = Vec::new();
    match note {
        BirthdayOutput::Nothing => {},
        BirthdayOutput::Line(line) => {
            printed.push(line);
        },
        BirthdayOutput::Diagnostic(line) => {
            diagnostics.push(line);
        },
    }
    (printed, diagnostics)
}

/// Puts a run together from what the birthdate had to say and what the
/// load gave.
pub fn conclude(note: BirthdayOutput, loaded: Result<Loaded, StoreError>, today: Date) -> (run:
    Run)
    ensures
        run@ == run_with(note@, loaded_view(loaded), today@),
{
    let (mut printed, mut diagnostics) = channels(note);
    match loaded {
        Ok(l) => {
            let classified = classify(&l.events, today);
            let mut lines = present(&classified);
            let ghost first = line_texts(printed@);
            let ghost second = line_texts(lines@);
            printed.append(&mut lines);
            assert(line_texts(printed@) =~= first + second);
            let ghost said = line_texts(diagnostics@);
            let ghost errors = l.rejected@.map_values(|error: RowError| error@);
            let mut i: usize = 0;
            while i < l.rejected.len()
                invariant
                    i <= l.rejected.len(),
                    errors == l.rejected@.map_values(|error: RowError| error@),
                    line_texts(diagnostics@) == said + row_diagnostics(errors.take(i as int)),
                decreases l.rejected.len() - i,
            {
                let ghost before = line_texts(diagnostics@);
                let line = l.rejected[i].message();
                diagnostics.push(line);
                assert(line_texts(diagnostics@) =~= before.push(errors[i as int].message()));
                i += 1;
            }
            assert(errors.take(l.rejected.len() as int) =~= errors);
            Run { printed, diagnostics, outcome: Ok(()) }
        },
        Err(e) => {
            let error = DaysError::from_store(e);
            let ghost said = line_texts(diagnostics@);
            diagnostics.push(error.message());
            assert(line_texts(diagnostics@) =~= said + seq![error.message_text()]);
            Run { printed, diagnostics, outcome: Err(error) }
        },
    }
}

/// Ends a run before any event is read.
fn cut_short(note: BirthdayOutput, said: Vec<String>, error: DaysError) -> (run: Run)
    ensures
        run@ == run_cut_short(note@, line_texts(said@), error),
{
    let (mut printed, mut diagnostics) = channels(note);
    let ghost first = line_texts(diagnostics@);
    let mut said = said;
    let ghost second = line_texts(said@);
    diagnostics.append(&mut said);
    assert(line_texts(diagnostics@) =~= first + second);
    Run { printed, diagnostics, outcome: Err(error) }
}

/// One run: the line on the configured birthdate, then the report on the
/// stored events as seen from today.
pub fn run(birthdate: Option<&str>, today: Option<Date>, storage: &Storage) -> (run: Run)
    ensures
        run@ == run_spec(
            match birthdate {
                Some(value) => Some(value@),
                None => None,
            },
            match today {
                Some(date) => Some(date@),
                None => None,
            },
            storage@,
        ),
{
    let today = match today {
        Some(date) => date,
        None => {
            let mut diagnostics: Vec<String> = Vec::new();
            diagnostics.push(String::from_str("Unable to get today's date"));
            let printed: Vec<String> = Vec::new();
            assert(line_texts(printed@) =~= Seq::empty());
            assert(line_texts(diagnostics@) =~= seq!["Unable to get today's date"@]);
            return Run { printed, diagnostics, outcome: Err(DaysError::InvalidDate) };
        },
    };
    let note = annotate(birthdate, today);
    match storage {
        Storage::NoHome => {
            let mut said: Vec<String> = Vec::new();
            said.push(String::from_str("No home directory for user"));
            said.push(String::from_str(".days path not found!"));
            assert(line_texts(said@) =~= seq![
                "No home directory for user"@,
                ".days path not found!"@,
            ]);
            cut_short(note, said, DaysError::WorkingDirectoryNotFound)
        },
        Storage::NoDirectory => {
            let said: Vec<String> = Vec::new();
            cut_short(note, said, DaysError::CreateError)
        },
        Storage::Absent => conclude(note, load(None), today),
        Storage::Unreadable => conclude(note, Err(StoreError::Read), today),
        Storage::Text(text) => conclude(note, load_text(text.as_slice()), today),
    }
}

} // verus!
