//! What can go wrong: for one row, for the store, and for a whole run.

use vstd::prelude::*;
use vstd::string::StringExecFns;

verus! {

/// Why one row of the store is no event. Such a row is skipped; the load
/// goes on.
#[derive(Debug, PartialEq, Eq)]
pub enum RowError {
    /// The date field does not name a day. `text` is that field;
    /// `description` is the row's description, where it has one.
    InvalidDate { text: String, description: Option<String> },
    /// The row has a date and lacks one of the other fields. `found` is
    /// the number of fields it has.
    MissingField { found: usize },
}

/// The model of a [`RowError`].
pub enum RowErrorView {
    InvalidDate { text: Seq<char>, description: Option<Seq<char>> },
    MissingField { found: nat },
}

impl RowErrorView {
    /// The one-line diagnostic for the error.
    pub open spec fn message(self) -> Seq<char> {
        match self {
            RowErrorView::InvalidDate { text, description } => "Invalid timestamp '"@ + text
                + "'"@,
            RowErrorView::MissingField { found } => "Incomplete row"@,
        }
    }
}

impl View for RowError {
    type V = RowErrorView;

    open spec fn view(&self) -> RowErrorView {
        match self {
            RowError::InvalidDate { text, description } => RowErrorView::InvalidDate {
                text: text@,
                description: match description {
                    Some(d) => Some(d@),
                    None => None,
                },
            },
            RowError::MissingField { found } => RowErrorView::MissingField { found: *found as nat },
        }
    }
}

impl RowError {
    /// The one-line diagnostic for this error.
    pub fn message(&self) -> (s: String)
        ensures
            s@ == self@.message(),
    {
        match self {
            RowError::InvalidDate { text, description } => {
                let mut s = String::from_str("Invalid timestamp '");
                s.append(text.as_str());
                s.append("'");
                s
            },
            RowError::MissingField { found } => String::from_str("Incomplete row"),
        }
    }
}

/// Why the store as a whole could not be read or written.
#[derive(Debug, Clone, Copy, PartialEq, Eq, Structural)]
pub enum StoreError {
    /// The stored text is not a table under the fixed header.
    Read,
    /// The events could not be put into the stored form.
    Write,
}

/// Why a run ends without success.
#[derive(Debug, Clone, Copy, PartialEq, Eq, Structural)]
pub enum DaysError {
    HomeDirectoryNotFound,
    WorkingDirectoryNotFound,
    CreateError,
    WriteError,
    ReadError,
    InvalidDate,
}

impl DaysError {
    /// The text of each error.
    pub open spec fn message_text(self) -> Seq<char> {
        match self {
            DaysError::HomeDirectoryNotFound => "Home directory not found"@,
            DaysError::WorkingDirectoryNotFound => "Working directory not found"@,
            DaysError::ReadError => "Error reading events"@,
            DaysError::WriteError => "Error writing events"@,
            DaysError::CreateError => "Unable to crate working directory"@,
            DaysError::InvalidDate => "Invalid date"@,
        }
    }

    /// The one-line diagnostic for this error.
    pub fn message(&self) -> (s: String)
        ensures
            s@ == self.message_text(),
    {
        match self {
            DaysError::HomeDirectoryNotFound => String::from_str("Home directory not found"),
            DaysError::WorkingDirectoryNotFound => String::from_str("Working directory not found"),
            DaysError::ReadError => String::from_str("Error reading events"),
            DaysError::WriteError => String::from_str("Error writing events"),
            DaysError::CreateError => String::from_str("Unable to crate working directory"),
            DaysError::InvalidDate => String::from_str("Invalid date"),
        }
    }

    /// The run-level error that a failure of the store becomes.
    pub fn from_store(error: StoreError) -> (e: DaysError)
        ensures
            e == match error {
                StoreError::Read => DaysError::ReadError,
                StoreError::Write => DaysError::WriteError,
            },
    {
        match error {
            StoreError::Read => DaysError::ReadError,
            StoreError::Write => DaysError::WriteError,
        }
    }
}

} // verus!
