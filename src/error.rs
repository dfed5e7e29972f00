//! The error type of the library.
use vstd::prelude::*;

verus! {

/// The CSV crate's error, carried through unchanged.
#[verifier::external_type_specification]
#[verifier::external_body]
pub struct ExCsvError(csv::Error);

#[derive(Debug)]
pub enum CustomError {
    /// A file or directory could not be read; holds the path and the reason.
    FileReadError(String),
    /// A path that names no file.
    IllegalFileError(String),
    /// A file or directory whose name breaks the naming conventions.
    UnexpectedFileError(String),
    /// The CSV text of a file could not be read; holds the file and the reason.
    CsvParseError(String, csv::Error),
    /// The table holds no data row, or a row lacks a required column; holds the file.
    CsvDataError(String),
    /// The chosen root is not a directory; holds the root.
    NotADirectory(String),
    /// The chosen root holds no term directory.
    NoTermDirectories,
    /// An entry under a term directory is not a directory; holds its path.
    EntryNotADirectory(String),
    /// A directory under a term directory is not named as a college; holds its path.
    InvalidCollegeDirectory(String),
    /// A GPA query named no term.
    NoTermsRequested,
    /// Any other failure, with its context.
    UnknownError(String),
}

} // verus!
