//! The error type shared by every operation of the library.

use vstd::prelude::*;

verus! {

/// The errors that the library's operations report.
#[derive(Debug, Clone, PartialEq, Eq)]
pub enum MigratoryError {
    /// A failure described by its message alone.
    Generic(String),
    /// Something that was looked up does not exist.
    NotFound(String),
    /// A configuration or an argument failed validation.
    Validation(String),
    /// Something that was to be created exists already.
    AlreadyExists(String),
    /// An input/output failure, described by its message.
    Io(String),
}

/// The text that describes an error to a user.
pub open spec fn error_message(e: MigratoryError) -> Seq<char> {
    match e {
        MigratoryError::Generic(s) => s@,
        MigratoryError::NotFound(s) => "Not found: "@ + s@,
        MigratoryError::Validation(s) => "Validation error: "@ + s@,
        MigratoryError::AlreadyExists(s) => "Already exists: "@ + s@,
        MigratoryError::Io(s) => "IO error: "@ + s@,
    }
}

impl MigratoryError {
    /// Returns the text that describes this error to a user.
    pub fn message(&self) -> (s: String)
        ensures
            s@ == error_message(*self),
    {
        match self {
            MigratoryError::Generic(m) => m.clone(),
            MigratoryError::NotFound(m) => {
                let mut s = "Not found: ".to_owned();
                s.append(m.as_str());
                s
            },
            MigratoryError::Validation(m) => {
                let mut s = "Validation error: ".to_owned();
                s.append(m.as_str());
                s
            },
            MigratoryError::AlreadyExists(m) => {
                let mut s = "Already exists: ".to_owned();
                s.append(m.as_str());
                s
            },
            MigratoryError::Io(m) => {
                let mut s = "IO error: ".to_owned();
                s.append(m.as_str());
                s
            },
        }
    }
}

} // verus!
