//! The errors of the library.

use vstd::prelude::*;
use vstd::string::*;

verus! {

/// An error that a step of the release pipeline reports.
#[derive(Debug)]
pub enum XtaskError {
    /// The manifest has no line `field = "value"`.
    FieldNotFound { field: String, path: String },
    /// The command line names no known subcommand.
    InvalidArguments,
}

/// The text of the message for a missing manifest field.
pub open spec fn field_not_found_message(field: Seq<char>, path: Seq<char>) -> Seq<char> {
    "can't find `"@ + field + "` in "@ + path
}

/// The text of the message for a command line without a known subcommand.
pub open spec fn invalid_arguments_message() -> Seq<char> {
    "invalid arguments"@
}

impl XtaskError {
    /// The error's message, as the user reads it.
    pub fn message(&self) -> (r: String)
        ensures
            r@ == (match self {
                XtaskError::FieldNotFound { field, path } => field_not_found_message(field@, path@),
                XtaskError::InvalidArguments => invalid_arguments_message(),
            }),
    {
        match self {
            XtaskError::FieldNotFound { field, path } => {
                let mut m = String::from_str("can't find `");
                m.append(field.as_str());
                m.append("` in ");
                m.append(path.as_str());
                m
            },
            XtaskError::InvalidArguments => String::from_str("invalid arguments"),
        }
    }
}

} // verus!
