//! The failures that extraction reports.
use vstd::prelude::*;

verus! {

/// Why an extraction step failed.
#[derive(Debug)]
pub enum ParsingError {
    /// The transport could not deliver a page.
    DownloadError { cause: String },
    /// A page did not have the expected shape; `cause` names the step.
    ParsingError { cause: String },
    /// The video is behind an age gate.
    AgeRestricted,
}

impl ParsingError {
    /// A structural failure with the given cause.
    pub fn parsing_error_from_str(cause: &str) -> (e: ParsingError)
        ensures
            e.is_parsing(),
            e.cause_text() == cause@,
    {
        ParsingError::ParsingError { cause: String::from_str(cause) }
    }

    pub open spec fn is_parsing(&self) -> bool {
        self is ParsingError
    }

    /// The cause carried by a failure; empty for an age gate.
    pub open spec fn cause_text(&self) -> Seq<char> {
        match self {
            ParsingError::DownloadError { cause } => cause@,
            ParsingError::ParsingError { cause } => cause@,
            ParsingError::AgeRestricted => Seq::empty(),
        }
    }

    /// The cause as text; an age gate is described in words.
    pub fn message(&self) -> (r: String)
        ensures
            !(self is AgeRestricted) ==> r@ == self.cause_text(),
    {
        match self {
            ParsingError::DownloadError { cause } => cause.clone(),
            ParsingError::ParsingError { cause } => cause.clone(),
            ParsingError::AgeRestricted => String::from_str("age restricted"),
        }
    }
}

} // verus!
