//! The one way in which building a document can fail.
use vstd::prelude::*;

verus! {

/// A builder call was handed a value outside the range it accepts.
#[derive(Clone, Copy, Debug, PartialEq, Eq, Structural)]
pub enum HtmlError {
    /// A header level other than 1, 2, 3, 4, 5 or 6.
    InvalidHeaderLevel { level: u8 },
}

impl HtmlError {
    /// A short description of the error.
    pub fn message(&self) -> (text: &'static str)
        ensures
            text@ == "header level must be between 1 and 6"@,
    {
        match self {
            HtmlError::InvalidHeaderLevel { .. } => "header level must be between 1 and 6",
        }
    }
}

} // verus!
