//! What can go wrong while a sheet is built or code is generated.

use vstd::prelude::*;

verus! {

/// The failures of the library. None of them can be recovered from where
/// it is found: each is handed to the caller.
#[derive(Clone, Copy, Debug, PartialEq, Eq, Structural)]
pub enum SheetError {
    /// A cell that should name a column is a truth value or is empty.
    MalformedHeader,
    /// A spreadsheet cell holds an error in place of a value.
    UnparseableCell,
    /// The name column is not a column of the sheet.
    NameColumnOutOfRange,
    /// The input document is of a kind that is not read.
    UnsupportedDocument,
    /// A delimited text cannot be split into a header and records of the
    /// header's length.
    MalformedDocument,
}

/// The message of a failure, as a sequence of characters.
pub open spec fn message_text(e: SheetError) -> Seq<char> {
    match e {
        SheetError::MalformedHeader => "a column name is a boolean or is empty"@,
        SheetError::UnparseableCell => "a cell holds an error"@,
        SheetError::NameColumnOutOfRange => "the name column is out of range"@,
        SheetError::UnsupportedDocument => "unsupported file type"@,
        SheetError::MalformedDocument => "the delimited text is malformed"@,
    }
}

impl SheetError {
    /// A short message for the user.
    pub fn message(&self) -> (r: String)
        ensures
            r@ == message_text(*self),
    {
        match self {
            SheetError::MalformedHeader => String::from_str("a column name is a boolean or is empty"),
            SheetError::UnparseableCell => String::from_str("a cell holds an error"),
            SheetError::NameColumnOutOfRange => String::from_str("the name column is out of range"),
            SheetError::UnsupportedDocument => String::from_str("unsupported file type"),
            SheetError::MalformedDocument => String::from_str("the delimited text is malformed"),
        }
    }
}

} // verus!
