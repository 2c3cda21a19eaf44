//! Error values returned by the library.

use vstd::prelude::*;

verus! {

/// This crate's errors.
#[derive(Debug)]
pub enum Error {
    /// The character is not in the ASCII table, or is a control character.
    NotAscii(char),
    /// The string was not found.
    NotFound(String),
    /// The date could not be parsed.
    DateParsing(time::error::Parse),
    /// The date could not be formatted.
    DateFormat(time::error::Format),
}

} // verus!
