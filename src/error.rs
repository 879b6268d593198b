use vstd::prelude::*;

verus! {

/// An error returned by the decoder or by a field-level parser.
#[derive(Debug, PartialEq, Eq)]
pub enum Error {
    /// The data is not in the expected structure.
    InvalidFormat(&'static str),
    /// The value of a field is blank.
    BlankValue(&'static str),
    /// The requested data was not found.
    NotFound(&'static str),
}

} // verus!
