use vstd::prelude::*;

verus! {

/// What a recogniser expected where it failed.
#[derive(Debug, Clone, PartialEq, Eq)]
pub enum ErrorKind {
    Tag(String),
    Ident,
    Float,
    Int,
    AnyChar,
    Comparison,
}

/// A recogniser's failure: the input it was given and what it expected there.
#[derive(Debug, Clone, PartialEq, Eq)]
pub struct Error {
    pub input: String,
    pub code: ErrorKind,
}

impl Error {
    pub fn new(input: String, code: ErrorKind) -> (r: Error)
        ensures
            r.input == input,
            r.code == code,
    {
        Error { input, code }
    }
}

} // verus!
