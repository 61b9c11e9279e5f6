use vstd::prelude::*;

verus! {

/// Failure kinds of the reification core.
///
/// Inside the parser and the specialization layer these never abort the
/// enclosing tree: the affected sub-node is downgraded to an absent value
/// instead, and only the top-level entry surfaces an error to the caller.
#[derive(Debug)]
pub enum Error {
    /// A cross-process memory read failed.
    Memory,
    /// A landmark field was not found during the breadth-first search.
    FieldNotFound(&'static str),
    /// A landmark field was found but had the wrong kind.
    FieldNotANumber(&'static str),
    /// A specialization contract could not be satisfied.
    IncompleteInterp(&'static str),
    /// A scalar encoding / byte-size combination outside the decision table.
    UnsupportedEncoding,
    /// The type graph cannot compute a size needed for an element-chunked read.
    UnknownTypeSize,
}

impl Error {
    /// A short, stable description of the failure kind.
    pub fn describe(&self) -> (r: &'static str)
        ensures
            r == self.spec_describe(),
    {
        match self {
            Error::Memory => "memory read failed",
            Error::FieldNotFound(_) => "field not found",
            Error::FieldNotANumber(_) => "field not a number",
            Error::IncompleteInterp(_) => "incomplete interpretation",
            Error::UnsupportedEncoding => "unsupported scalar encoding",
            Error::UnknownTypeSize => "unknown type size",
        }
    }

    pub open spec fn spec_describe(&self) -> &'static str {
        match self {
            Error::Memory => "memory read failed",
            Error::FieldNotFound(_) => "field not found",
            Error::FieldNotANumber(_) => "field not a number",
            Error::IncompleteInterp(_) => "incomplete interpretation",
            Error::UnsupportedEncoding => "unsupported scalar encoding",
            Error::UnknownTypeSize => "unknown type size",
        }
    }
}

} // verus!
