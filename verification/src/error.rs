//! The error type shared by media opening and the image pipeline.
use vstd::prelude::*;

verus! {

/// Failure reported by the library: a general application failure raised at
/// media-open time, or a per-frame image-pipeline failure.
#[derive(Debug)]
pub enum Error {
    Application(String),
    Pipeline(String),
}

impl Error {
    /// The human-readable cause carried by the error.
    pub open spec fn spec_message(&self) -> Seq<char> {
        match self {
            Error::Application(s) => s@,
            Error::Pipeline(s) => s@,
        }
    }

    /// Reads the cause out of either variant.
    pub fn message(&self) -> (r: &String)
        ensures
            r@ == self.spec_message(),
    {
        match self {
            Error::Application(s) => s,
            Error::Pipeline(s) => s,
        }
    }
}

} // verus!
