//! Transport errors, and the transport through geesed.

pub mod geesed;

use crate::transport::geesed::GeesedError;
use vstd::prelude::*;

verus! {

/// A transport-level error.
///
/// Holds the words of a backend's error for callers that do not need to
/// inspect the original variant.
#[derive(Debug)]
pub enum TransportError {
    Other(String),
}

impl TransportError {
    /// The words of the error.
    pub open spec fn words(self) -> Seq<char> {
        match self {
            TransportError::Other(words) => words@,
        }
    }

    /// The words of the error.
    pub fn message(&self) -> (res: String)
        ensures
            res@ == self.words(),
    {
        match self {
            TransportError::Other(words) => words.clone(),
        }
    }

    /// The words of a geesed error, as a transport error.
    pub fn from_geesed(e: GeesedError) -> (res: TransportError)
        ensures
            res.words() == e@.words(),
    {
        TransportError::Other(e.message())
    }
}

} // verus!
