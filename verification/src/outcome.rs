//! What one fetch yields: an outcome once the whole body has been read and
//! scanned, or a failure.

use vstd::prelude::*;
use crate::matcher::{occurs, pattern_matches};

verus! {

/// A failure of the object store or of reading what it sent. Every one is
/// fatal to the request.
#[derive(Clone, Copy, Debug, PartialEq, Eq, Structural)]
pub enum PipelineError {
    /// Listing or fetching failed: the store could not be reached, refused
    /// access, or does not hold the container or the object.
    Store,
    /// A body arrived but could not be decoded.
    Decode,
}

/// One object, fetched in full and scanned.
#[derive(Clone, Debug, PartialEq, Eq)]
pub struct FetchOutcome {
    pub identifier: String,
    pub matched: bool,
}

/// A `FetchOutcome` as plain values.
pub struct OutcomeView {
    pub identifier: Seq<char>,
    pub matched: bool,
}

impl View for FetchOutcome {
    type V = OutcomeView;

    open spec fn view(&self) -> OutcomeView {
        OutcomeView { identifier: self.identifier@, matched: self.matched }
    }
}

/// The outcome owed for an object with the given identifier and body: it
/// matches where a pattern was asked for and occurs in the body, and never
/// where none was asked for.
pub open spec fn scanned(identifier: Seq<char>, body: Seq<u8>, pattern: Option<Seq<u8>>) -> OutcomeView {
    OutcomeView {
        identifier,
        matched: match pattern {
            Some(bytes) => occurs(body, bytes),
            None => false,
        },
    }
}

/// Turns a fully read body into the outcome of its fetch.
pub fn scan(identifier: &str, body: &[u8], pattern: Option<&[u8]>) -> (outcome: FetchOutcome)
    ensures
        outcome@ == scanned(
            identifier@,
            body@,
            match pattern {
                Some(bytes) => Some(bytes@),
                None => None,
            },
        ),
{
    let matched = match pattern {
        Some(bytes) => pattern_matches(body, bytes),
        None => false,
    };
    FetchOutcome { identifier: identifier.to_owned(), matched }
}

} // verus!
