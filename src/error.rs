use vstd::prelude::*;

verus! {

/// Why an operation of the editor was refused.
#[derive(Debug, Clone, Copy, PartialEq, Eq, Structural)]
pub enum DocError {
    /// Bytes that do not decode to the expected value.
    MalformedPayload,
    /// An index or interval outside the document.
    OutOfRange,
    /// A revision whose base is not the current head of the chain.
    RevisionConflict,
    /// The revision counter cannot advance any further.
    RevIdExhausted,
}

} // verus!
