use vstd::prelude::*;

use super::directory::{ProofBlockRef, ProofBlockStepRef};

verus! {

/// What checking a document found wrong with a proof.
#[derive(Clone, Copy, PartialEq, Eq, Debug, Structural)]
pub enum DocumentCheckingError {
    /// The last step of the proof is not the assertion of its theorem.
    AssertionMismatch(ProofBlockRef),
    /// A step of the proof does not match the assertion of the axiom or theorem that justifies it.
    DeductableAssertionNotSubstitutable(ProofBlockRef, ProofBlockStepRef),
}

/// The errors found while checking a document, in the order they were found.
pub struct DocumentCheckingErrorContext {
    pub errors: Vec<DocumentCheckingError>,
}

impl DocumentCheckingErrorContext {
    pub fn new() -> (r: DocumentCheckingErrorContext)
        ensures
            r.errors@ == Seq::<DocumentCheckingError>::empty(),
    {
        DocumentCheckingErrorContext { errors: Vec::new() }
    }

    /// Records an error.
    pub fn err(&mut self, e: DocumentCheckingError)
        ensures
            final(self).errors@ == old(self).errors@.push(e),
    {
        self.errors.push(e);
    }

    /// Whether an error was recorded.
    pub fn error_found(&self) -> (r: bool)
        ensures
            r == (self.errors@.len() > 0),
    {
        self.errors.len() > 0
    }
}

} // verus!
