//! Structured fatal diagnostics.
//!
//! The engine never terminates the process itself: a fatal,
//! programmer-facing defect (such as a rule matching with zero length) is
//! reported as a typed error value carrying a message and the 1-based source
//! position it refers to, and the caller owns the decision to abort, log, or
//! continue.

use vstd::prelude::*;

verus! {

/// A fatal diagnostic: a message together with the 1-based line and column
/// it refers to.
#[derive(Debug, PartialEq)]
pub struct DiagnosticError {
    pub message: String,
    pub line: usize,
    pub column: usize,
}

impl Clone for DiagnosticError {
    fn clone(&self) -> (r: Self)
        ensures
            r == *self,
    {
        DiagnosticError { message: self.message.clone(), line: self.line, column: self.column }
    }
}

} // verus!
