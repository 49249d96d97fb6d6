use vstd::prelude::*;

verus! {

/// Why the freedom analysis of a system could not be carried out.
#[derive(Debug, Clone, Copy, PartialEq, Eq, Structural)]
pub enum NonLinearSystemError {
    /// The Jacobian has no rows or no columns: there is nothing to analyse.
    EmptySystemNotAllowed,
}

} // verus!
