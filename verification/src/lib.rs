//! Degree-of-freedom analysis for a geometric constraint system.
//!
//! After a nonlinear solve, the Jacobian of the system at the final solution tells
//! which variables are still free to move (they take part in its null space) and
//! which constraints merely repeat what the others already say (their rows lie in
//! its left null space). The numerical linear algebra that measures those spaces
//! works in floating point and is done by the caller; this crate holds the decisions
//! taken on its outcomes and the record of the result, [`FreedomAnalysis`].
use vstd::prelude::*;

pub mod analysis;
pub mod dof;
pub mod error;

pub use analysis::{Analysis, FreedomAnalysis, FreedomAnalysisView, NoAnalysis};
pub use error::NonLinearSystemError;

verus! {

/// Identifies one scalar variable of the constraint system.
pub type Id = u32;

} // verus!
