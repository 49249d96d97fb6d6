use vstd::prelude::*;

use crate::Id;

verus! {

/// The mathematical content of a [`FreedomAnalysis`].
pub ghost struct FreedomAnalysisView {
    /// Variables that can still move, in increasing order of id.
    pub underconstrained: Seq<Id>,
    /// Constraints (by request index) that could each be removed without freeing anything.
    pub redundant: Seq<usize>,
    /// Rank of the Jacobian at the final solution.
    pub rank: nat,
    /// Number of equations (Jacobian rows) in the system.
    pub num_equations: nat,
}

/// Something that can be computed about a system alongside its solution.
pub trait Analysis: Sized {
    /// The analysis of a system that has no constraints at all.
    fn no_constraints() -> Self;
}

/// The analysis that records nothing.
#[derive(Debug, Default)]
pub struct NoAnalysis;

impl Analysis for NoAnalysis {
    fn no_constraints() -> (r: Self) {
        NoAnalysis
    }
}

/// Results from analyzing the freedom of each variable.
#[derive(Debug)]
pub struct FreedomAnalysis {
    /// These variables are underconstrained, and the user could (probably should)
    /// add more constraints so that their positions are properly specified and don't
    /// depend on the initial guesses.
    underconstrained: Vec<Id>,
    /// Constraints which could each be removed without freeing anything,
    /// identified by their index in the request list.
    redundant: Vec<usize>,
    /// Rank of the Jacobian at the final solution.
    rank: usize,
    /// Number of equations (Jacobian rows) in the system.
    num_equations: usize,
}

impl View for FreedomAnalysis {
    type V = FreedomAnalysisView;

    closed spec fn view(&self) -> FreedomAnalysisView {
        FreedomAnalysisView {
            underconstrained: self.underconstrained@,
            redundant: self.redundant@,
            rank: self.rank as nat,
            num_equations: self.num_equations as nat,
        }
    }
}

impl Default for FreedomAnalysis {
    /// The empty analysis: nothing free, nothing redundant, no equations.
    fn default() -> (r: Self)
        ensures
            r@.underconstrained == Seq::<Id>::empty(),
            r@.redundant == Seq::<usize>::empty(),
            r@.rank == 0,
            r@.num_equations == 0,
    {
        FreedomAnalysis { underconstrained: Vec::new(), redundant: Vec::new(), rank: 0, num_equations: 0 }
    }
}

impl Analysis for FreedomAnalysis {
    /// A system without constraints is reported as the empty analysis.
    fn no_constraints() -> (r: Self)
        ensures
            r@.underconstrained == Seq::<Id>::empty(),
            r@.redundant == Seq::<usize>::empty(),
            r@.rank == 0,
            r@.num_equations == 0,
    {
        Self::default()
    }
}

impl FreedomAnalysis {
    /// Records the outcome of an analysis.
    pub fn new(underconstrained: Vec<Id>, redundant: Vec<usize>, rank: usize, num_equations: usize) -> (r: Self)
        ensures
            r@.underconstrained == underconstrained@,
            r@.redundant == redundant@,
            r@.rank == rank,
            r@.num_equations == num_equations,
    {
        FreedomAnalysis { underconstrained, redundant, rank, num_equations }
    }

    /// Is any variable in the system underconstrained?
    pub fn is_underconstrained(&self) -> (r: bool)
        ensures
            r == (self@.underconstrained.len() > 0),
    {
        !self.underconstrained.is_empty()
    }

    /// These variables are underconstrained, and the user could (probably should)
    /// add more constraints so that their positions are properly specified and don't
    /// depend on the initial guesses.
    pub fn underconstrained(&self) -> (r: &[Id])
        ensures
            r@ == self@.underconstrained,
    {
        self.underconstrained.as_slice()
    }

    /// Just like [`FreedomAnalysis::underconstrained`] except it consumes the struct to take ownership.
    pub fn into_underconstrained(self) -> (r: Vec<Id>)
        ensures
            r@ == self@.underconstrained,
            r == self.underconstrained_vec(),
    {
        self.underconstrained
    }

    /// Could any constraint be removed without freeing anything?
    pub fn has_redundant_constraints(&self) -> (r: bool)
        ensures
            r == (self@.redundant.len() > 0),
    {
        !self.redundant.is_empty()
    }

    /// Constraints which could each be removed without freeing anything, because at
    /// the final solution what they say is implied by the other constraints. Removing
    /// any one of them is safe; removing several at once may not be. Each is the
    /// constraint's index in the request list, in request order.
    ///
    /// A constraint with several equations is listed only if all of them are implied
    /// by the others, so [`Self::rank`] can be below [`Self::num_equations`] with
    /// nothing listed here. If the system is unsatisfied, a constraint listed here may
    /// be in conflict with the others rather than merely repeating them.
    pub fn redundant(&self) -> (r: &[usize])
        ensures
            r@ == self@.redundant,
    {
        self.redundant.as_slice()
    }

    /// Rank of the Jacobian at the final solution: how many of the system's
    /// equations are independent.
    pub fn rank(&self) -> (r: usize)
        ensures
            r == self@.rank,
    {
        self.rank
    }

    /// Number of equations in the system. Most constraints contribute one;
    /// some, like two points being coincident, contribute more.
    pub fn num_equations(&self) -> (r: usize)
        ensures
            r == self@.num_equations,
    {
        self.num_equations
    }
}

impl From<FreedomAnalysis> for Vec<Id> {
    fn from(analysis: FreedomAnalysis) -> (r: Vec<Id>) {
        analysis.into_underconstrained()
    }
}

impl vstd::std_specs::convert::FromSpecImpl<FreedomAnalysis> for Vec<Id> {
    open spec fn obeys_from_spec() -> bool {
        true
    }

    open spec fn from_spec(analysis: FreedomAnalysis) -> Vec<Id> {
        analysis.underconstrained_vec()
    }
}

impl FreedomAnalysis {
    /// The list of underconstrained variables, as the vector that holds it.
    pub closed spec fn underconstrained_vec(self) -> Vec<Id> {
        self.underconstrained
    }

    /// Turning an analysis into a vector of ids gives the list that
    /// [`FreedomAnalysis::underconstrained`] and [`FreedomAnalysis::into_underconstrained`] give.
    pub proof fn law_into_vec_is_underconstrained(self)
        ensures
            <Vec<Id> as vstd::std_specs::convert::FromSpec<FreedomAnalysis>>::from_spec(self)@
                == self@.underconstrained,
            self.underconstrained_vec()@ == self@.underconstrained,
    {
    }
}

} // verus!
