use vstd::prelude::*;

verus! {

/// How the linear-program solver failed.
#[derive(Clone, Debug)]
pub enum SolverFailure {
    /// No assignment meets every constraint.
    Infeasible,
    /// The objective has no lower bound on the feasible set.
    Unbounded,
    /// The solver stopped for another reason (numerical trouble, limits).
    Other(String),
}

/// The errors of the library.
#[derive(Clone, Debug)]
pub enum DspCalError {
    /// The recipe list and the weight list differ in length
    /// (recipes, weights).
    MismatchedRecipeWeights(usize, usize),
    /// A catalogue recipe names a building code that is not known.
    UnknownBuildingType(i64),
    /// A catalogue recipe names an item that is not known.
    UnknownItemId(i16),
    /// A variable handle has no value in the solved program.
    UnknownLpVarId(usize),
    /// The solver reported a failure.
    LpSolverError(SolverFailure),
}

} // verus!
