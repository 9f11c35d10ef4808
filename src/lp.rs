use vstd::prelude::*;

use crate::item::ResourceType;

verus! {

/// The linear term `(num / den) * x[variable]`. In the terms that the
/// library builds, `den` is a recipe's cycle time or one, so it is positive.
#[derive(Clone, Copy, Debug, PartialEq, Eq, Structural)]
pub struct Term {
    pub variable: usize,
    pub num: i128,
    pub den: i64,
}

/// The net-balance constraint of one resource type:
/// `sum(produced) - sum(consumed) >= demand / UNIT`.
#[derive(Clone, Debug)]
pub struct Constraint {
    pub resource_type: ResourceType,
    pub produced: Vec<Term>,
    pub consumed: Vec<Term>,
    pub demand: i64,
}

/// A linear program over `variables` non-negative continuous variables,
/// numbered from zero: minimise `sum(objective)` subject to `constraints`.
#[derive(Clone, Debug)]
pub struct LinearProgram {
    pub variables: usize,
    pub objective: Vec<Term>,
    pub constraints: Vec<Constraint>,
}

impl LinearProgram {
    /// A program with no variable, no constraint and the zero objective.
    pub fn new() -> (r: Self)
        ensures
            r.variables == 0,
            r.objective@.len() == 0,
            r.constraints@.len() == 0,
    {
        LinearProgram { variables: 0, objective: Vec::new(), constraints: Vec::new() }
    }

    /// Adds a non-negative variable and returns its handle.
    pub fn add_variable(&mut self) -> (v: usize)
        requires
            old(self).variables < usize::MAX,
        ensures
            v == old(self).variables,
            final(self).variables == old(self).variables + 1,
            final(self).objective@ == old(self).objective@,
            final(self).constraints@ == old(self).constraints@,
    {
        let v = self.variables;
        self.variables = v + 1;
        v
    }

    /// Replaces the objective to minimise.
    pub fn minimise(&mut self, objective: Vec<Term>)
        ensures
            final(self).variables == old(self).variables,
            final(self).objective@ == objective@,
            final(self).constraints@ == old(self).constraints@,
    {
        self.objective = objective;
    }

    /// Adds a constraint and returns its position.
    pub fn add_constraint(&mut self, c: Constraint) -> (r: usize)
        ensures
            r == old(self).constraints@.len(),
            final(self).variables == old(self).variables,
            final(self).objective@ == old(self).objective@,
            final(self).constraints@ == old(self).constraints@.push(c),
    {
        let r = self.constraints.len();
        self.constraints.push(c);
        r
    }
}

} // verus!
