use vstd::prelude::*;

use crate::calc::RecipeBinding;
use crate::item::UNIT;
use crate::lp::Term;

verus! {

/// The objective term of a binding: its weight on its variable.
pub open spec fn weight_term(b: RecipeBinding) -> Term {
    Term { variable: b.variable, num: b.weight as i128, den: 1 }
}

/// The cost expression: the weighted sum of all binding variables.
pub fn minimize_by_weight(recipe: &Vec<RecipeBinding>) -> (r: Vec<Term>)
    ensures
        r@ == recipe@.map_values(|b: RecipeBinding| weight_term(b)),
{
    let mut r: Vec<Term> = Vec::with_capacity(recipe.len());
    let mut i: usize = 0;
    while i < recipe.len()
        invariant
            i <= recipe.len(),
            r@ == recipe@.take(i as int).map_values(|b: RecipeBinding| weight_term(b)),
        decreases recipe.len() - i,
    {
        let b = &recipe[i];
        r.push(Term { variable: b.variable, num: b.weight as i128, den: 1 });
        assert(recipe@.take(i + 1).map_values(|b: RecipeBinding| weight_term(b)) =~= recipe@.take(
            i as int,
        ).map_values(|b: RecipeBinding| weight_term(b)).push(weight_term(recipe@[i as int])));
        i = i + 1;
    }
    assert(recipe@.take(recipe.len() as int) =~= recipe@);
    r
}

/// The building count: the sum of the given variables, each at weight one
/// (`UNIT` in fixed point, the scale of `minimize_by_weight`).
pub fn minimize_buildings_count(recipe_variables: &Vec<usize>) -> (r: Vec<Term>)
    ensures
        r@ == recipe_variables@.map_values(
            |v: usize| Term { variable: v, num: UNIT as i128, den: 1 },
        ),
{
    let mut r: Vec<Term> = Vec::with_capacity(recipe_variables.len());
    let mut i: usize = 0;
    while i < recipe_variables.len()
        invariant
            i <= recipe_variables.len(),
            r@ == recipe_variables@.take(i as int).map_values(
                |v: usize| Term { variable: v, num: UNIT as i128, den: 1 },
            ),
        decreases recipe_variables.len() - i,
    {
        r.push(Term { variable: recipe_variables[i], num: UNIT as i128, den: 1 });
        assert(recipe_variables@.take(i + 1).map_values(|v: usize| Term { variable: v, num: UNIT as i128, den: 1 })
            =~= recipe_variables@.take(i as int).map_values(
            |v: usize| Term { variable: v, num: UNIT as i128, den: 1 },
        ).push(Term { variable: recipe_variables@[i as int], num: UNIT as i128, den: 1 }));
        i = i + 1;
    }
    assert(recipe_variables@.take(recipe_variables.len() as int) =~= recipe_variables@);
    r
}

/// With every weight one, the weighted objective is the building count of
/// the bound variables.
pub proof fn lemma_unit_weights_count_buildings(bs: Seq<RecipeBinding>, vars: Seq<usize>)
    requires
        bs.len() == vars.len(),
        forall|i: int| 0 <= i < bs.len() ==> (#[trigger] bs[i]).variable == vars[i] && bs[i].weight == UNIT,
    ensures
        bs.map_values(|b: RecipeBinding| weight_term(b)) == vars.map_values(
            |v: usize| Term { variable: v, num: UNIT as i128, den: 1 },
        ),
{
    assert(bs.map_values(|b: RecipeBinding| weight_term(b)) =~= vars.map_values(
        |v: usize| Term { variable: v, num: UNIT as i128, den: 1 },
    ));
}

} // verus!
