use vstd::prelude::*;

use crate::calc::{RecipeBinding, Solution};
use crate::error::DspCalError;
use crate::recipe::RecipeModel;

verus! {

/// Usage at or below this (fixed point) counts as zero: single-precision
/// machine epsilon, 1.19e-7, in fixed point.
pub const USAGE_THRESHOLD: i64 = 119;

/// Every binding's variable has a value among `n` values.
pub open spec fn all_known(bs: Seq<RecipeBinding>, n: int) -> bool {
    forall|i: int| 0 <= i < bs.len() ==> (#[trigger] bs[i]).variable < n
}

/// The kept part of a solver assignment: each binding whose variable's value
/// is above the threshold, with that value, in binding order.
pub open spec fn kept(bs: Seq<RecipeBinding>, values: Seq<i64>) -> Seq<(RecipeModel, i64)>
    decreases bs.len(),
{
    if bs.len() == 0 {
        seq![]
    } else {
        let prev = kept(bs.drop_last(), values);
        let v = values[bs.last().variable as int];
        if v > USAGE_THRESHOLD {
            prev.push((bs.last().recipe@, v))
        } else {
            prev
        }
    }
}

pub open spec fn solution_view(s: Solution) -> (RecipeModel, i64) {
    (s.recipe@, s.num)
}

/// Every usage that the translation keeps is above the threshold.
pub proof fn lemma_kept_above_threshold(bs: Seq<RecipeBinding>, values: Seq<i64>)
    ensures
        forall|k: int| 0 <= k < kept(bs, values).len() ==> #[trigger] kept(bs, values)[k].1
            > USAGE_THRESHOLD,
    decreases bs.len(),
{
    if bs.len() > 0 {
        lemma_kept_above_threshold(bs.drop_last(), values);
        let prev = kept(bs.drop_last(), values);
        assert forall|k: int| 0 <= k < kept(bs, values).len() implies #[trigger] kept(bs, values)[k].1
            > USAGE_THRESHOLD by {
            if k < prev.len() {
                assert(kept(bs, values)[k] == prev[k]);
            }
        }
    }
}

/// Reads each binding's value from the solver's assignment (`values[v]` is
/// the value of variable `v`, fixed point) and keeps the recipes in use.
/// A variable without a value is an internal error.
pub fn from_clarabel_solution(recipes: &Vec<RecipeBinding>, values: &Vec<i64>) -> (r: Result<
    Vec<Solution>,
    DspCalError,
>)
    ensures
        r is Ok <==> all_known(recipes@, values@.len() as int),
        r matches Ok(s) ==> s@.map_values(|x: Solution| solution_view(x)) == kept(
            recipes@,
            values@,
        ),
        r matches Ok(s) ==> forall|k: int|
            0 <= k < s@.len() ==> (#[trigger] s@[k]).num > USAGE_THRESHOLD,
        r matches Err(e) ==> exists|i: int|
            0 <= i < recipes@.len() && all_known(recipes@.take(i), values@.len() as int)
                && recipes@[i].variable >= values@.len() && (e matches DspCalError::UnknownLpVarId(
                v,
            ) && v == recipes@[i].variable),
{
    let mut solutions: Vec<Solution> = Vec::new();
    let mut i: usize = 0;
    while i < recipes.len()
        invariant
            i <= recipes.len(),
            all_known(recipes@.take(i as int), values@.len() as int),
            solutions@.map_values(|x: Solution| solution_view(x)) == kept(
                recipes@.take(i as int),
                values@,
            ),
        decreases recipes.len() - i,
    {
        let b = &recipes[i];
        assert(recipes@.take(i + 1).drop_last() =~= recipes@.take(i as int));
        if b.variable >= values.len() {
            return Err(DspCalError::UnknownLpVarId(b.variable));
        }
        let num = values[b.variable];
        if num > USAGE_THRESHOLD {
            solutions.push(Solution { recipe: b.recipe.duplicate(), num });
        }
        assert(solutions@.map_values(|x: Solution| solution_view(x)) =~= kept(
            recipes@.take(i + 1),
            values@,
        ));
        assert(all_known(recipes@.take(i + 1), values@.len() as int)) by {
            assert forall|q: int| 0 <= q < i + 1 implies (#[trigger] recipes@.take(i + 1)[q]).variable
                < values@.len() by {
                if q < i {
                    assert(recipes@.take(i + 1)[q] == recipes@.take(i as int)[q]);
                }
            }
        }
        i = i + 1;
    }
    assert(recipes@.take(recipes.len() as int) =~= recipes@);
    proof {
        lemma_kept_above_threshold(recipes@, values@);
        assert forall|k: int| 0 <= k < solutions@.len() implies (#[trigger] solutions@[k]).num
            > USAGE_THRESHOLD by {
            let kv = kept(recipes@, values@);
            assert(solutions@.map_values(|x: Solution| solution_view(x))[k] == solution_view(
                solutions@[k],
            ));
            assert(kv[k].1 > USAGE_THRESHOLD);
        }
    }
    Ok(solutions)
}

} // verus!
