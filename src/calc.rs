use vstd::prelude::*;
use std::collections::HashSet;

use crate::constraint::{
    coefficient, constraint_needs, constraint_recipes, is_balance, lemma_balance_is_net_rate,
    terms_of, terms_well_placed,
};
use crate::error::DspCalError;
use crate::index::{amount_of, index_entries, lemma_entries_bindings, side_lines, ProcessedRecipes};
use crate::item::{Resource, ResourceType};
use crate::lp::{Constraint, LinearProgram, Term};
use crate::objective::{minimize_by_weight, weight_term};
use crate::recipe::{Recipe, RecipeModel};
use crate::translator::all_known;

verus! {

broadcast use vstd::std_specs::hash::group_hash_axioms;

/// What to plan: the recipe catalogue, the demanded net rates, and one cost
/// weight per recipe (same position).
pub struct Problem {
    pub recipes: Vec<Recipe>,
    pub needs: Vec<Resource>,
    pub weights: Vec<i64>,
}

/// The value of a problem, as contracts speak of it.
pub struct ProblemModel {
    pub recipes: Seq<RecipeModel>,
    pub needs: Seq<Resource>,
    pub weights: Seq<i64>,
}

/// The values of a list of recipes.
pub open spec fn recipe_models(rs: Seq<Recipe>) -> Seq<RecipeModel> {
    rs.map_values(|r: Recipe| r@)
}

impl View for Problem {
    type V = ProblemModel;

    open spec fn view(&self) -> ProblemModel {
        ProblemModel {
            recipes: recipe_models(self.recipes@),
            needs: self.needs@,
            weights: self.weights@,
        }
    }
}

/// A recipe in use and how many instances of it run in parallel (fixed point).
pub struct Solution {
    pub recipe: Recipe,
    pub num: i64,
}

/// A recipe bound to its decision variable and its cost weight, for one
/// formulation.
pub struct RecipeBinding {
    pub recipe: Recipe,
    pub variable: usize,
    pub weight: i64,
}

/// A problem turned into a linear program: the bindings (variable `i` is
/// recipe `i`'s usage) and the program itself.
pub struct Formulation {
    pub bindings: Vec<RecipeBinding>,
    pub program: LinearProgram,
}

/// The outputs of all recipes, in order.
pub open spec fn result_lines(rs: Seq<RecipeModel>) -> Seq<Resource>
    decreases rs.len(),
{
    if rs.len() == 0 {
        seq![]
    } else {
        result_lines(rs.drop_last()) + rs.last().results
    }
}

/// The distinct resource types of `lines`, in order of first appearance.
pub open spec fn distinct_types(lines: Seq<Resource>) -> Seq<ResourceType>
    decreases lines.len(),
{
    if lines.len() == 0 {
        seq![]
    } else {
        let prev = distinct_types(lines.drop_last());
        if prev.contains(lines.last().resource_type) {
            prev
        } else {
            prev.push(lines.last().resource_type)
        }
    }
}

/// Every resource type that some recipe produces, once each.
pub open spec fn produced_types(rs: Seq<RecipeModel>) -> Seq<ResourceType> {
    distinct_types(result_lines(rs))
}

/// `bs` binds recipe `i` of `p` (with weight `i`) to variable `first + i`.
pub open spec fn binds_from(p: ProblemModel, bs: Seq<RecipeBinding>, first: int) -> bool {
    &&& bs.len() == p.recipes.len()
    &&& forall|i: int|
        0 <= i < bs.len() ==> (#[trigger] bs[i]).recipe@ == p.recipes[i] && bs[i].variable == first
            + i && bs[i].weight == p.weights[i]
}

/// `bs` binds recipe `i` of `p` to variable `i` with weight `i`.
pub open spec fn binds(p: ProblemModel, bs: Seq<RecipeBinding>) -> bool {
    binds_from(p, bs, 0)
}

/// `f` is the formulation of `p`: its bindings, one variable per recipe, the
/// weighted objective, a zero-demand balance for each produced type, then a
/// balance for each need.
pub open spec fn formulates(p: ProblemModel, f: Formulation) -> bool {
    let bs = f.bindings@;
    let prods = produced_types(p.recipes);
    &&& binds(p, bs)
    &&& f.program.variables == p.recipes.len()
    &&& f.program.objective@ == bs.map_values(|b: RecipeBinding| weight_term(b))
    &&& f.program.constraints@.len() == prods.len() + p.needs.len()
    &&& forall|k: int|
        0 <= k < prods.len() ==> is_balance(
            #[trigger] f.program.constraints@[k],
            bs,
            prods[k],
            0,
        )
    &&& forall|k: int|
        0 <= k < p.needs.len() ==> is_balance(
            #[trigger] f.program.constraints@[prods.len() + k],
            bs,
            p.needs[k].resource_type,
            p.needs[k].num,
        )
}

impl Problem {
    /// Builds the linear program of the problem: minimise the weighted sum of
    /// recipe usages subject to the balance of every produced resource type
    /// (net production at least zero) and of every need (net production at
    /// least its rate). Fails, before anything else, when the number of
    /// weights differs from the number of recipes. Every recipe must have a
    /// positive cycle time, so that every rate is defined.
    pub fn formulate(&self) -> (r: Result<Formulation, DspCalError>)
        requires
            forall|i: int| 0 <= i < self.recipes@.len() ==> (#[trigger] self.recipes@[i]).wf(),
        ensures
            r is Ok <==> self.recipes@.len() == self.weights@.len(),
            r matches Ok(f) ==> formulates(self@, f),
            r matches Err(e) ==> (e matches DspCalError::MismatchedRecipeWeights(a, b) && a
                == self.recipes@.len() && b == self.weights@.len()),
    {
        if self.recipes.len() != self.weights.len() {
            return Err(DspCalError::MismatchedRecipeWeights(self.recipes.len(), self.weights.len()));
        }
        let productions = Self::find_all_production(&self.recipes);
        let mut model = LinearProgram::new();
        let bindings = self.bind(&mut model);
        let objective = minimize_by_weight(&bindings);
        model.minimise(objective);
        let processed = ProcessedRecipes::new(&bindings);
        let ghost pre = model.constraints@.len();
        assert(pre == 0);
        let _recipe_refs = constraint_recipes(&bindings, &processed, &mut model, &productions);
        let ghost mid = model.constraints@;
        let _need_refs = constraint_needs(&bindings, &processed, &mut model, &self.needs);
        let f = Formulation { bindings, program: model };
        assert forall|k: int| 0 <= k < productions@.len() implies is_balance(
            #[trigger] f.program.constraints@[k],
            f.bindings@,
            produced_types(self@.recipes)[k],
            0,
        ) by {
            assert(f.program.constraints@[k] == f.program.constraints@.take(
                productions@.len() as int,
            )[k]);
            assert(f.program.constraints@.take(productions@.len() as int)[k] == mid[k]);
            assert(mid[pre + k] == mid[k]);
        }
        Ok(f)
    }

    /// Binds each recipe, in order, to a new variable of `model` and to its
    /// weight; the variables already in `model` stay as they are.
    fn bind(&self, model: &mut LinearProgram) -> (r: Vec<RecipeBinding>)
        requires
            old(model).variables + self.recipes@.len() <= usize::MAX,
            self.recipes@.len() == self.weights@.len(),
        ensures
            binds_from(self@, r@, old(model).variables as int),
            final(model).variables == old(model).variables + self.recipes@.len(),
            final(model).objective@ == old(model).objective@,
            final(model).constraints@ == old(model).constraints@,
    {
        let mut r: Vec<RecipeBinding> = Vec::with_capacity(self.recipes.len());
        let mut i: usize = 0;
        while i < self.recipes.len()
            invariant
                i <= self.recipes@.len(),
                self.recipes@.len() == self.weights@.len(),
                old(model).variables + self.recipes@.len() <= usize::MAX,
                model.variables == old(model).variables + i,
                model.objective@ == old(model).objective@,
                model.constraints@ == old(model).constraints@,
                r@.len() == i,
                forall|q: int|
                    0 <= q < i ==> (#[trigger] r@[q]).recipe@ == self@.recipes[q] && r@[q].variable
                        == old(model).variables + q && r@[q].weight == self@.weights[q],
            decreases self.recipes.len() - i,
        {
            let variable = model.add_variable();
            r.push(
                RecipeBinding {
                    recipe: self.recipes[i].duplicate(),
                    variable,
                    weight: self.weights[i],
                },
            );
            i = i + 1;
        }
        r
    }

    /// Every resource type that some recipe produces, once each, in order of
    /// first appearance.
    pub fn find_all_production(recipes: &Vec<Recipe>) -> (r: Vec<ResourceType>)
        ensures
            r@ == produced_types(recipe_models(recipes@)),
    {
        let ghost rs = recipe_models(recipes@);
        let mut seen: HashSet<u64> = HashSet::new();
        let mut r: Vec<ResourceType> = Vec::new();
        let mut i: usize = 0;
        while i < recipes.len()
            invariant
                i <= recipes.len(),
                rs == recipe_models(recipes@),
                r@ == distinct_types(result_lines(rs.take(i as int))),
                forall|t: ResourceType| #[trigger] seen@.contains(t.key_spec()) <==> r@.contains(t),
            decreases recipes.len() - i,
        {
            let results = &recipes[i].results;
            let ghost before = result_lines(rs.take(i as int));
            assert(rs.take(i + 1).drop_last() =~= rs.take(i as int));
            let mut j: usize = 0;
            while j < results.len()
                invariant
                    i < recipes.len(),
                    *results == recipes@[i as int].results,
                    j <= results.len(),
                    before == result_lines(rs.take(i as int)),
                    r@ == distinct_types(before + results@.take(j as int)),
                    forall|t: ResourceType|
                        #[trigger] seen@.contains(t.key_spec()) <==> r@.contains(t),
                decreases results.len() - j,
            {
                let t = results[j].resource_type;
                let key = t.key();
                assert((before + results@.take(j + 1)).drop_last() =~= before + results@.take(
                    j as int,
                ));
                if !seen.contains(&key) {
                    let ghost old_seen = seen@;
                    let ghost old_r = r@;
                    seen.insert(key);
                    r.push(t);
                    assert forall|u: ResourceType| #[trigger]
                        seen@.contains(u.key_spec()) <==> r@.contains(u) by {
                        ResourceType::lemma_key_injective(u, t);
                        assert(old_seen.contains(u.key_spec()) <==> old_r.contains(u));
                        if r@.contains(u) && u != t {
                            let k = choose|k: int| 0 <= k < r@.len() && r@[k] == u;
                            assert(old_r[k] == u);
                        }
                        if old_r.contains(u) {
                            let k = choose|k: int| 0 <= k < old_r.len() && old_r[k] == u;
                            assert(r@[k] == u);
                        }
                        if u == t {
                            assert(r@[r@.len() - 1] == u);
                        }
                    }
                }
                j = j + 1;
            }
            assert(results@.take(results.len() as int) =~= results@);
            assert(rs.take(i + 1).last() == recipes@[i as int]@);
            i = i + 1;
        }
        assert(rs.take(recipes.len() as int) =~= rs);
        r
    }
}

/// The distinct types of `lines` are pairwise different and are exactly the
/// types of the lines.
pub proof fn lemma_distinct_types(lines: Seq<Resource>)
    ensures
        distinct_types(lines).no_duplicates(),
        forall|t: ResourceType|
            #[trigger] distinct_types(lines).contains(t) <==> exists|j: int|
                0 <= j < lines.len() && lines[j].resource_type == t,
    decreases lines.len(),
{
    if lines.len() > 0 {
        let prefix = lines.drop_last();
        lemma_distinct_types(prefix);
        let prev = distinct_types(prefix);
        let d = distinct_types(lines);
        let last = lines.last().resource_type;
        assert forall|t: ResourceType| #[trigger] d.contains(t) <==> exists|j: int|
            0 <= j < lines.len() && lines[j].resource_type == t by {
            if d.contains(t) {
                if prev.contains(t) {
                    let j = choose|j: int| 0 <= j < prefix.len() && prefix[j].resource_type == t;
                    assert(lines[j] == prefix[j]);
                } else {
                    assert(t == last);
                    assert(lines[lines.len() - 1].resource_type == t);
                }
            }
            if exists|j: int| 0 <= j < lines.len() && lines[j].resource_type == t {
                let j = choose|j: int| 0 <= j < lines.len() && lines[j].resource_type == t;
                if j < prefix.len() {
                    assert(prefix[j] == lines[j]);
                    assert(prev.contains(t));
                    if !prev.contains(last) {
                        assert(d[prev.index_of(t)] == t);
                    }
                } else if !prev.contains(last) {
                    assert(d[d.len() - 1] == t);
                }
            }
        }
    }
}

/// `c` balances type `t` over the recipes `rs` bound in `bs`: each recipe's
/// variable has coefficient (produced quantity of `t`) / time minus
/// (consumed quantity of `t`) / time, and the right-hand side is `demand`.
pub open spec fn balances(
    c: Constraint,
    bs: Seq<RecipeBinding>,
    rs: Seq<RecipeModel>,
    t: ResourceType,
    demand: i64,
) -> bool {
    &&& c.resource_type == t
    &&& c.demand == demand
    &&& terms_well_placed(c.produced@, bs)
    &&& terms_well_placed(c.consumed@, bs)
    &&& forall|v: int|
        0 <= v < rs.len() ==> #[trigger] coefficient(c.produced@, v) == amount_of(rs[v].results, t)
            && coefficient(c.consumed@, v) == amount_of(rs[v].items, t)
}

proof fn lemma_balance_of(p: ProblemModel, f: Formulation, c: Constraint, t: ResourceType, d: i64)
    requires
        binds(p, f.bindings@),
        is_balance(c, f.bindings@, t, d),
    ensures
        balances(c, f.bindings@, p.recipes, t, d),
{
    let bs = f.bindings@;
    lemma_balance_is_net_rate(bs, t, true);
    lemma_balance_is_net_rate(bs, t, false);
    assert forall|v: int| 0 <= v < p.recipes.len() implies #[trigger] coefficient(c.produced@, v)
        == amount_of(p.recipes[v].results, t) && coefficient(c.consumed@, v) == amount_of(
        p.recipes[v].items,
        t,
    ) by {
        assert(bs[v].recipe@ == p.recipes[v]);
        assert(side_lines(bs[v].recipe, true) == p.recipes[v].results);
        assert(side_lines(bs[v].recipe, false) == p.recipes[v].items);
    }
}

/// Every resource type that some recipe produces has a balance constraint
/// with zero demand: at the returned usages, its total production rate
/// minus its total consumption rate is at least zero.
pub proof fn lemma_produced_type_balanced(p: ProblemModel, f: Formulation, t: ResourceType)
    requires
        formulates(p, f),
        exists|j: int|
            0 <= j < result_lines(p.recipes).len() && result_lines(p.recipes)[j].resource_type
                == t,
    ensures
        exists|k: int|
            0 <= k < f.program.constraints@.len() && balances(
                #[trigger] f.program.constraints@[k],
                f.bindings@,
                p.recipes,
                t,
                0,
            ),
{
    let prods = produced_types(p.recipes);
    lemma_distinct_types(result_lines(p.recipes));
    assert(prods.contains(t));
    let k = prods.index_of(t);
    lemma_balance_of(p, f, f.program.constraints@[k], t, 0);
}

/// Every need has a balance constraint with its rate as demand: at the
/// returned usages, the net production rate of its type covers the rate.
pub proof fn lemma_need_balanced(p: ProblemModel, f: Formulation, k: int)
    requires
        formulates(p, f),
        0 <= k < p.needs.len(),
    ensures
        balances(
            f.program.constraints@[produced_types(p.recipes).len() + k],
            f.bindings@,
            p.recipes,
            p.needs[k].resource_type,
            p.needs[k].num,
        ),
{
    let c = f.program.constraints@[produced_types(p.recipes).len() + k];
    lemma_balance_of(p, f, c, p.needs[k].resource_type, p.needs[k].num);
}

/// What a constraint states, as a value.
pub open spec fn constraint_view(c: Constraint) -> (ResourceType, Seq<Term>, Seq<Term>, i64) {
    (c.resource_type, c.produced@, c.consumed@, c.demand)
}

/// Bindings of the same recipes to the same variables index alike.
proof fn lemma_index_same(bs1: Seq<RecipeBinding>, bs2: Seq<RecipeBinding>, t: ResourceType, produced: bool)
    requires
        bs1.len() == bs2.len(),
        forall|i: int| 0 <= i < bs1.len() ==> (#[trigger] bs1[i]).recipe@ == bs2[i].recipe@,
    ensures
        index_entries(bs1, t, produced) == index_entries(bs2, t, produced),
    decreases bs1.len(),
{
    if bs1.len() > 0 {
        lemma_index_same(bs1.drop_last(), bs2.drop_last(), t, produced);
        assert(bs1.last().recipe@ == bs2.last().recipe@);
        assert(side_lines(bs1.last().recipe, produced) == side_lines(bs2.last().recipe, produced));
    }
}

/// Formulating equal problems gives equal programs: the same variables, the
/// same objective and the same constraints in the same order, so a solver
/// reaches the same optimal cost on both.
pub proof fn lemma_formulation_deterministic(
    p1: ProblemModel,
    p2: ProblemModel,
    f1: Formulation,
    f2: Formulation,
)
    requires
        p1 == p2,
        formulates(p1, f1),
        formulates(p2, f2),
    ensures
        f1.program.variables == f2.program.variables,
        f1.program.objective@ == f2.program.objective@,
        f1.program.constraints@.map_values(|c: Constraint| constraint_view(c))
            == f2.program.constraints@.map_values(|c: Constraint| constraint_view(c)),
{
    let bs1 = f1.bindings@;
    let bs2 = f2.bindings@;
    assert(f1.program.objective@ =~= f2.program.objective@);
    assert forall|t: ResourceType, produced: bool| #[trigger] terms_of(bs1, index_entries(bs1, t, produced))
        == terms_of(bs2, index_entries(bs2, t, produced)) by {
        lemma_index_same(bs1, bs2, t, produced);
        lemma_entries_bindings(bs1, t, produced);
        assert(terms_of(bs1, index_entries(bs1, t, produced)) =~= terms_of(
            bs2,
            index_entries(bs2, t, produced),
        ));
    }
    let prods = produced_types(p1.recipes);
    assert forall|k: int| 0 <= k < f1.program.constraints@.len() implies constraint_view(
        #[trigger] f1.program.constraints@[k],
    ) == constraint_view(f2.program.constraints@[k]) by {
        if k < prods.len() {
            assert(is_balance(f1.program.constraints@[k], bs1, prods[k], 0));
            assert(is_balance(f2.program.constraints@[k], bs2, prods[k], 0));
        } else {
            let q = k - prods.len();
            assert(f1.program.constraints@[prods.len() + q] == f1.program.constraints@[k]);
            assert(f2.program.constraints@[prods.len() + q] == f2.program.constraints@[k]);
        }
    }
    assert(f1.program.constraints@.map_values(|c: Constraint| constraint_view(c))
        =~= f2.program.constraints@.map_values(|c: Constraint| constraint_view(c)));
}

/// Once a problem is formulated, an assignment with one value per variable
/// always translates: `from_clarabel_solution` then returns `Ok`, so the only
/// failure left to a caller is the solver's own.
pub proof fn lemma_assignment_translates(p: ProblemModel, f: Formulation, n: int)
    requires
        formulates(p, f),
        n == f.program.variables,
    ensures
        all_known(f.bindings@, n),
{
    assert forall|i: int| 0 <= i < f.bindings@.len() implies (#[trigger] f.bindings@[i]).variable < n by {
        assert(f.bindings@[i].variable == i);
    }
}

} // verus!
