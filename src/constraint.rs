use vstd::prelude::*;

use crate::calc::RecipeBinding;
use crate::index::{
    amount_of, entries_in, index_entries, lemma_amount_bound, lemma_entries_bindings, side_lines,
    IndexEntry, ProcessedRecipes,
};
use crate::item::{Resource, ResourceType};
use crate::lp::{Constraint, LinearProgram, Term};

verus! {

broadcast use vstd::std_specs::hash::group_hash_axioms;

/// The term of one index entry: the entry's summed quantity over its
/// recipe's cycle time, on the recipe's variable.
pub open spec fn entry_term(bs: Seq<RecipeBinding>, e: IndexEntry) -> Term {
    Term {
        variable: bs[e.binding as int].variable,
        num: e.amount,
        den: bs[e.binding as int].recipe.time,
    }
}

pub open spec fn terms_of(bs: Seq<RecipeBinding>, es: Seq<IndexEntry>) -> Seq<Term> {
    es.map_values(|e: IndexEntry| entry_term(bs, e))
}

/// `c` is the balance constraint of type `t` with net demand `demand`:
/// production rates minus consumption rates, from the index, at least `demand`.
pub open spec fn is_balance(c: Constraint, bs: Seq<RecipeBinding>, t: ResourceType, demand: i64) -> bool {
    &&& c.resource_type == t
    &&& c.demand == demand
    &&& c.produced@ == terms_of(bs, index_entries(bs, t, true))
    &&& c.consumed@ == terms_of(bs, index_entries(bs, t, false))
}

/// The terms of a list of index entries.
fn terms_from(bindings: &Vec<RecipeBinding>, es: &Vec<IndexEntry>) -> (r: Vec<Term>)
    requires
        forall|k: int| 0 <= k < es@.len() ==> (#[trigger] es@[k]).binding < bindings@.len(),
    ensures
        r@ == terms_of(bindings@, es@),
{
    let mut r: Vec<Term> = Vec::with_capacity(es.len());
    let mut k: usize = 0;
    while k < es.len()
        invariant
            k <= es.len(),
            forall|k: int| 0 <= k < es@.len() ==> (#[trigger] es@[k]).binding < bindings@.len(),
            r@ == terms_of(bindings@, es@.take(k as int)),
        decreases es.len() - k,
    {
        let e = es[k];
        let b = &bindings[e.binding];
        r.push(Term { variable: b.variable, num: e.amount, den: b.recipe.time });
        assert(terms_of(bindings@, es@.take(k + 1)) =~= terms_of(bindings@, es@.take(k as int)).push(
            entry_term(bindings@, e),
        ));
        k = k + 1;
    }
    assert(es@.take(es.len() as int) =~= es@);
    r
}

/// The terms of the entries that a map of the index holds for `t`.
fn terms_for(
    bindings: &Vec<RecipeBinding>,
    m: &std::collections::HashMap<u64, Vec<IndexEntry>>,
    t: ResourceType,
    produced: bool,
) -> (r: Vec<Term>)
    requires
        entries_in(m@, t) == index_entries(bindings@, t, produced),
    ensures
        r@ == terms_of(bindings@, index_entries(bindings@, t, produced)),
{
    proof {
        lemma_entries_bindings(bindings@, t, produced);
    }
    let key = t.key();
    match m.get(&key) {
        Some(es) => terms_from(bindings, es),
        None => {
            assert(terms_of(bindings@, index_entries(bindings@, t, produced)) =~= seq![]);
            Vec::new()
        },
    }
}

/// Adds the balance constraint of `need`: net production of its type at
/// least its rate. Returns the constraint's position.
fn create_constraint(
    bindings: &Vec<RecipeBinding>,
    processed: &ProcessedRecipes,
    problem: &mut LinearProgram,
    need: Resource,
) -> (r: usize)
    requires
        processed.indexes(bindings@),
    ensures
        r == old(problem).constraints@.len(),
        final(problem).variables == old(problem).variables,
        final(problem).objective@ == old(problem).objective@,
        final(problem).constraints@.len() == old(problem).constraints@.len() + 1,
        final(problem).constraints@.take(r as int) == old(problem).constraints@,
        is_balance(final(problem).constraints@[r as int], bindings@, need.resource_type, need.num),
{
    let consumed = terms_for(bindings, &processed.consumes, need.resource_type, false);
    let produced = terms_for(bindings, &processed.produces, need.resource_type, true);
    let c = Constraint { resource_type: need.resource_type, produced, consumed, demand: need.num };
    let r = problem.add_constraint(c);
    assert(problem.constraints@.take(r as int) =~= old(problem).constraints@);
    r
}

/// Adds one balance constraint per need, in order, and returns their positions.
pub fn constraint_needs(
    bindings: &Vec<RecipeBinding>,
    processed: &ProcessedRecipes,
    problem: &mut LinearProgram,
    needs: &Vec<Resource>,
) -> (refs: Vec<usize>)
    requires
        processed.indexes(bindings@),
    ensures
        final(problem).variables == old(problem).variables,
        final(problem).objective@ == old(problem).objective@,
        final(problem).constraints@.len() == old(problem).constraints@.len() + needs@.len(),
        final(problem).constraints@.take(old(problem).constraints@.len() as int)
            == old(problem).constraints@,
        refs@.len() == needs@.len(),
        forall|k: int|
            0 <= k < needs@.len() ==> #[trigger] refs@[k] == old(problem).constraints@.len() + k,
        forall|k: int|
            0 <= k < needs@.len() ==> is_balance(
                #[trigger] final(problem).constraints@[old(problem).constraints@.len() + k],
                bindings@,
                needs@[k].resource_type,
                needs@[k].num,
            ),
{
    let ghost start = problem.constraints@.len();
    let mut refs: Vec<usize> = Vec::with_capacity(needs.len());
    let mut k: usize = 0;
    while k < needs.len()
        invariant
            k <= needs.len(),
            processed.indexes(bindings@),
            start == old(problem).constraints@.len(),
            problem.variables == old(problem).variables,
            problem.objective@ == old(problem).objective@,
            problem.constraints@.len() == start + k,
            problem.constraints@.take(start as int) == old(problem).constraints@,
            refs@.len() == k,
            forall|q: int| 0 <= q < k ==> #[trigger] refs@[q] == start + q,
            forall|q: int|
                0 <= q < k ==> is_balance(
                    #[trigger] problem.constraints@[start + q],
                    bindings@,
                    needs@[q].resource_type,
                    needs@[q].num,
                ),
        decreases needs.len() - k,
    {
        let ghost before = problem.constraints@;
        let r = create_constraint(bindings, processed, problem, needs[k]);
        assert(problem.constraints@.take(start as int) =~= before.take(start as int));
        assert forall|q: int| 0 <= q < k implies is_balance(
            #[trigger] problem.constraints@[start + q],
            bindings@,
            needs@[q].resource_type,
            needs@[q].num,
        ) by {
            assert(problem.constraints@[start + q] == problem.constraints@.take(r as int)[start + q]);
        }
        refs.push(r);
        k = k + 1;
    }
    refs
}

/// Adds a balance constraint with zero net demand for each given resource
/// type, in order, and returns their positions.
pub fn constraint_recipes(
    bindings: &Vec<RecipeBinding>,
    processed: &ProcessedRecipes,
    problem: &mut LinearProgram,
    production_types: &Vec<ResourceType>,
) -> (refs: Vec<usize>)
    requires
        processed.indexes(bindings@),
    ensures
        final(problem).variables == old(problem).variables,
        final(problem).objective@ == old(problem).objective@,
        final(problem).constraints@.len() == old(problem).constraints@.len()
            + production_types@.len(),
        final(problem).constraints@.take(old(problem).constraints@.len() as int)
            == old(problem).constraints@,
        refs@.len() == production_types@.len(),
        forall|k: int|
            0 <= k < production_types@.len() ==> #[trigger] refs@[k] == old(
                problem,
            ).constraints@.len() + k,
        forall|k: int|
            0 <= k < production_types@.len() ==> is_balance(
                #[trigger] final(problem).constraints@[old(problem).constraints@.len() + k],
                bindings@,
                production_types@[k],
                0,
            ),
{
    let mut needs: Vec<Resource> = Vec::with_capacity(production_types.len());
    let mut k: usize = 0;
    while k < production_types.len()
        invariant
            k <= production_types.len(),
            needs@.len() == k,
            forall|q: int|
                0 <= q < k ==> #[trigger] needs@[q] == (Resource {
                    resource_type: production_types@[q],
                    num: 0,
                }),
        decreases production_types.len() - k,
    {
        needs.push(Resource { resource_type: production_types[k], num: 0 });
        k = k + 1;
    }
    constraint_needs(bindings, processed, problem, &needs)
}

/// The total coefficient numerator that `terms` give variable `v`.
pub open spec fn coefficient(terms: Seq<Term>, v: int) -> int
    decreases terms.len(),
{
    if terms.len() == 0 {
        0
    } else {
        coefficient(terms.drop_last(), v) + if terms.last().variable == v {
            terms.last().num as int
        } else {
            0
        }
    }
}

/// Every term of `terms` names a variable below `n`, and the terms of
/// variable `v` share the denominator `den(v)`.
pub open spec fn terms_well_placed(terms: Seq<Term>, bs: Seq<RecipeBinding>) -> bool {
    forall|k: int|
        0 <= k < terms.len() ==> (#[trigger] terms[k]).variable < bs.len() && terms[k].den
            == bs[terms[k].variable as int].recipe.time
}

proof fn lemma_coefficient_absent(terms: Seq<Term>, v: int)
    requires
        forall|k: int| 0 <= k < terms.len() ==> (#[trigger] terms[k]).variable != v,
    ensures
        coefficient(terms, v) == 0,
    decreases terms.len(),
{
    if terms.len() > 0 {
        lemma_coefficient_absent(terms.drop_last(), v);
    }
}

/// The index terms of a prefix of the bindings read the same in the whole list.
proof fn lemma_terms_prefix(bs: Seq<RecipeBinding>, t: ResourceType, produced: bool)
    requires
        bs.len() > 0,
    ensures
        terms_of(bs, index_entries(bs.drop_last(), t, produced)) == terms_of(
            bs.drop_last(),
            index_entries(bs.drop_last(), t, produced),
        ),
{
    let es = index_entries(bs.drop_last(), t, produced);
    lemma_entries_bindings(bs.drop_last(), t, produced);
    assert(terms_of(bs, es) =~= terms_of(bs.drop_last(), es));
}

/// The balance terms of type `t` give each binding's variable exactly the
/// recipe's summed quantity of `t` on that side, over the recipe's cycle time:
/// a balance constraint states that the net rate of `t`, summed over all
/// recipes at their usages, covers the demand.
pub proof fn lemma_balance_is_net_rate(bs: Seq<RecipeBinding>, t: ResourceType, produced: bool)
    requires
        forall|i: int| 0 <= i < bs.len() ==> (#[trigger] bs[i]).variable == i,
    ensures
        terms_well_placed(terms_of(bs, index_entries(bs, t, produced)), bs),
        forall|v: int|
            0 <= v < bs.len() ==> #[trigger] coefficient(
                terms_of(bs, index_entries(bs, t, produced)),
                v,
            ) == amount_of(side_lines(bs[v].recipe, produced), t),
    decreases bs.len(),
{
    if bs.len() > 0 {
        let n = bs.len() - 1;
        let prefix = bs.drop_last();
        lemma_balance_is_net_rate(prefix, t, produced);
        lemma_terms_prefix(bs, t, produced);
        let prev = terms_of(bs, index_entries(prefix, t, produced));
        let all = terms_of(bs, index_entries(bs, t, produced));
        let lines = side_lines(bs[n].recipe, produced);
        assert(bs[n].recipe.results.len() <= usize::MAX);
        assert(bs[n].recipe.items.len() <= usize::MAX);
        lemma_amount_bound(lines, t);
        assert forall|k: int| 0 <= k < prev.len() implies (#[trigger] prev[k]).variable < n by {
            assert(prev[k] == terms_of(prefix, index_entries(prefix, t, produced))[k]);
        }
        if crate::index::occurs(lines, t) {
            assert(all =~= prev.push(Term { variable: n as usize, num: amount_of(lines, t) as i128, den: bs[n].recipe.time }));
        } else {
            assert(all =~= prev);
        }
        assert(terms_well_placed(all, bs)) by {
            assert forall|k: int| 0 <= k < all.len() implies (#[trigger] all[k]).variable < bs.len()
                && all[k].den == bs[all[k].variable as int].recipe.time by {
                if k < prev.len() {
                    assert(all[k] == prev[k]);
                    assert(prev[k] == terms_of(prefix, index_entries(prefix, t, produced))[k]);
                    assert(prefix[prev[k].variable as int] == bs[prev[k].variable as int]);
                }
            }
        }
        assert forall|v: int| 0 <= v < bs.len() implies #[trigger] coefficient(all, v) == amount_of(
            side_lines(bs[v].recipe, produced),
            t,
        ) by {
            if v < n {
                assert(prefix[v] == bs[v]);
                assert(coefficient(prev, v) == amount_of(side_lines(prefix[v].recipe, produced), t));
                if crate::index::occurs(lines, t) {
                    assert(all.drop_last() =~= prev);
                }
            } else {
                lemma_coefficient_absent(prev, v);
                if crate::index::occurs(lines, t) {
                    assert(all.drop_last() =~= prev);
                }
            }
        }
    }
}

} // verus!
