use vstd::prelude::*;
use std::collections::HashMap;

use crate::calc::RecipeBinding;
use crate::item::{Resource, ResourceType};
use crate::recipe::Recipe;

verus! {

broadcast use vstd::std_specs::hash::group_hash_axioms;

/// Total quantity of the lines of type `t`.
pub open spec fn amount_of(lines: Seq<Resource>, t: ResourceType) -> int
    decreases lines.len(),
{
    if lines.len() == 0 {
        0
    } else {
        amount_of(lines.drop_last(), t) + if lines.last().resource_type == t {
            lines.last().num as int
        } else {
            0
        }
    }
}

/// Whether some line has type `t`.
pub open spec fn occurs(lines: Seq<Resource>, t: ResourceType) -> bool
    decreases lines.len(),
{
    if lines.len() == 0 {
        false
    } else {
        occurs(lines.drop_last(), t) || lines.last().resource_type == t
    }
}

/// The outputs of a recipe when `produced`, else its inputs.
pub open spec fn side_lines(r: Recipe, produced: bool) -> Seq<Resource> {
    if produced {
        r.results@
    } else {
        r.items@
    }
}

/// One recipe's total quantity of one resource type on one side.
#[derive(Clone, Copy, Debug, PartialEq, Eq, Structural)]
pub struct IndexEntry {
    /// Position of the recipe's binding.
    pub binding: usize,
    /// Summed per-cycle quantity (fixed point).
    pub amount: i128,
}

/// The entries for type `t` on one side: one per binding whose lines hold
/// `t`, in binding order, with the quantities of `t` summed.
pub open spec fn index_entries(bs: Seq<RecipeBinding>, t: ResourceType, produced: bool) -> Seq<
    IndexEntry,
>
    decreases bs.len(),
{
    if bs.len() == 0 {
        seq![]
    } else {
        let lines = side_lines(bs.last().recipe, produced);
        let prev = index_entries(bs.drop_last(), t, produced);
        if occurs(lines, t) {
            prev.push(IndexEntry { binding: (bs.len() - 1) as usize, amount: amount_of(lines, t) as i128 })
        } else {
            prev
        }
    }
}

/// What a map of the index holds for type `t` (nothing if the key is absent).
pub open spec fn entries_in(m: Map<u64, Vec<IndexEntry>>, t: ResourceType) -> Seq<IndexEntry> {
    if m.contains_key(t.key_spec()) {
        m[t.key_spec()]@
    } else {
        seq![]
    }
}

/// The bound on a sum of `n` quantities that each fit in `i64`.
pub open spec fn sum_bound_ok(a: int, n: int) -> bool {
    -n * 0x8000_0000_0000_0000 <= a <= n * 0x7fff_ffff_ffff_ffff
}

pub proof fn lemma_amount_bound(lines: Seq<Resource>, t: ResourceType)
    ensures
        sum_bound_ok(amount_of(lines, t), lines.len() as int),
        !occurs(lines, t) ==> amount_of(lines, t) == 0,
    decreases lines.len(),
{
    if lines.len() > 0 {
        lemma_amount_bound(lines.drop_last(), t);
    }
}

/// Every entry names a binding below `bs.len()`.
pub proof fn lemma_entries_bindings(bs: Seq<RecipeBinding>, t: ResourceType, produced: bool)
    ensures
        forall|k: int|
            0 <= k < index_entries(bs, t, produced).len() ==> (#[trigger] index_entries(
                bs,
                t,
                produced,
            )[k]).binding < bs.len(),
    decreases bs.len(),
{
    if bs.len() > 0 {
        lemma_entries_bindings(bs.drop_last(), t, produced);
        let prev = index_entries(bs.drop_last(), t, produced);
        assert forall|k: int| 0 <= k < index_entries(bs, t, produced).len() implies (
        #[trigger] index_entries(bs, t, produced)[k]).binding < bs.len() by {
            if k < prev.len() {
                assert(index_entries(bs, t, produced)[k] == prev[k]);
            }
        }
    }
}

/// The entries after one more line of binding `b`: its quantity joins the
/// last entry when that entry is `b`'s, else it starts a new one.
pub open spec fn after_line(s: Seq<IndexEntry>, b: usize, q: int) -> Seq<IndexEntry> {
    if s.len() > 0 && s.last().binding == b {
        s.drop_last().push(IndexEntry { binding: b, amount: (s.last().amount + q) as i128 })
    } else {
        s.push(IndexEntry { binding: b, amount: q as i128 })
    }
}

/// Records one line of binding `b` in one map of the index.
fn add_line(m: &mut HashMap<u64, Vec<IndexEntry>>, b: usize, line: Resource)
    requires
        ({
            let s = entries_in(old(m)@, line.resource_type);
            s.len() > 0 && s.last().binding == b ==> i128::MIN <= s.last().amount + line.num
                <= i128::MAX
        }),
    ensures
        final(m)@.dom() == old(m)@.dom().insert(line.resource_type.key_spec()),
        final(m)@[line.resource_type.key_spec()]@.len() > 0,
        forall|k: u64| k != line.resource_type.key_spec() ==> #[trigger] final(m)@[k] == old(m)@[k],
        forall|t: ResourceType|
            #![trigger entries_in(final(m)@, t)]
            entries_in(final(m)@, t) == if t == line.resource_type {
                after_line(entries_in(old(m)@, t), b, line.num as int)
            } else {
                entries_in(old(m)@, t)
            },
{
    let key = line.resource_type.key();
    let mut list = match m.remove(&key) {
        Some(v) => v,
        None => Vec::new(),
    };
    assert(list@ == entries_in(old(m)@, line.resource_type));
    let n = list.len();
    if n > 0 && list[n - 1].binding == b {
        let last = list[n - 1];
        list.set(n - 1, IndexEntry { binding: b, amount: last.amount + line.num as i128 });
        assert(list@ =~= after_line(entries_in(old(m)@, line.resource_type), b, line.num as int));
    } else {
        list.push(IndexEntry { binding: b, amount: line.num as i128 });
    }
    m.insert(key, list);
    assert(m@.dom() =~= old(m)@.dom().insert(key));
    assert forall|t: ResourceType| #![trigger entries_in(m@, t)]
        entries_in(m@, t) == if t == line.resource_type {
            after_line(entries_in(old(m)@, t), b, line.num as int)
        } else {
            entries_in(old(m)@, t)
        } by {
        ResourceType::lemma_key_injective(t, line.resource_type);
    }
}

/// The entries for `t` once bindings below `i` and the first `j` lines of
/// binding `i` on one side have been recorded.
pub open spec fn pending(bs: Seq<RecipeBinding>, i: int, j: int, t: ResourceType, produced: bool) -> Seq<
    IndexEntry,
> {
    let lines = side_lines(bs[i].recipe, produced).take(j);
    let base = index_entries(bs.take(i), t, produced);
    if occurs(lines, t) {
        base.push(IndexEntry { binding: i as usize, amount: amount_of(lines, t) as i128 })
    } else {
        base
    }
}

proof fn lemma_pending_start(bs: Seq<RecipeBinding>, i: int, t: ResourceType, produced: bool)
    requires
        0 <= i < bs.len(),
    ensures
        pending(bs, i, 0, t, produced) == index_entries(bs.take(i), t, produced),
{
    assert(side_lines(bs[i].recipe, produced).take(0).len() == 0);
}

proof fn lemma_pending_end(bs: Seq<RecipeBinding>, i: int, t: ResourceType, produced: bool)
    requires
        0 <= i < bs.len(),
    ensures
        pending(bs, i, side_lines(bs[i].recipe, produced).len() as int, t, produced)
            == index_entries(bs.take(i + 1), t, produced),
{
    let lines = side_lines(bs[i].recipe, produced);
    assert(lines.take(lines.len() as int) =~= lines);
    assert(bs.take(i + 1).drop_last() =~= bs.take(i));
    assert(bs.take(i + 1).last() == bs[i]);
}

proof fn lemma_pending_step(bs: Seq<RecipeBinding>, i: int, j: int, produced: bool)
    requires
        0 <= i < bs.len(),
        i <= usize::MAX,
        0 <= j < side_lines(bs[i].recipe, produced).len(),
        side_lines(bs[i].recipe, produced).len() <= usize::MAX,
    ensures
        ({
            let line = side_lines(bs[i].recipe, produced)[j];
            let s = pending(bs, i, j, line.resource_type, produced);
            s.len() > 0 && s.last().binding == i ==> i128::MIN <= s.last().amount + line.num
                <= i128::MAX
        }),
        forall|t: ResourceType|
            #![trigger pending(bs, i, j + 1, t, produced)]
            pending(bs, i, j + 1, t, produced) == if t == side_lines(
                bs[i].recipe,
                produced,
            )[j].resource_type {
                after_line(
                    pending(bs, i, j, t, produced),
                    i as usize,
                    side_lines(bs[i].recipe, produced)[j].num as int,
                )
            } else {
                pending(bs, i, j, t, produced)
            },
{
    let lines = side_lines(bs[i].recipe, produced);
    assert(lines.take(j + 1).drop_last() =~= lines.take(j));
    assert(lines.take(j + 1).last() == lines[j]);
    lemma_entries_bindings(bs.take(i), lines[j].resource_type, produced);
    lemma_amount_bound(lines.take(j), lines[j].resource_type);
    lemma_amount_bound(lines.take(j + 1), lines[j].resource_type);
    assert forall|t: ResourceType|
        #![trigger pending(bs, i, j + 1, t, produced)]
        pending(bs, i, j + 1, t, produced) == if t == lines[j].resource_type {
            after_line(pending(bs, i, j, t, produced), i as usize, lines[j].num as int)
        } else {
            pending(bs, i, j, t, produced)
        } by {
        lemma_entries_bindings(bs.take(i), t, produced);
        lemma_amount_bound(lines.take(j), t);
        lemma_amount_bound(lines.take(j + 1), t);
        let base = index_entries(bs.take(i), t, produced);
        if t == lines[j].resource_type && !occurs(lines.take(j), t) && base.len() > 0 {
            assert(base[base.len() - 1].binding < i);
        }
        if t == lines[j].resource_type {
            assert(pending(bs, i, j + 1, t, produced) =~= after_line(
                pending(bs, i, j, t, produced),
                i as usize,
                lines[j].num as int,
            ));
        }
    }
    let base = index_entries(bs.take(i), lines[j].resource_type, produced);
    if !occurs(lines.take(j), lines[j].resource_type) && base.len() > 0 {
        assert(base[base.len() - 1].binding < i);
    }
}

/// The resource index: for each resource type, the bindings that consume it
/// and those that produce it, with summed per-cycle quantities.
pub struct ProcessedRecipes {
    pub consumes: HashMap<u64, Vec<IndexEntry>>,
    pub produces: HashMap<u64, Vec<IndexEntry>>,
}

/// Every key of `m` is the key of some resource type, with a non-empty list.
pub open spec fn keys_occupied(m: Map<u64, Vec<IndexEntry>>) -> bool {
    forall|k: u64|
        #[trigger] m.contains_key(k) ==> m[k]@.len() > 0 && exists|t: ResourceType|
            t.key_spec() == k
}

proof fn lemma_keys_after_line(old_m: Map<u64, Vec<IndexEntry>>, m: Map<u64, Vec<IndexEntry>>, t: ResourceType)
    requires
        keys_occupied(old_m),
        m.dom() == old_m.dom().insert(t.key_spec()),
        m[t.key_spec()]@.len() > 0,
        forall|k: u64| k != t.key_spec() ==> #[trigger] m[k] == old_m[k],
    ensures
        keys_occupied(m),
{
    assert forall|k: u64| #[trigger] m.contains_key(k) implies m[k]@.len() > 0 && exists|u: ResourceType|
        u.key_spec() == k by {
        if k != t.key_spec() {
            assert(old_m.contains_key(k));
            assert(m[k] == old_m[k]);
        }
    }
}

impl ProcessedRecipes {
    /// The index holds exactly `index_entries` of `bs` for every type, and
    /// nothing else: each key is a type's key with a non-empty list.
    pub open spec fn indexes(&self, bs: Seq<RecipeBinding>) -> bool {
        &&& forall|t: ResourceType|
            #[trigger] entries_in(self.produces@, t) == index_entries(bs, t, true)
        &&& forall|t: ResourceType|
            #[trigger] entries_in(self.consumes@, t) == index_entries(bs, t, false)
        &&& keys_occupied(self.produces@)
        &&& keys_occupied(self.consumes@)
    }

    /// Builds the index of `recipes` in one pass over their lines.
    pub fn new(recipes: &Vec<RecipeBinding>) -> (r: Self)
        ensures
            r.indexes(recipes@),
    {
        let ghost bs = recipes@;
        let mut consumes: HashMap<u64, Vec<IndexEntry>> = HashMap::new();
        let mut produces: HashMap<u64, Vec<IndexEntry>> = HashMap::new();
        assert(keys_occupied(consumes@) && keys_occupied(produces@));
        let mut i: usize = 0;
        while i < recipes.len()
            invariant
                keys_occupied(produces@),
                keys_occupied(consumes@),
                i <= recipes.len(),
                bs == recipes@,
                forall|t: ResourceType|
                    #[trigger] entries_in(produces@, t) == index_entries(bs.take(i as int), t, true),
                forall|t: ResourceType|
                    #[trigger] entries_in(consumes@, t) == index_entries(bs.take(i as int), t, false),
            decreases recipes.len() - i,
        {
            let recipe = &recipes[i].recipe;
            assert forall|t: ResourceType| #[trigger]
                entries_in(consumes@, t) == pending(bs, i as int, 0, t, false) by {
                lemma_pending_start(bs, i as int, t, false);
            }
            let mut j: usize = 0;
            while j < recipe.items.len()
                invariant
                    keys_occupied(produces@),
                    keys_occupied(consumes@),
                    i < recipes.len(),
                    bs == recipes@,
                    *recipe == bs[i as int].recipe,
                    j <= recipe.items.len(),
                    forall|t: ResourceType|
                        #[trigger] entries_in(produces@, t) == index_entries(bs.take(i as int), t, true),
                    forall|t: ResourceType|
                        #[trigger] entries_in(consumes@, t) == pending(bs, i as int, j as int, t, false),
                decreases recipe.items.len() - j,
            {
                proof {
                    lemma_pending_step(bs, i as int, j as int, false);
                }
                let ghost before = consumes@;
                add_line(&mut consumes, i, recipe.items[j]);
                proof {
                    lemma_keys_after_line(before, consumes@, recipe.items[j as int].resource_type);
                }
                j = j + 1;
            }
            assert forall|t: ResourceType| #[trigger]
                entries_in(consumes@, t) == index_entries(bs.take(i + 1), t, false) by {
                lemma_pending_end(bs, i as int, t, false);
            }
            assert forall|t: ResourceType| #[trigger]
                entries_in(produces@, t) == pending(bs, i as int, 0, t, true) by {
                lemma_pending_start(bs, i as int, t, true);
            }
            let mut j: usize = 0;
            while j < recipe.results.len()
                invariant
                    keys_occupied(produces@),
                    keys_occupied(consumes@),
                    i < recipes.len(),
                    bs == recipes@,
                    *recipe == bs[i as int].recipe,
                    j <= recipe.results.len(),
                    forall|t: ResourceType|
                        #[trigger] entries_in(consumes@, t) == index_entries(bs.take(i + 1), t, false),
                    forall|t: ResourceType|
                        #[trigger] entries_in(produces@, t) == pending(bs, i as int, j as int, t, true),
                decreases recipe.results.len() - j,
            {
                proof {
                    lemma_pending_step(bs, i as int, j as int, true);
                }
                let ghost before = produces@;
                add_line(&mut produces, i, recipe.results[j]);
                proof {
                    lemma_keys_after_line(before, produces@, recipe.results[j as int].resource_type);
                }
                j = j + 1;
            }
            assert forall|t: ResourceType| #[trigger]
                entries_in(produces@, t) == index_entries(bs.take(i + 1), t, true) by {
                lemma_pending_end(bs, i as int, t, true);
            }
            i = i + 1;
        }
        assert(bs.take(recipes.len() as int) =~= bs);
        ProcessedRecipes { consumes, produces }
    }
}

} // verus!
