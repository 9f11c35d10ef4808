use vstd::prelude::*;
use std::collections::HashMap;

use crate::building::BuildingType;
use crate::error::DspCalError;
use crate::item::{Cargo, IndirectResource, Resource, ResourceType, UNIT};
use crate::proliferator::{inc_permille, power_tenths, table_index, Proliferator};
use crate::unit_convert::{tick_from_min, tick_from_sec};
use crate::calc::recipe_models;
use crate::recipe::{ProliferatorType, Recipe, RecipeFmtInfo, RecipeModel};

verus! {

broadcast use vstd::std_specs::hash::group_hash_axioms;

/// Largest count or base time that a catalogue entry may hold: the largest
/// count whose output, scaled by up to two (fixed point), still fits in `i64`
/// (`i64::MAX / (2 * UNIT)`, rounded down).
pub const MAX_COUNT: i64 = 4_611_686_018;

/// A base recipe of the game catalogue.
#[derive(Clone, Debug)]
pub struct RecipeItem {
    pub name: String,
    /// The building code.
    pub type_: i64,
    pub items: Vec<i16>,
    pub item_counts: Vec<i64>,
    pub results: Vec<i16>,
    pub result_counts: Vec<i64>,
    /// Base cycle time in ticks.
    pub time_spend: i64,
    pub non_productive: bool,
}

/// An item of the game catalogue.
#[derive(Clone, Debug)]
pub struct ItemData {
    pub id: i16,
    pub productive: bool,
    /// Where the item can be mined; empty when it cannot.
    pub mining_from: String,
}

impl RecipeItem {
    /// Counts lie in `0..=MAX_COUNT` and the base time in `1..=MAX_COUNT`.
    pub open spec fn bounded(&self) -> bool {
        &&& 1 <= self.time_spend <= MAX_COUNT
        &&& forall|k: int|
            0 <= k < self.item_counts@.len() ==> 0 <= #[trigger] self.item_counts@[k] <= MAX_COUNT
        &&& forall|k: int|
            0 <= k < self.result_counts@.len() ==> 0 <= #[trigger] self.result_counts@[k]
                <= MAX_COUNT
    }
}

pub open spec fn min_len(a: int, b: int) -> int {
    if a < b {
        a
    } else {
        b
    }
}

/// The inputs of a catalogue recipe, paired with their counts, at `level`.
pub open spec fn input_lines(ri: RecipeItem, level: u8) -> Seq<Resource> {
    Seq::new(
        min_len(ri.items@.len() as int, ri.item_counts@.len() as int) as nat,
        |k: int|
            Resource {
                resource_type: ResourceType::Direct(Cargo { item_id: ri.items@[k], level }),
                num: (ri.item_counts@[k] * UNIT) as i64,
            },
    )
}

/// The outputs of a catalogue recipe, paired with their counts scaled by
/// `scale` (fixed point), at level zero.
pub open spec fn output_lines(ri: RecipeItem, scale: i64) -> Seq<Resource> {
    Seq::new(
        min_len(ri.results@.len() as int, ri.result_counts@.len() as int) as nat,
        |k: int|
            Resource {
                resource_type: ResourceType::Direct(Cargo { item_id: ri.results@[k], level: 0 }),
                num: (ri.result_counts@[k] * scale) as i64,
            },
    )
}

/// The recipe made from a catalogue entry: inputs at `items_level` plus the
/// building's power scaled by `power_scale`, outputs scaled by
/// `result_scale`, and the base time over the building speed and over
/// `time_divisor` (both scales fixed point; the time rounds down).
pub open spec fn created(
    ri: RecipeItem,
    building: BuildingType,
    items_level: u8,
    result_scale: i64,
    time_divisor: i64,
    power_scale: i64,
    info: (Seq<char>, Option<ProliferatorType>),
) -> RecipeModel {
    RecipeModel {
        items: input_lines(ri, items_level).push(
            Resource {
                resource_type: ResourceType::Indirect(IndirectResource::Power),
                num: (building.power_units() * power_scale) as i64,
            },
        ),
        results: output_lines(ri, result_scale),
        time: ri.time_spend * UNIT * UNIT / (building.speed_spec() * time_divisor),
        name: info.0,
        proliferator_type: info.1,
        building_type: building,
    }
}

fn get_building_type(recipe_item: &RecipeItem) -> (r: Result<BuildingType, DspCalError>)
    ensures
        match BuildingType::from_code_spec(recipe_item.type_) {
            Some(b) => r matches Ok(x) && x == b,
            None => r matches Err(DspCalError::UnknownBuildingType(c)) && c == recipe_item.type_,
        },
{
    match BuildingType::from_recipe_item(recipe_item.type_) {
        Some(b) => Ok(b),
        None => Err(DspCalError::UnknownBuildingType(recipe_item.type_)),
    }
}

impl Recipe {
    fn create_recipe(
        recipe_item: &RecipeItem,
        items_level: u8,
        result_scale: i64,
        time_divisor: i64,
        power_scale: i64,
        info_name: String,
        info_type: Option<ProliferatorType>,
    ) -> (r: Result<Self, DspCalError>)
        requires
            recipe_item.bounded(),
            0 <= result_scale <= 2 * UNIT,
            UNIT <= time_divisor <= 4 * UNIT,
            0 <= power_scale <= 5 * UNIT,
        ensures
            match BuildingType::from_code_spec(recipe_item.type_) {
                Some(b) => r matches Ok(rec) && rec@ == created(
                    *recipe_item,
                    b,
                    items_level,
                    result_scale,
                    time_divisor,
                    power_scale,
                    (info_name@, info_type),
                ),
                None => r matches Err(DspCalError::UnknownBuildingType(c)) && c
                    == recipe_item.type_,
            },
            r matches Ok(rec) ==> rec.wf(),
    {
        let building = get_building_type(recipe_item)?;
        let full = building.power();
        let watts = full / UNIT;
        assert(watts == building.power_units()) by (nonlinear_arith)
            requires
                full == building.power_units() * UNIT,
                watts == full / UNIT,
        ;
        assert(0 <= watts * power_scale <= 288000 * (5 * UNIT)) by (nonlinear_arith)
            requires
                0 <= watts <= 288000,
                0 <= power_scale <= 5 * UNIT,
        ;
        let power = Resource::power(watts * power_scale);
        let n = if recipe_item.items.len() < recipe_item.item_counts.len() {
            recipe_item.items.len()
        } else {
            recipe_item.item_counts.len()
        };
        let mut items: Vec<Resource> = Vec::new();
        let mut k: usize = 0;
        while k < n
            invariant
                n == min_len(recipe_item.items@.len() as int, recipe_item.item_counts@.len() as int),
                k <= n,
                recipe_item.bounded(),
                items@ == input_lines(*recipe_item, items_level).take(k as int),
            decreases n - k,
        {
            let count = recipe_item.item_counts[k];
            items.push(Resource::from_item_level(recipe_item.items[k], items_level, count * UNIT));
            assert(items@ =~= input_lines(*recipe_item, items_level).take(k + 1));
            k = k + 1;
        }
        assert(items@ =~= input_lines(*recipe_item, items_level));
        items.push(power);
        let m = if recipe_item.results.len() < recipe_item.result_counts.len() {
            recipe_item.results.len()
        } else {
            recipe_item.result_counts.len()
        };
        let mut results: Vec<Resource> = Vec::with_capacity(m);
        let mut k: usize = 0;
        while k < m
            invariant
                m == min_len(recipe_item.results@.len() as int, recipe_item.result_counts@.len() as int),
                k <= m,
                recipe_item.bounded(),
                0 <= result_scale <= 2 * UNIT,
                results@ == output_lines(*recipe_item, result_scale).take(k as int),
            decreases m - k,
        {
            let count = recipe_item.result_counts[k];
            assert(0 <= count <= MAX_COUNT);
            assert(count * result_scale <= MAX_COUNT * (2 * UNIT)) by (nonlinear_arith)
                requires
                    0 <= count <= MAX_COUNT,
                    0 <= result_scale <= 2 * UNIT,
            ;
            results.push(Resource::from_item_level(recipe_item.results[k], 0, count * result_scale));
            assert(results@ =~= output_lines(*recipe_item, result_scale).take(k + 1));
            k = k + 1;
        }
        assert(results@ =~= output_lines(*recipe_item, result_scale));
        let (_one, speed) = building.time_scale();
        let num: i128 = recipe_item.time_spend as i128 * UNIT as i128 * UNIT as i128;
        assert(UNIT <= speed * time_divisor <= 3 * (4 * UNIT)) by (nonlinear_arith)
            requires
                1 <= speed <= 3,
                UNIT <= time_divisor <= 4 * UNIT,
        ;
        let den: i128 = speed as i128 * time_divisor as i128;
        assert(num <= MAX_COUNT * UNIT * UNIT) by (nonlinear_arith)
            requires
                num == recipe_item.time_spend * UNIT * UNIT,
                1 <= recipe_item.time_spend <= MAX_COUNT,
        ;
        assert(num >= UNIT * UNIT) by (nonlinear_arith)
            requires
                num == recipe_item.time_spend * UNIT * UNIT,
                1 <= recipe_item.time_spend,
        ;
        assert((num as int) / (den as int) <= (num as int) / (UNIT as int)) by (nonlinear_arith)
            requires
                den >= UNIT,
                num >= 0,
        ;
        assert((num as int) / (UNIT as int) <= MAX_COUNT * UNIT) by (nonlinear_arith)
            requires
                0 <= num <= MAX_COUNT * UNIT * UNIT,
        ;
        assert((num as int) / (den as int) >= 1) by (nonlinear_arith)
            requires
                num >= UNIT * UNIT,
                UNIT <= den <= 12 * UNIT,
        ;
        let time = (num / den) as i64;
        Ok(
            Recipe {
                items,
                results,
                time,
                info: RecipeFmtInfo {
                    name: info_name,
                    proliferator_type: info_type,
                    building_type: building,
                },
            },
        )
    }
}

/// The plain recipe of a catalogue entry.
pub open spec fn vanilla(ri: RecipeItem, b: BuildingType) -> RecipeModel {
    created(ri, b, 0, UNIT, UNIT, UNIT, (ri.name@, Some(ProliferatorType { level: 0, is_speed_up: false })))
}

/// The power factor of enhancement `level`, in fixed point.
pub open spec fn power_scale(level: u8) -> i64 {
    (power_tenths(table_index(level as int)) * (UNIT / 10)) as i64
}

/// The catalogue entry run faster, its inputs at `level`.
pub open spec fn accelerated(ri: RecipeItem, b: BuildingType, level: u8) -> RecipeModel {
    created(
        ri,
        b,
        level,
        UNIT,
        ((4 + table_index(level as int)) * (UNIT / 4)) as i64,
        power_scale(level),
        (ri.name@, Some(ProliferatorType { level, is_speed_up: true })),
    )
}

/// The catalogue entry with extra output, its inputs at `level`.
pub open spec fn productive(ri: RecipeItem, b: BuildingType, level: u8) -> RecipeModel {
    created(
        ri,
        b,
        level,
        ((1000 + inc_permille(table_index(level as int))) * (UNIT / 1000)) as i64,
        UNIT,
        power_scale(level),
        (ri.name@, Some(ProliferatorType { level, is_speed_up: false })),
    )
}

pub open spec fn boosted(ri: RecipeItem, b: BuildingType, level: u8, speed_up: bool) -> RecipeModel {
    if speed_up {
        accelerated(ri, b, level)
    } else {
        productive(ri, b, level)
    }
}

/// The enhancement levels of the variants: every level up to the highest
/// when inputs may be mixed ("cocktail"), else the level of each grade.
pub open spec fn boost_levels(cocktail: bool) -> Seq<u8> {
    if cocktail {
        seq![1u8, 2u8, 3u8, 4u8]
    } else {
        seq![1u8, 2u8, 4u8]
    }
}

pub open spec fn boosted_all(ri: RecipeItem, b: BuildingType, levels: Seq<u8>, speed_up: bool) -> Seq<
    RecipeModel,
> {
    levels.map_values(|l: u8| boosted(ri, b, l, speed_up))
}

fn boost_levels_exec(cocktail: bool) -> (r: Vec<u8>)
    ensures
        r@ == boost_levels(cocktail),
{
    if cocktail {
        let mut r: Vec<u8> = Vec::new();
        let mut level: u8 = 1;
        while level <= Proliferator::MAX_INC_LEVEL
            invariant
                1 <= level <= 5,
                r@ == boost_levels(true).take(level - 1),
            decreases 5 - level,
        {
            r.push(level);
            assert(r@ =~= boost_levels(true).take(level as int));
            level = level + 1;
        }
        assert(r@ =~= boost_levels(true));
        r
    } else {
        let grades = Proliferator::all();
        let mut r: Vec<u8> = Vec::new();
        let mut k: usize = 0;
        while k < grades.len()
            invariant
                k <= grades@.len(),
                grades@ == seq![Proliferator::MK1, Proliferator::MK2, Proliferator::MK3],
                r@ == boost_levels(false).take(k as int),
            decreases grades.len() - k,
        {
            r.push(grades[k].inc_level());
            assert(r@ =~= boost_levels(false).take(k + 1));
            k = k + 1;
        }
        assert(r@ =~= boost_levels(false));
        r
    }
}

proof fn lemma_models_push(v: Seq<Recipe>, x: Recipe)
    ensures
        recipe_models(v.push(x)) == recipe_models(v).push(x@),
{
    assert(recipe_models(v.push(x)) =~= recipe_models(v).push(x@));
}

impl Recipe {
    fn accelerate(recipe_item: &RecipeItem, items_level: u8) -> (r: Result<Self, DspCalError>)
        requires
            recipe_item.bounded(),
        ensures
            match BuildingType::from_code_spec(recipe_item.type_) {
                Some(b) => r matches Ok(rec) && rec@ == accelerated(*recipe_item, b, items_level),
                None => r matches Err(DspCalError::UnknownBuildingType(c)) && c
                    == recipe_item.type_,
            },
    {
        let info_type = Some(ProliferatorType { level: items_level, is_speed_up: true });
        Self::create_recipe(
            recipe_item,
            items_level,
            UNIT,
            Proliferator::accelerate(items_level as usize),
            Proliferator::power(items_level as usize),
            recipe_item.name.clone(),
            info_type,
        )
    }

    fn productive(recipe_item: &RecipeItem, items_level: u8) -> (r: Result<Self, DspCalError>)
        requires
            recipe_item.bounded(),
        ensures
            match BuildingType::from_code_spec(recipe_item.type_) {
                Some(b) => r matches Ok(rec) && rec@ == productive(*recipe_item, b, items_level),
                None => r matches Err(DspCalError::UnknownBuildingType(c)) && c
                    == recipe_item.type_,
            },
    {
        let info_type = Some(ProliferatorType { level: items_level, is_speed_up: false });
        Self::create_recipe(
            recipe_item,
            items_level,
            Proliferator::increase(items_level as usize),
            UNIT,
            Proliferator::power(items_level as usize),
            recipe_item.name.clone(),
            info_type,
        )
    }

    /// Appends the variants of `recipe_item` at each of `levels`.
    fn push_boosted(
        recipes: &mut Vec<Self>,
        recipe_item: &RecipeItem,
        levels: &Vec<u8>,
        speed_up: bool,
    ) -> (r: Result<(), DspCalError>)
        requires
            recipe_item.bounded(),
            levels@.len() > 0,
        ensures
            match BuildingType::from_code_spec(recipe_item.type_) {
                Some(b) => r is Ok && recipe_models(final(recipes)@) == recipe_models(old(recipes)@)
                    + boosted_all(*recipe_item, b, levels@, speed_up),
                None => (r matches Err(DspCalError::UnknownBuildingType(c)) && c
                    == recipe_item.type_) && recipe_models(final(recipes)@) == recipe_models(
                    old(recipes)@,
                ),
            },
    {
        let mut k: usize = 0;
        while k < levels.len()
            invariant
                recipe_item.bounded(),
                k <= levels@.len(),
                k > 0 ==> BuildingType::from_code_spec(recipe_item.type_) is Some,
                forall|b: BuildingType|
                    BuildingType::from_code_spec(recipe_item.type_) == Some(b) ==> recipe_models(
                        recipes@,
                    ) == recipe_models(old(recipes)@) + boosted_all(
                        *recipe_item,
                        b,
                        levels@.take(k as int),
                        speed_up,
                    ),
                BuildingType::from_code_spec(recipe_item.type_) is None ==> recipes@ == old(
                    recipes,
                )@,
            decreases levels.len() - k,
        {
            let rec = if speed_up {
                Self::accelerate(recipe_item, levels[k])?
            } else {
                Self::productive(recipe_item, levels[k])?
            };
            let ghost before = recipes@;
            recipes.push(rec);
            proof {
                lemma_models_push(before, rec);
                let b = BuildingType::from_code_spec(recipe_item.type_)->Some_0;
                assert(boosted_all(*recipe_item, b, levels@.take(k + 1), speed_up) =~= boosted_all(
                    *recipe_item,
                    b,
                    levels@.take(k as int),
                    speed_up,
                ).push(boosted(*recipe_item, b, levels@[k as int], speed_up)));
            }
            k = k + 1;
        }
        assert(levels@.take(levels.len() as int) =~= levels@);
        Ok(())
    }

    /// Appends the accelerated variants of `recipe_item`.
    pub fn recipes_accelerate(recipes: &mut Vec<Self>, recipe_item: &RecipeItem, cocktail: bool) -> (r:
        Result<(), DspCalError>)
        requires
            recipe_item.bounded(),
        ensures
            match BuildingType::from_code_spec(recipe_item.type_) {
                Some(b) => r is Ok && recipe_models(final(recipes)@) == recipe_models(old(recipes)@)
                    + boosted_all(*recipe_item, b, boost_levels(cocktail), true),
                None => (r matches Err(DspCalError::UnknownBuildingType(c)) && c
                    == recipe_item.type_) && recipe_models(final(recipes)@) == recipe_models(
                    old(recipes)@,
                ),
            },
    {
        let levels = boost_levels_exec(cocktail);
        Self::push_boosted(recipes, recipe_item, &levels, true)
    }

    /// Appends the plain recipe of `recipe_item`.
    pub fn recipe_vanilla(recipes: &mut Vec<Self>, recipe_item: &RecipeItem) -> (r: Result<
        (),
        DspCalError,
    >)
        requires
            recipe_item.bounded(),
        ensures
            match BuildingType::from_code_spec(recipe_item.type_) {
                Some(b) => r is Ok && recipe_models(final(recipes)@) == recipe_models(
                    old(recipes)@,
                ).push(vanilla(*recipe_item, b)),
                None => (r matches Err(DspCalError::UnknownBuildingType(c)) && c
                    == recipe_item.type_) && recipe_models(final(recipes)@) == recipe_models(
                    old(recipes)@,
                ),
            },
    {
        let info_type = Some(ProliferatorType { level: 0, is_speed_up: false });
        let rec = Self::create_recipe(
            recipe_item,
            0,
            UNIT,
            UNIT,
            Proliferator::power(0),
            recipe_item.name.clone(),
            info_type,
        )?;
        let ghost before = recipes@;
        recipes.push(rec);
        proof {
            lemma_models_push(before, rec);
        }
        Ok(())
    }
}

/// Whether each item id accepts extra-output proliferation (the last entry
/// of an id wins).
pub open spec fn productive_map(items: Seq<ItemData>) -> Map<i16, bool>
    decreases items.len(),
{
    if items.len() == 0 {
        Map::empty()
    } else {
        productive_map(items.drop_last()).insert(items.last().id, items.last().productive)
    }
}

/// Scans the inputs from position `k`: `Err(id)` at the first unknown id
/// before any input that refuses proliferation, `Ok(false)` at the first
/// refusing input, else `Ok(true)`.
pub open spec fn inputs_productive(ids: Seq<i16>, m: Map<i16, bool>, k: int) -> Result<bool, i16>
    decreases ids.len() - k,
{
    if k < 0 || k >= ids.len() {
        Ok(true)
    } else if !m.contains_key(ids[k]) {
        Err(ids[k])
    } else if !m[ids[k]] {
        Ok(false)
    } else {
        inputs_productive(ids, m, k + 1)
    }
}

/// Whether the catalogue entry has productive variants under `m`.
pub open spec fn can_be_productive(ri: RecipeItem, m: Map<i16, bool>) -> Result<bool, i16> {
    if ri.non_productive {
        Ok(false)
    } else {
        inputs_productive(ri.items@, m, 0)
    }
}

impl Recipe {
    fn build_productive_map(items: &Vec<ItemData>) -> (r: HashMap<i16, bool>)
        ensures
            r@ == productive_map(items@),
    {
        let mut m: HashMap<i16, bool> = HashMap::new();
        let mut k: usize = 0;
        while k < items.len()
            invariant
                k <= items.len(),
                m@ == productive_map(items@.take(k as int)),
            decreases items.len() - k,
        {
            m.insert(items[k].id, items[k].productive);
            assert(items@.take(k + 1).drop_last() =~= items@.take(k as int));
            k = k + 1;
        }
        assert(items@.take(items.len() as int) =~= items@);
        m
    }

    fn recipe_can_be_productive(recipe_item: &RecipeItem, productive_map: &HashMap<i16, bool>) -> (r:
        Result<bool, DspCalError>)
        ensures
            match can_be_productive(*recipe_item, productive_map@) {
                Ok(b) => r matches Ok(x) && x == b,
                Err(id) => r matches Err(DspCalError::UnknownItemId(i)) && i == id,
            },
    {
        if recipe_item.non_productive {
            return Ok(false);
        }
        let ids = &recipe_item.items;
        let mut k: usize = 0;
        while k < ids.len()
            invariant
                k <= ids@.len(),
                !recipe_item.non_productive,
                *ids == recipe_item.items,
                inputs_productive(ids@, productive_map@, 0) == inputs_productive(
                    ids@,
                    productive_map@,
                    k as int,
                ),
            decreases ids.len() - k,
        {
            let id = ids[k];
            match productive_map.get(&id) {
                None => {
                    assert(!productive_map@.contains_key(id));
                    return Err(DspCalError::UnknownItemId(id));
                },
                Some(p) => {
                    if !*p {
                        return Ok(false);
                    }
                },
            }
            k = k + 1;
        }
        Ok(true)
    }

    /// Appends the productive variants of `recipe_item`, when every input
    /// accepts proliferation (ids looked up in `items`).
    pub fn recipes_productive(
        recipes: &mut Vec<Self>,
        recipe_item: &RecipeItem,
        items: &Vec<ItemData>,
        cocktail: bool,
    ) -> (r: Result<(), DspCalError>)
        requires
            recipe_item.bounded(),
        ensures
            match can_be_productive(*recipe_item, productive_map(items@)) {
                Err(id) => (r matches Err(DspCalError::UnknownItemId(i)) && i == id) && recipe_models(
                    final(recipes)@,
                ) == recipe_models(old(recipes)@),
                Ok(false) => r is Ok && recipe_models(final(recipes)@) == recipe_models(
                    old(recipes)@,
                ),
                Ok(true) => match BuildingType::from_code_spec(recipe_item.type_) {
                    Some(b) => r is Ok && recipe_models(final(recipes)@) == recipe_models(
                        old(recipes)@,
                    ) + boosted_all(*recipe_item, b, boost_levels(cocktail), false),
                    None => (r matches Err(DspCalError::UnknownBuildingType(c)) && c
                        == recipe_item.type_) && recipe_models(final(recipes)@) == recipe_models(
                        old(recipes)@,
                    ),
                },
            },
    {
        let productive_map = Self::build_productive_map(items);
        if Self::recipe_can_be_productive(recipe_item, &productive_map)? {
            let levels = boost_levels_exec(cocktail);
            Self::push_boosted(recipes, recipe_item, &levels, false)?;
        }
        Ok(())
    }
}

/// The recipes of one catalogue entry: plain, then productive (when its
/// inputs allow), then accelerated; or the first error.
pub open spec fn entry_recipes(ri: RecipeItem, items: Seq<ItemData>, cocktail: bool) -> Result<
    Seq<RecipeModel>,
    DspCalError,
> {
    match BuildingType::from_code_spec(ri.type_) {
        None => Err(DspCalError::UnknownBuildingType(ri.type_)),
        Some(b) => match can_be_productive(ri, productive_map(items)) {
            Err(id) => Err(DspCalError::UnknownItemId(id)),
            Ok(can) => Ok(
                seq![vanilla(ri, b)] + (if can {
                    boosted_all(ri, b, boost_levels(cocktail), false)
                } else {
                    seq![]
                }) + boosted_all(ri, b, boost_levels(cocktail), true),
            ),
        },
    }
}

/// The recipes of all entries, in order, or the first entry's error.
pub open spec fn flattened(basics: Seq<RecipeItem>, items: Seq<ItemData>, cocktail: bool) -> Result<
    Seq<RecipeModel>,
    DspCalError,
>
    decreases basics.len(),
{
    if basics.len() == 0 {
        Ok(seq![])
    } else {
        match flattened(basics.drop_last(), items, cocktail) {
            Err(e) => Err(e),
            Ok(prev) => match entry_recipes(basics.last(), items, cocktail) {
                Err(e) => Err(e),
                Ok(s) => Ok(prev + s),
            },
        }
    }
}

proof fn lemma_flattened_err(basics: Seq<RecipeItem>, items: Seq<ItemData>, cocktail: bool, k: int)
    requires
        0 <= k <= basics.len(),
        flattened(basics.take(k), items, cocktail) is Err,
    ensures
        flattened(basics, items, cocktail) == flattened(basics.take(k), items, cocktail),
    decreases basics.len(),
{
    if k == basics.len() {
        assert(basics.take(k) =~= basics);
    } else {
        assert(basics.drop_last().take(k) =~= basics.take(k));
        lemma_flattened_err(basics.drop_last(), items, cocktail, k);
    }
}

impl Recipe {
    /// Every variant of every catalogue entry.
    pub fn flatten_recipes(basic_recipes: &Vec<RecipeItem>, items: &Vec<ItemData>, cocktail: bool) -> (r:
        Result<Vec<Self>, DspCalError>)
        requires
            forall|k: int| 0 <= k < basic_recipes@.len() ==> (#[trigger] basic_recipes@[k]).bounded(),
        ensures
            match flattened(basic_recipes@, items@, cocktail) {
                Ok(s) => r matches Ok(v) && recipe_models(v@) == s,
                Err(e) => r matches Err(x) && x == e,
            },
    {
        let mut recipes: Vec<Recipe> = Vec::new();
        assert(recipe_models(recipes@) =~= seq![]);
        assert(basic_recipes@.take(0) =~= seq![]);
        let mut k: usize = 0;
        while k < basic_recipes.len()
            invariant
                k <= basic_recipes@.len(),
                forall|k: int| 0 <= k < basic_recipes@.len() ==> (#[trigger] basic_recipes@[k]).bounded(),
                flattened(basic_recipes@.take(k as int), items@, cocktail) == Ok::<
                    Seq<RecipeModel>,
                    DspCalError,
                >(recipe_models(recipes@)),
            decreases basic_recipes.len() - k,
        {
            let ri = &basic_recipes[k];
            assert(basic_recipes@.take(k + 1).drop_last() =~= basic_recipes@.take(k as int));
            assert(basic_recipes@.take(k + 1).last() == *ri);
            let ghost start = recipe_models(recipes@);
            match Self::recipe_vanilla(&mut recipes, ri) {
                Err(e) => {
                    proof {
                        lemma_flattened_err(basic_recipes@, items@, cocktail, k + 1);
                    }
                    return Err(e);
                },
                Ok(()) => {},
            }
            match Self::recipes_productive(&mut recipes, ri, items, cocktail) {
                Err(e) => {
                    proof {
                        lemma_flattened_err(basic_recipes@, items@, cocktail, k + 1);
                    }
                    return Err(e);
                },
                Ok(()) => {},
            }
            match Self::recipes_accelerate(&mut recipes, ri, cocktail) {
                Err(e) => {
                    proof {
                        lemma_flattened_err(basic_recipes@, items@, cocktail, k + 1);
                    }
                    return Err(e);
                },
                Ok(()) => {},
            }
            proof {
                let b = BuildingType::from_code_spec(ri.type_)->Some_0;
                let can = can_be_productive(*ri, productive_map(items@))->Ok_0;
                let s = entry_recipes(*ri, items@, cocktail)->Ok_0;
                if can {
                    assert(recipe_models(recipes@) =~= start + s);
                } else {
                    assert(recipe_models(recipes@) =~= start + s);
                }
            }
            k = k + 1;
        }
        assert(basic_recipes@.take(basic_recipes.len() as int) =~= basic_recipes@);
        Ok(recipes)
    }
}

/// The mining recipe of an item: power in, 36 of the item out per tick.
pub open spec fn mine_model(item: ItemData) -> RecipeModel {
    RecipeModel {
        items: seq![
            Resource {
                resource_type: ResourceType::Indirect(IndirectResource::Power),
                num: (25400 * UNIT) as i64,
            },
        ],
        results: seq![
            Resource {
                resource_type: ResourceType::Direct(Cargo { item_id: item.id, level: 0 }),
                num: (36 * UNIT) as i64,
            },
        ],
        time: UNIT as int,
        name: "采矿"@,
        proliferator_type: None,
        building_type: BuildingType::Miner,
    }
}

/// The mining recipes of the items that can be mined, in order.
pub open spec fn mined(items: Seq<ItemData>) -> Seq<RecipeModel>
    decreases items.len(),
{
    if items.len() == 0 {
        seq![]
    } else if items.last().mining_from@.len() > 0 {
        mined(items.drop_last()).push(mine_model(items.last()))
    } else {
        mined(items.drop_last())
    }
}

/// The item id of the critical photon.
pub const CRITICAL_PHOTON: i16 = 1208;
/// The item id of the graviton lens.
pub const GRAVITON_LENS: i16 = 1209;
/// The item id of the deuteron fuel rod.
pub const DEUTERON_FUEL_ROD: i16 = 1804;

/// Critical photons from a ray receiver fed with enhanced graviton lenses.
pub open spec fn photon_model() -> RecipeModel {
    RecipeModel {
        items: seq![
            Resource {
                resource_type: ResourceType::Direct(Cargo { item_id: GRAVITON_LENS, level: 4 }),
                num: UNIT,
            },
        ],
        results: seq![
            Resource {
                resource_type: ResourceType::Direct(Cargo { item_id: CRITICAL_PHOTON, level: 0 }),
                num: (240 * UNIT) as i64,
            },
        ],
        time: 36000 * UNIT,
        name: "透镜光子"@,
        proliferator_type: None,
        building_type: BuildingType::RayReceiver,
    }
}

/// Power from an artificial star burning enhanced deuteron fuel rods.
pub open spec fn power_model() -> RecipeModel {
    RecipeModel {
        items: seq![
            Resource {
                resource_type: ResourceType::Direct(Cargo { item_id: DEUTERON_FUEL_ROD, level: 4 }),
                num: UNIT,
            },
        ],
        results: seq![
            Resource {
                resource_type: ResourceType::Indirect(IndirectResource::Power),
                num: (72000 * UNIT) as i64,
            },
        ],
        time: 15000 * UNIT,
        name: "小太阳烧lv4黄棒"@,
        proliferator_type: None,
        building_type: BuildingType::ArtificialStar,
    }
}

/// Proliferator spent per cycle when spraying four items up to
/// `cargo_level` with grade `p` that itself carries `proliferator_level`
/// (fixed point, rounded down).
pub open spec fn spray_amount(p: Proliferator, cargo_level: u8, proliferator_level: u8) -> int {
    (cargo_level * 4 * UNIT) / (p.inc_level_spec() * p.life_spec(proliferator_level as int))
}

/// Spraying four of an item up to `cargo_level` with grade `p`.
pub open spec fn spray_model(item: ItemData, p: Proliferator, cargo_level: u8, proliferator_level: u8) -> RecipeModel {
    RecipeModel {
        items: seq![
            Resource {
                resource_type: ResourceType::Direct(Cargo { item_id: item.id, level: 0 }),
                num: (4 * UNIT) as i64,
            },
            Resource {
                resource_type: ResourceType::Direct(
                    Cargo { item_id: p.item_id_spec(), level: proliferator_level },
                ),
                num: spray_amount(p, cargo_level, proliferator_level) as i64,
            },
            Resource {
                resource_type: ResourceType::Indirect(IndirectResource::Power),
                num: (90 * UNIT) as i64,
            },
        ],
        results: seq![
            Resource {
                resource_type: ResourceType::Direct(Cargo { item_id: item.id, level: cargo_level }),
                num: (4 * UNIT) as i64,
            },
        ],
        time: 2 * UNIT,
        name: "喷涂"@,
        proliferator_type: None,
        building_type: BuildingType::Sprayer,
    }
}

/// The (cargo level, proliferator level) pairs sprayed with grade `p`: with
/// mixing, every cargo level up to the grade's with every proliferator level;
/// else the grade's level with plain proliferator and with each grade's level.
pub open spec fn spray_levels(p: Proliferator, cocktail: bool) -> Seq<(u8, u8)> {
    let c = p.inc_level_spec();
    if cocktail {
        Seq::new((c * 5) as nat, |k: int| ((k / 5 + 1) as u8, (k % 5) as u8))
    } else {
        seq![(c, 0u8), (c, 1u8), (c, 2u8), (c, 4u8)]
    }
}

pub open spec fn sprays(item: ItemData, p: Proliferator, cocktail: bool) -> Seq<RecipeModel> {
    spray_levels(p, cocktail).map_values(|l: (u8, u8)| spray_model(item, p, l.0, l.1))
}

/// The spraying recipes of all items, each with every grade in turn.
pub open spec fn all_sprays(items: Seq<ItemData>, cocktail: bool) -> Seq<RecipeModel>
    decreases items.len(),
{
    if items.len() == 0 {
        seq![]
    } else {
        all_sprays(items.drop_last(), cocktail) + sprays(items.last(), Proliferator::MK1, cocktail)
            + sprays(items.last(), Proliferator::MK2, cocktail) + sprays(
            items.last(),
            Proliferator::MK3,
            cocktail,
        )
    }
}

impl Recipe {
    /// A mining recipe for each item that can be mined.
    pub fn mines(items: &Vec<ItemData>) -> (r: Vec<Self>)
        ensures
            recipe_models(r@) == mined(items@),
    {
        let mut mines: Vec<Recipe> = Vec::new();
        let mut k: usize = 0;
        assert(recipe_models(mines@) =~= seq![]);
        while k < items.len()
            invariant
                k <= items.len(),
                recipe_models(mines@) == mined(items@.take(k as int)),
            decreases items.len() - k,
        {
            let item = &items[k];
            assert(items@.take(k + 1).drop_last() =~= items@.take(k as int));
            if !item.mining_from.as_str().is_empty() {
                let power = BuildingType::Miner.power();
                let tmp = Recipe {
                    items: vec![Resource::power(power)],
                    results: vec![Resource::from_item_level(item.id, 0, 9 * 4 * UNIT)],
                    time: UNIT,
                    info: RecipeFmtInfo {
                        name: "采矿".to_owned(),
                        proliferator_type: None,
                        building_type: BuildingType::Miner,
                    },
                };
                let ghost before = mines@;
                mines.push(tmp);
                proof {
                    lemma_models_push(before, tmp);
                    assert(tmp.items@ =~= mine_model(*item).items);
                    assert(tmp.results@ =~= mine_model(*item).results);
                    assert(tmp.info.name@ == mine_model(*item).name);
                    assert(tmp@ =~= mine_model(*item));
                }
            }
            k = k + 1;
        }
        assert(items@.take(items.len() as int) =~= items@);
        mines
    }

    /// The critical-photon recipe.
    pub fn photons() -> (r: Vec<Self>)
        ensures
            recipe_models(r@) == seq![photon_model()],
    {
        let rec = Recipe {
            items: vec![Resource::from_item_level(GRAVITON_LENS, 4, UNIT)],
            results: vec![Resource::from_item_level(CRITICAL_PHOTON, 0, 240 * UNIT)],
            time: tick_from_min(10 * UNIT),
            info: RecipeFmtInfo {
                name: "透镜光子".to_owned(),
                proliferator_type: None,
                building_type: BuildingType::RayReceiver,
            },
        };
        let r = vec![rec];
        assert(rec.items@ =~= photon_model().items);
        assert(rec.results@ =~= photon_model().results);
        assert(rec.time == photon_model().time);
        assert(rec.info.name@ == photon_model().name);
        assert(rec@ =~= photon_model());
        assert(recipe_models(r@) =~= seq![photon_model()]);
        r
    }

    /// The power-plant recipe.
    pub fn powers() -> (r: Vec<Self>)
        ensures
            recipe_models(r@) == seq![power_model()],
    {
        let rec = Recipe {
            items: vec![Resource::from_item_level(DEUTERON_FUEL_ROD, 4, UNIT)],
            results: vec![Resource::power(72_000 * UNIT)],
            time: tick_from_sec(250 * UNIT),
            info: RecipeFmtInfo {
                name: "小太阳烧lv4黄棒".to_owned(),
                proliferator_type: None,
                building_type: BuildingType::ArtificialStar,
            },
        };
        let r = vec![rec];
        assert(rec.items@ =~= power_model().items);
        assert(rec.results@ =~= power_model().results);
        assert(rec.info.name@ == power_model().name);
        assert(rec@ =~= power_model());
        assert(recipe_models(r@) =~= seq![power_model()]);
        r
    }
}

impl Recipe {
    fn generate_proliferator_recipe(
        recipes: &mut Vec<Self>,
        item_data: &ItemData,
        proliferator: &Proliferator,
        cargo_level: u8,
        proliferator_level: u8,
    )
        ensures
            recipe_models(final(recipes)@) == recipe_models(old(recipes)@).push(
                spray_model(*item_data, *proliferator, cargo_level, proliferator_level),
            ),
    {
        let life = proliferator.life(proliferator_level as usize) as i64;
        let inc = proliferator.inc_level() as i64;
        assert(inc * life >= 12) by (nonlinear_arith)
            requires
                inc >= 1,
                life >= 12,
        ;
        assert(life <= 84) by {
            assert(proliferator.life_spec(proliferator_level as int) <= 1400 * 60 / 1000);
        }
        let amount = (cargo_level as i64 * 4 * UNIT) / (inc * life);
        let power = BuildingType::Sprayer.power();
        let rec = Recipe {
            items: vec![
                Resource::from_item_level(item_data.id, 0, 4 * UNIT),
                Resource::from_item_level(proliferator.item_id(), proliferator_level, amount),
                Resource::power(power),
            ],
            results: vec![Resource::from_item_level(item_data.id, cargo_level, 4 * UNIT)],
            time: 2 * UNIT,
            info: RecipeFmtInfo {
                name: "喷涂".to_owned(),
                proliferator_type: None,
                building_type: BuildingType::Sprayer,
            },
        };
        let ghost before = recipes@;
        let ghost model = spray_model(*item_data, *proliferator, cargo_level, proliferator_level);
        assert(rec.items@ =~= model.items);
        assert(rec.results@ =~= model.results);
        assert(rec.info.name@ == model.name);
        assert(rec@ =~= model);
        recipes.push(rec);
        proof {
            lemma_models_push(before, rec);
        }
    }

    fn generate_proliferator_recipes(
        recipes: &mut Vec<Self>,
        item_data: &ItemData,
        proliferator: &Proliferator,
        cocktail: bool,
    )
        ensures
            recipe_models(final(recipes)@) == recipe_models(old(recipes)@) + sprays(
                *item_data,
                *proliferator,
                cocktail,
            ),
    {
        let ghost levels = spray_levels(*proliferator, cocktail);
        let ghost start = recipe_models(recipes@);
        if cocktail {
            let top = proliferator.inc_level();
            let mut cargo_level: u8 = 1;
            while cargo_level <= top
                invariant
                    top == proliferator.inc_level_spec(),
                    1 <= cargo_level <= top + 1,
                    top <= 4,
                    levels == spray_levels(*proliferator, true),
                    recipe_models(recipes@) == start + levels.take((cargo_level - 1) * 5).map_values(
                        |l: (u8, u8)| spray_model(*item_data, *proliferator, l.0, l.1),
                    ),
                decreases top + 1 - cargo_level,
            {
                let mut proliferator_level: u8 = 0;
                while proliferator_level <= Proliferator::MAX_INC_LEVEL
                    invariant
                        top == proliferator.inc_level_spec(),
                        1 <= cargo_level <= top,
                        top <= 4,
                        proliferator_level <= 5,
                        levels == spray_levels(*proliferator, true),
                        recipe_models(recipes@) == start + levels.take(
                            (cargo_level - 1) * 5 + proliferator_level,
                        ).map_values(
                            |l: (u8, u8)| spray_model(*item_data, *proliferator, l.0, l.1),
                        ),
                    decreases 5 - proliferator_level,
                {
                    let ghost k = (cargo_level - 1) * 5 + proliferator_level;
                    Self::generate_proliferator_recipe(
                        recipes,
                        item_data,
                        proliferator,
                        cargo_level,
                        proliferator_level,
                    );
                    proof {
                        assert(k / 5 + 1 == cargo_level && k % 5 == proliferator_level);
                        assert(levels[k] == (cargo_level, proliferator_level));
                        assert(levels.take(k + 1).map_values(
                            |l: (u8, u8)| spray_model(*item_data, *proliferator, l.0, l.1),
                        ) =~= levels.take(k).map_values(
                            |l: (u8, u8)| spray_model(*item_data, *proliferator, l.0, l.1),
                        ).push(spray_model(*item_data, *proliferator, cargo_level, proliferator_level)));
                    }
                    proliferator_level = proliferator_level + 1;
                }
                cargo_level = cargo_level + 1;
            }
            assert(levels.take((top * 5) as int) =~= levels);
        } else {
            let cargo_level = proliferator.inc_level();
            Self::generate_proliferator_recipe(recipes, item_data, proliferator, cargo_level, 0);
            let grades = Proliferator::all();
            let mut k: usize = 0;
            assert(levels.take(1).map_values(
                |l: (u8, u8)| spray_model(*item_data, *proliferator, l.0, l.1),
            ) =~= seq![spray_model(*item_data, *proliferator, cargo_level, 0)]);
            while k < grades.len()
                invariant
                    k <= grades@.len(),
                    grades@ == seq![Proliferator::MK1, Proliferator::MK2, Proliferator::MK3],
                    cargo_level == proliferator.inc_level_spec(),
                    levels == spray_levels(*proliferator, false),
                    recipe_models(recipes@) == start + levels.take(k + 1).map_values(
                        |l: (u8, u8)| spray_model(*item_data, *proliferator, l.0, l.1),
                    ),
                decreases grades.len() - k,
            {
                let level = grades[k].inc_level();
                Self::generate_proliferator_recipe(recipes, item_data, proliferator, cargo_level, level);
                assert(levels.take(k + 2).map_values(
                    |l: (u8, u8)| spray_model(*item_data, *proliferator, l.0, l.1),
                ) =~= levels.take(k + 1).map_values(
                    |l: (u8, u8)| spray_model(*item_data, *proliferator, l.0, l.1),
                ).push(spray_model(*item_data, *proliferator, cargo_level, level)));
                k = k + 1;
            }
            assert(levels.take(4) =~= levels);
        }
    }

    /// The spraying recipes of every item with every grade.
    pub fn proliferator_recipes(items_data: &Vec<ItemData>, cocktail: bool) -> (r: Vec<Self>)
        ensures
            recipe_models(r@) == all_sprays(items_data@, cocktail),
    {
        let mut recipes: Vec<Recipe> = Vec::new();
        assert(recipe_models(recipes@) =~= seq![]);
        let grades = Proliferator::all();
        let mut k: usize = 0;
        while k < items_data.len()
            invariant
                k <= items_data.len(),
                grades@ == seq![Proliferator::MK1, Proliferator::MK2, Proliferator::MK3],
                recipe_models(recipes@) == all_sprays(items_data@.take(k as int), cocktail),
            decreases items_data.len() - k,
        {
            let item_data = &items_data[k];
            assert(items_data@.take(k + 1).drop_last() =~= items_data@.take(k as int));
            let ghost start = recipe_models(recipes@);
            let mut g: usize = 0;
            while g < grades.len()
                invariant
                    g <= grades@.len(),
                    grades@ == seq![Proliferator::MK1, Proliferator::MK2, Proliferator::MK3],
                    recipe_models(recipes@) == if g == 0 {
                        start
                    } else if g == 1 {
                        start + sprays(*item_data, Proliferator::MK1, cocktail)
                    } else if g == 2 {
                        start + sprays(*item_data, Proliferator::MK1, cocktail) + sprays(
                            *item_data,
                            Proliferator::MK2,
                            cocktail,
                        )
                    } else {
                        start + sprays(*item_data, Proliferator::MK1, cocktail) + sprays(
                            *item_data,
                            Proliferator::MK2,
                            cocktail,
                        ) + sprays(*item_data, Proliferator::MK3, cocktail)
                    },
                decreases grades.len() - g,
            {
                Self::generate_proliferator_recipes(&mut recipes, item_data, &grades[g], cocktail);
                g = g + 1;
            }
            k = k + 1;
        }
        assert(items_data@.take(items_data.len() as int) =~= items_data@);
        recipes
    }
}

} // verus!
