use dspcalc::building::BuildingType;
use dspcalc::calc::{Problem, RecipeBinding};
use dspcalc::catalogue::{ItemData, RecipeItem};
use dspcalc::constraint::{constraint_needs, constraint_recipes};
use dspcalc::error::DspCalError;
use dspcalc::index::{IndexEntry, ProcessedRecipes};
use dspcalc::item::{Cargo, IndirectResource, Resource, ResourceType, UNIT};
use dspcalc::lp::{LinearProgram, Term};
use dspcalc::objective::{minimize_buildings_count, minimize_by_weight};
use dspcalc::proliferator::Proliferator;
use dspcalc::recipe::{ProliferatorType, Recipe, RecipeFmtInfo};
use dspcalc::translator::{from_clarabel_solution, USAGE_THRESHOLD};
use dspcalc::unit_convert::{min_from_tick, sec_from_tick, tick_from_min, tick_from_sec};

fn good(id: i16, num: i64) -> Resource {
    Resource::from_item_level(id, 0, num)
}

fn recipe(items: Vec<Resource>, results: Vec<Resource>, time: i64) -> Recipe {
    Recipe::new(items, results, time, RecipeFmtInfo::default()).unwrap()
}

fn bind(recipes: Vec<Recipe>) -> Vec<RecipeBinding> {
    recipes
        .into_iter()
        .enumerate()
        .map(|(i, recipe)| RecipeBinding { recipe, variable: i, weight: UNIT })
        .collect()
}

fn key_of(t: ResourceType) -> u64 {
    t.key()
}

#[test]
fn resource_constructors() {
    let r = Resource::from_item_level(1101, 3, 7);
    assert_eq!(r.resource_type, ResourceType::Direct(Cargo { item_id: 1101, level: 3 }));
    assert_eq!(r.num, 7);
    assert_eq!(Resource::power(5).resource_type, ResourceType::Indirect(IndirectResource::Power));
    assert_eq!(Resource::area(-2).resource_type, ResourceType::Indirect(IndirectResource::Area));
    assert_eq!(Resource::area(-2).num, -2);
}

#[test]
fn keys_tell_types_apart() {
    let types = [
        ResourceType::Direct(Cargo { item_id: -32768, level: 0 }),
        ResourceType::Direct(Cargo { item_id: 1101, level: 0 }),
        ResourceType::Direct(Cargo { item_id: 1101, level: 1 }),
        ResourceType::Direct(Cargo { item_id: 1102, level: 0 }),
        ResourceType::Direct(Cargo { item_id: 32767, level: 255 }),
        ResourceType::Indirect(IndirectResource::Power),
        ResourceType::Indirect(IndirectResource::Area),
    ];
    for (i, a) in types.iter().enumerate() {
        for (j, b) in types.iter().enumerate() {
            assert_eq!(key_of(*a) == key_of(*b), i == j);
        }
    }
}

#[test]
fn recipe_needs_positive_time() {
    assert!(Recipe::new(vec![], vec![good(1, UNIT)], 0, RecipeFmtInfo::default()).is_none());
    assert!(Recipe::new(vec![], vec![good(1, UNIT)], -5, RecipeFmtInfo::default()).is_none());
    assert!(Recipe::new(vec![], vec![good(1, UNIT)], 1, RecipeFmtInfo::default()).is_some());
}

#[test]
fn default_info() {
    let info = RecipeFmtInfo::default();
    assert_eq!(info.name, "Unknown Building");
    assert!(info.proliferator_type.is_none());
    assert_eq!(info.building_type, BuildingType::Miner);
}

#[test]
fn duplicate_keeps_everything() {
    let mut r = recipe(vec![good(1, 3)], vec![good(2, 4), Resource::power(9)], 11);
    r.info.name = "x".to_string();
    r.info.proliferator_type = Some(ProliferatorType { level: 2, is_speed_up: true });
    let d = r.duplicate();
    assert_eq!(d.items, r.items);
    assert_eq!(d.results, r.results);
    assert_eq!(d.time, 11);
    assert_eq!(d.info.name, "x");
    assert_eq!(d.info.proliferator_type, r.info.proliferator_type);
}

#[test]
fn index_sums_repeated_lines_of_one_recipe() {
    let a = ResourceType::Direct(Cargo { item_id: 1, level: 0 });
    let bindings = bind(vec![
        recipe(vec![good(1, 2), Resource::power(5), good(1, 3)], vec![good(2, 1)], UNIT),
        recipe(vec![good(1, 7)], vec![good(1, 1), good(2, 4), good(2, 6)], UNIT),
    ]);
    let index = ProcessedRecipes::new(&bindings);
    assert_eq!(
        index.consumes.get(&key_of(a)).unwrap(),
        &vec![IndexEntry { binding: 0, amount: 5 }, IndexEntry { binding: 1, amount: 7 }]
    );
    let b = ResourceType::Direct(Cargo { item_id: 2, level: 0 });
    assert_eq!(
        index.produces.get(&key_of(b)).unwrap(),
        &vec![IndexEntry { binding: 0, amount: 1 }, IndexEntry { binding: 1, amount: 10 }]
    );
    assert_eq!(
        index.produces.get(&key_of(a)).unwrap(),
        &vec![IndexEntry { binding: 1, amount: 1 }]
    );
    assert!(index.consumes.get(&key_of(b)).is_none());
    let power = ResourceType::Indirect(IndirectResource::Power);
    assert_eq!(index.consumes.get(&key_of(power)).unwrap(), &vec![IndexEntry { binding: 0, amount: 5 }]);
}

#[test]
fn balance_constraints_read_the_index() {
    let bindings = bind(vec![
        recipe(vec![], vec![good(1, 2 * UNIT)], 3 * UNIT),
        recipe(vec![good(1, UNIT)], vec![good(2, UNIT)], 2 * UNIT),
    ]);
    let index = ProcessedRecipes::new(&bindings);
    let mut lp = LinearProgram::new();
    let needs = vec![good(2, 5 * UNIT), good(3, UNIT)];
    let refs = constraint_needs(&bindings, &index, &mut lp, &needs);
    assert_eq!(refs, vec![0, 1]);
    let c = &lp.constraints[0];
    assert_eq!(c.demand, 5 * UNIT);
    assert_eq!(c.produced, vec![Term { variable: 1, num: UNIT as i128, den: 2 * UNIT }]);
    assert!(c.consumed.is_empty());
    assert!(lp.constraints[1].produced.is_empty() && lp.constraints[1].consumed.is_empty());
    let types = vec![ResourceType::Direct(Cargo { item_id: 1, level: 0 })];
    let refs = constraint_recipes(&bindings, &index, &mut lp, &types);
    assert_eq!(refs, vec![2]);
    let c = &lp.constraints[2];
    assert_eq!(c.demand, 0);
    assert_eq!(c.produced, vec![Term { variable: 0, num: 2 * UNIT as i128, den: 3 * UNIT }]);
    assert_eq!(c.consumed, vec![Term { variable: 1, num: UNIT as i128, den: 2 * UNIT }]);
}

#[test]
fn objective_weighs_each_variable() {
    let mut bindings = bind(vec![recipe(vec![], vec![good(1, 1)], 1), recipe(vec![], vec![good(2, 1)], 1)]);
    bindings[1].weight = 3 * UNIT;
    assert_eq!(
        minimize_by_weight(&bindings),
        vec![
            Term { variable: 0, num: UNIT as i128, den: 1 },
            Term { variable: 1, num: 3 * UNIT as i128, den: 1 }
        ]
    );
}

#[test]
fn production_types_once_each_in_order() {
    let recipes = vec![
        recipe(vec![good(9, 1)], vec![good(2, 1), good(1, 1), good(2, 3)], 1),
        recipe(vec![], vec![Resource::power(1), good(1, 1)], 1),
        recipe(vec![good(5, 1)], vec![], 1),
    ];
    assert_eq!(
        Problem::find_all_production(&recipes),
        vec![
            ResourceType::Direct(Cargo { item_id: 2, level: 0 }),
            ResourceType::Direct(Cargo { item_id: 1, level: 0 }),
            ResourceType::Indirect(IndirectResource::Power),
        ]
    );
}

#[test]
fn formulation_layout() {
    let problem = Problem {
        recipes: vec![
            recipe(vec![good(1, UNIT)], vec![good(2, UNIT), good(3, UNIT)], UNIT),
            recipe(vec![], vec![good(1, UNIT)], UNIT),
        ],
        needs: vec![good(2, 4 * UNIT)],
        weights: vec![2 * UNIT, 7],
    };
    let f = problem.formulate().unwrap();
    assert_eq!(f.program.variables, 2);
    assert_eq!(f.bindings.len(), 2);
    assert_eq!(f.bindings[1].weight, 7);
    assert_eq!(f.bindings[1].variable, 1);
    assert_eq!(f.program.objective[1], Term { variable: 1, num: 7, den: 1 });
    let kinds: Vec<(ResourceType, i64)> =
        f.program.constraints.iter().map(|c| (c.resource_type, c.demand)).collect();
    assert_eq!(
        kinds,
        vec![
            (ResourceType::Direct(Cargo { item_id: 2, level: 0 }), 0),
            (ResourceType::Direct(Cargo { item_id: 3, level: 0 }), 0),
            (ResourceType::Direct(Cargo { item_id: 1, level: 0 }), 0),
            (ResourceType::Direct(Cargo { item_id: 2, level: 0 }), 4 * UNIT),
        ]
    );
}

#[test]
fn negligible_usage_is_dropped() {
    let bindings = bind(vec![
        recipe(vec![], vec![good(1, 1)], 1),
        recipe(vec![], vec![good(2, 1)], 2),
        recipe(vec![], vec![good(3, 1)], 3),
        recipe(vec![], vec![good(4, 1)], 4),
    ]);
    let values = vec![USAGE_THRESHOLD, USAGE_THRESHOLD + 1, -5, 3 * UNIT];
    let s = from_clarabel_solution(&bindings, &values).unwrap();
    assert_eq!(s.len(), 2);
    assert_eq!((s[0].recipe.time, s[0].num), (2, 120));
    assert_eq!((s[1].recipe.time, s[1].num), (4, 3 * UNIT));
}

#[test]
fn missing_variable_is_reported() {
    let mut bindings = bind(vec![recipe(vec![], vec![good(1, 1)], 1), recipe(vec![], vec![good(2, 1)], 1)]);
    bindings[1].variable = 5;
    match from_clarabel_solution(&bindings, &vec![UNIT, UNIT]) {
        Err(DspCalError::UnknownLpVarId(5)) => {}
        other => panic!("unexpected {:?}", other.err()),
    }
}

#[test]
fn program_builder() {
    let mut lp = LinearProgram::new();
    assert_eq!(lp.add_variable(), 0);
    assert_eq!(lp.add_variable(), 1);
    assert_eq!(lp.variables, 2);
    lp.minimise(vec![Term { variable: 0, num: 1, den: 1 }]);
    assert_eq!(lp.objective.len(), 1);
}

#[test]
fn proliferator_tables() {
    let grades = Proliferator::all();
    assert_eq!(grades, vec![Proliferator::MK1, Proliferator::MK2, Proliferator::MK3]);
    assert_eq!(Proliferator::MK2.item_id(), 1142);
    assert_eq!(Proliferator::MK3.inc_level(), 4);
    assert_eq!(Proliferator::MK1.life(0), 12);
    assert_eq!(Proliferator::MK1.life(2), 14);
    assert_eq!(Proliferator::MK2.life(1), 27);
    assert_eq!(Proliferator::MK3.life(4), 75);
    assert_eq!(Proliferator::MK3.life(99), 84);
    assert_eq!(Proliferator::increase(1), 1_125_000_000);
    assert_eq!(Proliferator::increase(4), 1_250_000_000);
    assert_eq!(Proliferator::accelerate(4), 2 * UNIT);
    assert_eq!(Proliferator::accelerate(11), 3_500_000_000);
    assert_eq!(Proliferator::power(0), UNIT);
    assert_eq!(Proliferator::power(1), 1_300_000_000);
    assert_eq!(Proliferator::power(10), 4_900_000_000);
}

#[test]
fn building_tables() {
    assert_eq!(BuildingType::from_recipe_item(8), Some(BuildingType::Fractionator));
    assert_eq!(BuildingType::from_recipe_item(15), Some(BuildingType::ResearchLab));
    assert_eq!(BuildingType::from_recipe_item(7), None);
    assert_eq!(BuildingType::Smelter.time_scale(), (1, 3));
    assert_eq!(BuildingType::ChemicalPlant.time_scale(), (1, 2));
    assert_eq!(BuildingType::Miner.time_scale(), (1, 1));
    assert_eq!(BuildingType::Collider.power(), 12_000 * UNIT);
    assert_eq!(BuildingType::Smelter.area(), 5_341_552_992);
    assert_eq!(BuildingType::Sprayer.lag(), 33_200_000);
    assert_eq!(BuildingType::Assembler.lag(), 36_900_000);
}

#[test]
fn unit_conversions() {
    assert_eq!(sec_from_tick(125), 2);
    assert_eq!(sec_from_tick(-125), -2);
    assert_eq!(min_from_tick(1_125_000 * UNIT), 312_500_000_000);
    assert_eq!(tick_from_sec(250), 15_000);
    assert_eq!(tick_from_min(-2), -7_200);
}

fn smelting(type_: i64, non_productive: bool) -> RecipeItem {
    RecipeItem {
        name: "ingot".to_string(),
        type_,
        items: vec![1001],
        item_counts: vec![2],
        results: vec![1101, 1102],
        result_counts: vec![1],
        time_spend: 60,
        non_productive,
    }
}

fn ore(id: i16, productive: bool, mining_from: &str) -> ItemData {
    ItemData { id, productive, mining_from: mining_from.to_string() }
}

#[test]
fn catalogue_variants() {
    let items = vec![ore(1001, true, "vein")];
    let r = Recipe::flatten_recipes(&vec![smelting(1, false)], &items, false).unwrap();
    assert_eq!(r.len(), 7);
    let plain = &r[0];
    assert_eq!(plain.time, 20 * UNIT);
    assert_eq!(plain.items, vec![good(1001, 2 * UNIT), Resource::power(2880 * UNIT)]);
    assert_eq!(plain.results, vec![good(1101, UNIT)]);
    assert_eq!(plain.info.proliferator_type, Some(ProliferatorType { level: 0, is_speed_up: false }));
    let productive = &r[3];
    assert_eq!(productive.results, vec![good(1101, 1_250_000_000)]);
    assert_eq!(productive.items[0], Resource::from_item_level(1001, 4, 2 * UNIT));
    assert_eq!(productive.items[1], Resource::power(2880 * 2_500_000_000));
    let fast = &r[4];
    assert_eq!(fast.time, 16 * UNIT);
    assert_eq!(fast.info.proliferator_type, Some(ProliferatorType { level: 1, is_speed_up: true }));
    assert_eq!(Recipe::flatten_recipes(&vec![smelting(1, false)], &items, true).unwrap().len(), 9);
    assert_eq!(Recipe::flatten_recipes(&vec![smelting(1, true)], &items, true).unwrap().len(), 5);
    let blocked = vec![ore(1001, false, "")];
    assert_eq!(Recipe::flatten_recipes(&vec![smelting(1, false)], &blocked, false).unwrap().len(), 4);
}

#[test]
fn catalogue_errors() {
    let items = vec![ore(1001, true, "")];
    match Recipe::flatten_recipes(&vec![smelting(1, false), smelting(99, false)], &items, false) {
        Err(DspCalError::UnknownBuildingType(99)) => {}
        other => panic!("unexpected {:?}", other.err()),
    }
    match Recipe::flatten_recipes(&vec![smelting(1, false)], &vec![], false) {
        Err(DspCalError::UnknownItemId(1001)) => {}
        other => panic!("unexpected {:?}", other.err()),
    }
    let mut recipes = Vec::new();
    assert!(Recipe::recipe_vanilla(&mut recipes, &smelting(6, false)).is_err());
    assert!(recipes.is_empty());
    assert!(Recipe::recipes_accelerate(&mut recipes, &smelting(2, false), true).is_ok());
    assert_eq!(recipes.len(), 4);
    assert_eq!(recipes[3].time, 60 * UNIT / 2 / 2);
    assert!(Recipe::recipes_productive(&mut recipes, &smelting(2, false), &items, false).is_ok());
    assert_eq!(recipes.len(), 7);
}

#[test]
fn fixed_recipes() {
    let mines = Recipe::mines(&vec![ore(1001, true, "vein"), ore(1002, true, ""), ore(1003, true, "sea")]);
    assert_eq!(mines.len(), 2);
    assert_eq!(mines[1].results, vec![good(1003, 36 * UNIT)]);
    assert_eq!(mines[0].items, vec![Resource::power(25_400 * UNIT)]);
    assert_eq!(mines[0].time, UNIT);
    let photons = Recipe::photons();
    assert_eq!(photons[0].time, 36_000 * UNIT);
    assert_eq!(photons[0].results, vec![good(1208, 240 * UNIT)]);
    let powers = Recipe::powers();
    assert_eq!(powers[0].time, 15_000 * UNIT);
    assert_eq!(powers[0].results, vec![Resource::power(72_000 * UNIT)]);
}

#[test]
fn spraying_recipes() {
    let items = vec![ore(1001, true, "")];
    let plain = Recipe::proliferator_recipes(&items, false);
    assert_eq!(plain.len(), 12);
    assert_eq!(plain[0].items[1], Resource::from_item_level(1141, 0, 333_333_333));
    assert_eq!(plain[0].results, vec![Resource::from_item_level(1001, 1, 4 * UNIT)]);
    assert_eq!(plain[11].items[1], Resource::from_item_level(1143, 4, 4 * UNIT / 75));
    assert_eq!(plain[11].items[2], Resource::power(90 * UNIT));
    let mixed = Recipe::proliferator_recipes(&items, true);
    assert_eq!(mixed.len(), 35);
    assert_eq!(mixed[5].results, vec![Resource::from_item_level(1001, 1, 4 * UNIT)]);
    assert_eq!(mixed[5].items[1], Resource::from_item_level(1142, 0, 4 * UNIT / (2 * 24)));
    assert_eq!(mixed[34].results, vec![Resource::from_item_level(1001, 4, 4 * UNIT)]);
}

#[test]
fn building_count_objective() {
    assert_eq!(
        minimize_buildings_count(&vec![2, 0]),
        vec![Term { variable: 2, num: UNIT as i128, den: 1 }, Term { variable: 0, num: UNIT as i128, den: 1 }]
    );
    assert!(minimize_buildings_count(&vec![]).is_empty());
}

#[test]
fn unit_weights_give_the_building_count() {
    let bindings = bind(vec![recipe(vec![], vec![good(1, 1)], 1), recipe(vec![], vec![good(2, 1)], 1)]);
    assert_eq!(minimize_by_weight(&bindings), minimize_buildings_count(&vec![0, 1]));
}

#[test]
fn catalogue_times_are_positive() {
    let mut quick = smelting(2, false);
    quick.time_spend = 1;
    let items = vec![ore(1001, true, "")];
    let r = Recipe::flatten_recipes(&vec![quick], &items, true).unwrap();
    assert!(r.iter().all(|x| x.time > 0));
    assert_eq!(r[0].time, UNIT / 2);
    assert_eq!(r.last().unwrap().time, UNIT / 4);
}
