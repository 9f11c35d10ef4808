use vstd::prelude::*;

use crate::building::BuildingType;
use crate::item::Resource;

verus! {

/// How a recipe uses proliferator: the level on its inputs and whether that
/// level buys speed (rather than extra output).
#[derive(Clone, Copy, Debug, PartialEq, Eq, Structural)]
pub struct ProliferatorType {
    pub level: u8,
    pub is_speed_up: bool,
}

/// Descriptive data of a recipe that takes no part in the computation.
#[derive(Clone, Debug)]
pub struct RecipeFmtInfo {
    pub name: String,
    pub proliferator_type: Option<ProliferatorType>,
    pub building_type: BuildingType,
}

impl Default for RecipeFmtInfo {
    fn default() -> (r: Self)
        ensures
            r.name@ == "Unknown Building"@,
            r.proliferator_type.is_none(),
            r.building_type == BuildingType::Miner,
    {
        RecipeFmtInfo {
            name: "Unknown Building".to_owned(),
            proliferator_type: None,
            building_type: BuildingType::Miner,
        }
    }
}

/// A conversion rule: per cycle of `time` (fixed point, positive) it takes
/// `items` and gives `results`.
#[derive(Clone, Debug)]
pub struct Recipe {
    pub items: Vec<Resource>,
    pub results: Vec<Resource>,
    pub time: i64,
    pub info: RecipeFmtInfo,
}

/// The value of a recipe, as contracts speak of it.
pub struct RecipeModel {
    pub items: Seq<Resource>,
    pub results: Seq<Resource>,
    pub time: int,
    pub name: Seq<char>,
    pub proliferator_type: Option<ProliferatorType>,
    pub building_type: BuildingType,
}

impl View for Recipe {
    type V = RecipeModel;

    open spec fn view(&self) -> RecipeModel {
        RecipeModel {
            items: self.items@,
            results: self.results@,
            time: self.time as int,
            name: self.info.name@,
            proliferator_type: self.info.proliferator_type,
            building_type: self.info.building_type,
        }
    }
}

/// A copy of the lines of a recipe.
fn copy_lines(lines: &Vec<Resource>) -> (r: Vec<Resource>)
    ensures
        r@ == lines@,
{
    let mut r: Vec<Resource> = Vec::with_capacity(lines.len());
    let mut i: usize = 0;
    while i < lines.len()
        invariant
            i <= lines.len(),
            r@ == lines@.subrange(0, i as int),
        decreases lines.len() - i,
    {
        r.push(lines[i]);
        i = i + 1;
    }
    assert(r@ =~= lines@);
    r
}

impl Recipe {
    /// A recipe whose rates are defined: its cycle time is positive.
    pub open spec fn wf(&self) -> bool {
        self.time > 0
    }

    /// A recipe with a positive cycle time; `None` for any other time.
    pub fn new(items: Vec<Resource>, results: Vec<Resource>, time: i64, info: RecipeFmtInfo) -> (r:
        Option<Self>)
        ensures
            time > 0 <==> r.is_some(),
            r matches Some(rec) ==> rec.items@ == items@ && rec.results@ == results@ && rec.time
                == time && rec.info.name@ == info.name@ && rec.info.proliferator_type
                == info.proliferator_type && rec.info.building_type == info.building_type,
    {
        if time > 0 {
            Some(Recipe { items, results, time, info })
        } else {
            None
        }
    }

    /// An exact copy of the recipe.
    pub fn duplicate(&self) -> (r: Self)
        ensures
            r@ == self@,
    {
        Recipe {
            items: copy_lines(&self.items),
            results: copy_lines(&self.results),
            time: self.time,
            info: RecipeFmtInfo {
                name: self.info.name.clone(),
                proliferator_type: self.info.proliferator_type,
                building_type: self.info.building_type,
            },
        }
    }
}

} // verus!
