use vstd::prelude::*;

use crate::item::UNIT;

verus! {

/// The kind of building that runs a recipe.
#[derive(Clone, Copy, Debug, PartialEq, Eq, Structural)]
pub enum BuildingType {
    Smelter,
    ChemicalPlant,
    Refinery,
    Assembler,
    Collider,
    Fractionator,
    ResearchLab,
    Miner,
    Sprayer,
    ArtificialStar,
    RayReceiver,
}

impl BuildingType {
    /// The building of a catalogue recipe, from the catalogue's building code.
    pub open spec fn from_code_spec(code: i64) -> Option<BuildingType> {
        if code == 1 {
            Some(BuildingType::Smelter)
        } else if code == 2 {
            Some(BuildingType::ChemicalPlant)
        } else if code == 3 {
            Some(BuildingType::Refinery)
        } else if code == 4 {
            Some(BuildingType::Assembler)
        } else if code == 5 {
            Some(BuildingType::Collider)
        } else if code == 8 {
            Some(BuildingType::Fractionator)
        } else if code == 15 {
            Some(BuildingType::ResearchLab)
        } else {
            None
        }
    }

    /// The building that a catalogue recipe with building code `code` runs in.
    pub fn from_recipe_item(code: i64) -> (r: Option<Self>)
        ensures
            r == Self::from_code_spec(code),
    {
        match code {
            1 => Some(BuildingType::Smelter),
            2 => Some(BuildingType::ChemicalPlant),
            3 => Some(BuildingType::Refinery),
            4 => Some(BuildingType::Assembler),
            5 => Some(BuildingType::Collider),
            8 => Some(BuildingType::Fractionator),
            15 => Some(BuildingType::ResearchLab),
            _ => None,
        }
    }

    /// The divisor that the building's speed applies to a recipe's base time.
    pub open spec fn speed_spec(self) -> i64 {
        match self {
            BuildingType::Smelter | BuildingType::Assembler | BuildingType::ResearchLab => 3,
            BuildingType::ChemicalPlant => 2,
            _ => 1,
        }
    }

    /// The factor on a recipe's base time, as `(numerator, denominator)`.
    pub fn time_scale(&self) -> (r: (i64, i64))
        ensures
            r.0 == 1,
            r.1 == self.speed_spec(),
            1 <= r.1 <= 3,
    {
        match self {
            BuildingType::Smelter | BuildingType::Assembler | BuildingType::ResearchLab => (1, 3),
            BuildingType::ChemicalPlant => (1, 2),
            _ => (1, 1),
        }
    }

    /// Power draw per cycle tick, in whole units.
    pub open spec fn power_units(self) -> int {
        match self {
            BuildingType::Smelter => 2880,
            BuildingType::ChemicalPlant => 2160,
            BuildingType::Refinery => 960,
            BuildingType::Assembler => 2700,
            BuildingType::Collider => 12000,
            BuildingType::Fractionator => 17800,
            BuildingType::ResearchLab => 1920,
            BuildingType::Miner => 25400,
            BuildingType::Sprayer => 90,
            BuildingType::ArtificialStar => 288000,
            BuildingType::RayReceiver => 0,
        }
    }

    /// Power draw of one building, in fixed point.
    pub fn power(&self) -> (r: i64)
        ensures
            r == self.power_units() * UNIT,
    {
        let units: i64 = match self {
            BuildingType::Smelter => 2880,
            BuildingType::ChemicalPlant => 2160,
            BuildingType::Refinery => 960,
            BuildingType::Assembler => 2700,
            BuildingType::Collider => 12000,
            BuildingType::Fractionator => 17800,
            BuildingType::ResearchLab => 1920,
            BuildingType::Miner => 25400,
            BuildingType::Sprayer => 90,
            BuildingType::ArtificialStar => 288000,
            BuildingType::RayReceiver => 0,
        };
        units * UNIT
    }

    /// Floor area of one building, in fixed point (rounded to the nearest step).
    pub open spec fn area_spec(self) -> i64 {
        match self {
            BuildingType::Smelter => 5_341_552_992,
            BuildingType::ChemicalPlant => 23_075_077_341,
            BuildingType::Refinery => 17_483_246_730,
            BuildingType::Assembler => 9_251_330_560,
            BuildingType::Collider => 43_754_966_140,
            BuildingType::Fractionator => 17_000_000_000,
            BuildingType::ResearchLab => 1_319_870_017,
            BuildingType::Miner | BuildingType::Sprayer => 0,
            BuildingType::ArtificialStar => 45_576_000_000,
            BuildingType::RayReceiver => 53_396_048_708,
        }
    }

    pub fn area(&self) -> (r: i64)
        ensures
            r == self.area_spec(),
    {
        match self {
            BuildingType::Smelter => 5_341_552_992,
            BuildingType::ChemicalPlant => 23_075_077_341,
            BuildingType::Refinery => 17_483_246_730,
            BuildingType::Assembler => 9_251_330_560,
            BuildingType::Collider => 43_754_966_140,
            BuildingType::Fractionator => 17_000_000_000,
            BuildingType::ResearchLab => 1_319_870_017,
            BuildingType::Miner | BuildingType::Sprayer => 0,
            BuildingType::ArtificialStar => 45_576_000_000,
            BuildingType::RayReceiver => 53_396_048_708,
        }
    }

    /// Simulation cost of one building, in fixed point.
    pub open spec fn lag_spec(self) -> i64 {
        match self {
            BuildingType::Fractionator => 1_000_000_000,
            BuildingType::ResearchLab => 19_700_000,
            BuildingType::Miner => 0,
            BuildingType::Sprayer => 33_200_000,
            BuildingType::RayReceiver => 26_200_000,
            _ => 36_900_000,
        }
    }

    pub fn lag(&self) -> (r: i64)
        ensures
            r == self.lag_spec(),
    {
        match self {
            BuildingType::Fractionator => 1_000_000_000,
            BuildingType::ResearchLab => 19_700_000,
            BuildingType::Miner => 0,
            BuildingType::Sprayer => 33_200_000,
            BuildingType::RayReceiver => 26_200_000,
            _ => 36_900_000,
        }
    }
}

} // verus!
