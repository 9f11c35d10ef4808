use vstd::prelude::*;

use crate::item::UNIT;

verus! {

/// The three proliferator grades.
#[derive(Clone, Copy, Debug, PartialEq, Eq, Structural)]
pub enum Proliferator {
    MK1,
    MK2,
    MK3,
}

/// Enhancement levels above this read the table at this level.
pub const INC_LEVEL_MAX: usize = 10;

/// The table row for a level.
pub open spec fn table_index(level: int) -> int {
    if level < INC_LEVEL_MAX {
        level
    } else {
        INC_LEVEL_MAX as int
    }
}

/// Extra output of a productive recipe at table row `i`, in thousandths.
pub open spec fn inc_permille(i: int) -> int {
    if i == 0 {
        0
    } else if i == 1 {
        125
    } else if i == 2 {
        200
    } else {
        225 + 25 * (i - 3)
    }
}

/// Power factor of an enhanced recipe at table row `i`, in tenths.
pub open spec fn power_tenths(i: int) -> int {
    if i == 0 {
        10
    } else {
        9 + 4 * i
    }
}

fn row(level: usize) -> (i: u64)
    ensures
        i == table_index(level as int),
        i <= 10,
{
    if level < INC_LEVEL_MAX {
        level as u64
    } else {
        INC_LEVEL_MAX as u64
    }
}

impl Proliferator {
    /// The highest enhancement level a proliferator gives.
    pub const MAX_INC_LEVEL: u8 = 4;

    /// Every grade, from the weakest.
    pub fn all() -> (r: Vec<Proliferator>)
        ensures
            r@ == seq![Proliferator::MK1, Proliferator::MK2, Proliferator::MK3],
    {
        let r = vec![Proliferator::MK1, Proliferator::MK2, Proliferator::MK3];
        assert(r@ =~= seq![Proliferator::MK1, Proliferator::MK2, Proliferator::MK3]);
        r
    }

    pub open spec fn item_id_spec(self) -> i16 {
        match self {
            Proliferator::MK1 => 1141,
            Proliferator::MK2 => 1142,
            Proliferator::MK3 => 1143,
        }
    }

    /// The item id of the grade.
    pub fn item_id(&self) -> (r: i16)
        ensures
            r == self.item_id_spec(),
    {
        match self {
            Proliferator::MK1 => 1141,
            Proliferator::MK2 => 1142,
            Proliferator::MK3 => 1143,
        }
    }

    pub open spec fn inc_level_spec(self) -> u8 {
        match self {
            Proliferator::MK1 => 1,
            Proliferator::MK2 => 2,
            Proliferator::MK3 => 4,
        }
    }

    /// The enhancement level that the grade gives to what it sprays.
    pub fn inc_level(&self) -> (r: u8)
        ensures
            r == self.inc_level_spec(),
            1 <= r <= Self::MAX_INC_LEVEL,
    {
        match self {
            Proliferator::MK1 => 1,
            Proliferator::MK2 => 2,
            Proliferator::MK3 => 4,
        }
    }

    pub open spec fn base_life(self) -> int {
        match self {
            Proliferator::MK1 => 12,
            Proliferator::MK2 => 24,
            Proliferator::MK3 => 60,
        }
    }

    pub open spec fn life_spec(self, level: int) -> int {
        (1000 + inc_permille(table_index(level))) * self.base_life() / 1000
    }

    /// How many items one proliferator of this grade sprays, when the
    /// proliferator itself carries enhancement `level`: the base count
    /// times the productivity factor of `level`, rounded down.
    pub fn life(&self, level: usize) -> (r: usize)
        ensures
            r == self.life_spec(level as int),
            r >= 12,
    {
        let i = row(level);
        let inc: u64 = if i == 0 {
            0
        } else if i == 1 {
            125
        } else if i == 2 {
            200
        } else {
            225 + 25 * (i - 3)
        };
        let base: u64 = match self {
            Proliferator::MK1 => 12,
            Proliferator::MK2 => 24,
            Proliferator::MK3 => 60,
        };
        ((1000 + inc) * base / 1000) as usize
    }

    /// Output factor of a productive recipe at enhancement `level`, in fixed point.
    pub fn increase(level: usize) -> (r: i64)
        ensures
            r == (1000 + inc_permille(table_index(level as int))) * (UNIT / 1000),
            UNIT <= r <= 2 * UNIT,
    {
        let i = row(level);
        let inc: i64 = if i == 0 {
            0
        } else if i == 1 {
            125
        } else if i == 2 {
            200
        } else {
            225 + 25 * (i as i64 - 3)
        };
        (1000 + inc) * (UNIT / 1000)
    }

    /// Speed factor of an accelerated recipe at enhancement `level`, in fixed
    /// point: a quarter more per level.
    pub fn accelerate(level: usize) -> (r: i64)
        ensures
            r == (4 + table_index(level as int)) * (UNIT / 4),
            UNIT <= r <= 4 * UNIT,
    {
        let i = row(level);
        (4 + i as i64) * (UNIT / 4)
    }

    /// Power factor of a recipe at enhancement `level`, in fixed point.
    pub fn power(level: usize) -> (r: i64)
        ensures
            r == power_tenths(table_index(level as int)) * (UNIT / 10),
            UNIT <= r <= 5 * UNIT,
    {
        let i = row(level);
        let tenths: i64 = if i == 0 {
            10
        } else {
            9 + 4 * i as i64
        };
        tenths * (UNIT / 10)
    }
}

} // verus!
