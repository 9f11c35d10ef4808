use vstd::prelude::*;

verus! {

/// One whole unit of a quantity, rate, duration or weight in fixed point.
pub const UNIT: i64 = 1_000_000_000;

/// A quantity that is not a physical item.
#[derive(Clone, Copy, Debug, PartialEq, Eq, Structural, Hash)]
pub enum IndirectResource {
    Power,
    Area,
}

/// A physical good together with the enhancement level it carries.
#[derive(Clone, Copy, Debug, PartialEq, Eq, Structural, Hash)]
pub struct Cargo {
    pub item_id: i16,
    pub level: u8,
}

/// The identity of a fungible pool: goods of one id and one level, or an
/// indirect quantity.
#[derive(Clone, Copy, Debug, PartialEq, Eq, Structural, Hash)]
pub enum ResourceType {
    Direct(Cargo),
    Indirect(IndirectResource),
}

/// A resource type with a fixed-point quantity (per cycle in a recipe, per
/// time unit in a demand).
#[derive(Clone, Copy, Debug, PartialEq, Eq, Structural)]
pub struct Resource {
    pub resource_type: ResourceType,
    pub num: i64,
}

/// The first key used by indirect resources; every direct key lies below it.
pub const INDIRECT_KEY_BASE: u64 = 16_777_216;

impl ResourceType {
    /// An integer that identifies the resource type (see `lemma_key_injective`).
    pub open spec fn key_spec(self) -> u64 {
        match self {
            ResourceType::Direct(c) => ((c.item_id as int + 32768) * 256 + c.level as int) as u64,
            ResourceType::Indirect(IndirectResource::Power) => INDIRECT_KEY_BASE,
            ResourceType::Indirect(IndirectResource::Area) => (INDIRECT_KEY_BASE + 1) as u64,
        }
    }

    pub fn key(&self) -> (k: u64)
        ensures
            k == self.key_spec(),
    {
        match self {
            ResourceType::Direct(c) => {
                let id = (c.item_id as i64 + 32768) as u64;
                id * 256 + c.level as u64
            },
            ResourceType::Indirect(IndirectResource::Power) => INDIRECT_KEY_BASE,
            ResourceType::Indirect(IndirectResource::Area) => INDIRECT_KEY_BASE + 1,
        }
    }

    /// Distinct resource types have distinct keys.
    pub proof fn lemma_key_injective(a: ResourceType, b: ResourceType)
        ensures
            a.key_spec() == b.key_spec() <==> a == b,
    {
    }
}

impl Resource {
    pub fn from_item_level(item_id: i16, level: u8, num: i64) -> (r: Self)
        ensures
            r.resource_type == ResourceType::Direct(Cargo { item_id, level }),
            r.num == num,
    {
        Resource { resource_type: ResourceType::Direct(Cargo { item_id, level }), num }
    }

    pub fn area(num: i64) -> (r: Self)
        ensures
            r.resource_type == ResourceType::Indirect(IndirectResource::Area),
            r.num == num,
    {
        Resource { resource_type: ResourceType::Indirect(IndirectResource::Area), num }
    }

    pub fn power(num: i64) -> (r: Self)
        ensures
            r.resource_type == ResourceType::Indirect(IndirectResource::Power),
            r.num == num,
    {
        Resource { resource_type: ResourceType::Indirect(IndirectResource::Power), num }
    }
}

} // verus!
