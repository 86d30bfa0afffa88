//! Ant types and the integer codes that the GPU shaders read.

use vstd::prelude::*;

verus! {

/// Code stored in an ant's `ant_type` field for a forager.
pub const FORAGER_CODE: u32 = 0;

/// Code stored in an ant's `ant_type` field for a scout.
pub const SCOUT_CODE: u32 = 1;

/// The two kinds of ant.
#[derive(Clone, Copy, Debug, PartialEq, Eq)]
pub enum AntType {
    Forager,
    Scout,
}

impl AntType {
    /// The code of this ant type.
    pub open spec fn code(self) -> u32 {
        match self {
            AntType::Forager => FORAGER_CODE,
            AntType::Scout => SCOUT_CODE,
        }
    }

    /// Encodes the ant type as the `u32` stored in the GPU ant buffer.
    pub fn as_u32(&self) -> (code: u32)
        ensures
            code == self.code(),
    {
        match self {
            AntType::Forager => FORAGER_CODE,
            AntType::Scout => SCOUT_CODE,
        }
    }
}

/// One ant as laid out in the GPU ant buffer (24 bytes: position, direction,
/// type code, food flag). The coordinates are `f32` values held by their bit
/// patterns (`f32::to_bits`): nothing here computes with them, they are only
/// carried along.
#[derive(Clone, Copy, Debug, PartialEq, Eq)]
pub struct Ant {
    pub position: [u32; 2],
    pub direction: [u32; 2],
    pub ant_type: u32,
    pub carries_food: u32,
}

impl Ant {
    /// A new ant of the given type, not carrying food.
    pub fn new(position: [u32; 2], direction: [u32; 2], ant_type: AntType) -> (ant: Self)
        ensures
            ant.position == position,
            ant.direction == direction,
            ant.ant_type == ant_type.code(),
            ant.carries_food == 0,
    {
        Self { position, direction, ant_type: ant_type.as_u32(), carries_food: 0 }
    }
}

/// Distinct ant types have distinct codes.
pub proof fn lemma_codes_distinct(a: AntType, b: AntType)
    ensures
        a.code() == b.code() <==> a == b,
{
}

} // verus!
