//! The kinds and qualities of items the simulation moves around.

use vstd::prelude::*;

verus! {

/// Kind of an item.
#[derive(Debug, Clone, Copy, PartialEq, Eq, Hash, Structural)]
pub enum ItemType {
    IronOre,
    CopperOre,
    IronPlate,
    CopperPlate,
    IronGear,
    CopperWire,
}

/// Quality grade of an item.
#[derive(Debug, Clone, Copy, PartialEq, Eq, Hash, Structural)]
pub enum Quality {
    Perfect,
    Standard,
    Defective,
}

impl Default for Quality {
    /// The ordinary grade.
    fn default() -> (r: Self)
        ensures
            r == Quality::Standard,
    {
        Quality::Standard
    }
}

} // verus!
