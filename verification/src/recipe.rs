//! Crafting recipes and the book that machines look them up in.

use vstd::prelude::*;

use crate::inventory::ItemStack;
use crate::item::{ItemType, Quality};
use crate::worldmap::assoc_find;

verus! {

/// Ticks one craft takes at unit speed: one second at the fixed update rate
/// of 30 ticks per second.
pub const DEFAULT_CRAFT_TIME_TICKS: u64 = 30;

/// What one craft consumes and produces, and how long it takes.
#[derive(Debug, Clone)]
pub struct Recipe {
    pub inputs: Vec<ItemStack>,
    pub outputs: Vec<ItemStack>,
    pub base_craft_time_ticks: u64,
}

/// Name of a recipe.
#[derive(Debug, Clone, Copy, PartialEq, Eq, Hash, Structural)]
pub enum RecipeId {
    IronPlateToIronGear,
    CopperPlateToCopperWire,
}

/// The recipes known to the simulation, keyed by identifier; the earliest
/// entry for an identifier wins.
pub struct RecipeBook {
    pub recipes: Vec<(RecipeId, Recipe)>,
}

impl RecipeBook {
    /// The recipe registered under an identifier, if any.
    pub open spec fn spec_get(self, id: RecipeId) -> Option<Recipe> {
        assoc_find(self.recipes@, id)
    }

    /// The recipe registered under an identifier, if any.
    pub fn get(&self, id: RecipeId) -> (r: Option<&Recipe>)
        ensures
            match r {
                Some(rec) => self.spec_get(id) == Some(*rec),
                None => self.spec_get(id) is None,
            },
    {
        let ghost all = self.recipes@;
        proof {
            assert(all.skip(0) =~= all);
        }
        let mut i: usize = 0;
        while i < self.recipes.len()
            invariant
                0 <= i <= self.recipes.len(),
                all == self.recipes@,
                assoc_find(all, id) == assoc_find(all.skip(i as int), id),
            decreases self.recipes.len() - i,
        {
            proof {
                assert(all.skip(i as int)[0] == all[i as int]);
                assert(all.skip(i as int).drop_first() =~= all.skip(i as int + 1));
            }
            if self.recipes[i].0 == id {
                return Some(&self.recipes[i].1);
            }
            i += 1;
        }
        proof {
            assert(all.skip(i as int) =~= Seq::<(RecipeId, Recipe)>::empty());
        }
        None
    }
}

impl Default for RecipeBook {
    /// The shipped book: two standard iron plates make one standard iron
    /// gear in the default craft time; no other recipe is registered.
    fn default() -> (r: Self)
        ensures
            r.spec_get(RecipeId::IronPlateToIronGear) is Some,
            r.spec_get(RecipeId::IronPlateToIronGear).unwrap().inputs@ == seq![
                (ItemStack { item_type: ItemType::IronPlate, quality: Quality::Standard, quantity: 2 }),
            ],
            r.spec_get(RecipeId::IronPlateToIronGear).unwrap().outputs@ == seq![
                (ItemStack { item_type: ItemType::IronGear, quality: Quality::Standard, quantity: 1 }),
            ],
            r.spec_get(RecipeId::IronPlateToIronGear).unwrap().base_craft_time_ticks
                == DEFAULT_CRAFT_TIME_TICKS,
            r.spec_get(RecipeId::CopperPlateToCopperWire) is None,
    {
        let mut inputs: Vec<ItemStack> = Vec::new();
        inputs.push(ItemStack::new(ItemType::IronPlate, Quality::Standard, 2));
        let mut outputs: Vec<ItemStack> = Vec::new();
        outputs.push(ItemStack::new(ItemType::IronGear, Quality::Standard, 1));
        let recipe = Recipe { inputs, outputs, base_craft_time_ticks: DEFAULT_CRAFT_TIME_TICKS };
        let mut recipes: Vec<(RecipeId, Recipe)> = Vec::new();
        recipes.push((RecipeId::IronPlateToIronGear, recipe));
        let r = RecipeBook { recipes };
        proof {
            assert(r.recipes@.drop_first() =~= Seq::<(RecipeId, Recipe)>::empty());
            assert(r.spec_get(RecipeId::IronPlateToIronGear) == Some(r.recipes@[0].1));
            assert(r.recipes@[0].1.inputs@ =~= seq![
                (ItemStack {
                    item_type: ItemType::IronPlate,
                    quality: Quality::Standard,
                    quantity: 2,
                }),
            ]);
            assert(r.recipes@[0].1.outputs@ =~= seq![
                (ItemStack {
                    item_type: ItemType::IronGear,
                    quality: Quality::Standard,
                    quantity: 1,
                }),
            ]);
            assert(assoc_find(
                Seq::<(RecipeId, Recipe)>::empty(),
                RecipeId::CopperPlateToCopperWire,
            ) is None);
            assert(r.recipes@[0].0 != RecipeId::CopperPlateToCopperWire);
        }
        r
    }
}

} // verus!
