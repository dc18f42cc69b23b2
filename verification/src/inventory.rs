//! Item stacks and slot-based inventories.
//!
//! An inventory holds at most `slots_quantity_limit` stacks.  Adding a stack
//! first tries to merge it into the earliest compatible slot — same item
//! type, same quality, merged quantity within the per-stack limit — and only
//! then opens a new slot; when neither is possible the add is refused whole.

use vstd::prelude::*;

use crate::item::{ItemType, Quality};

verus! {

/// Largest quantity one stack may hold.
pub const DEFAULT_ITEM_STACK_LIMIT: u32 = 10;

/// Number of slots a fresh inventory offers.
pub const DEFAULT_INVENTORY_SLOTS_QUANTITY_LIMIT: u32 = 5;

/// A quantity of items of one type and quality.
#[derive(Debug, Clone, Copy, PartialEq, Eq, Hash, Structural)]
pub struct ItemStack {
    pub item_type: ItemType,
    pub quality: Quality,
    pub quantity: u32,
}

impl ItemStack {
    /// A stack of the given type, quality and quantity.
    pub fn new(item_type: ItemType, quality: Quality, quantity: u32) -> (r: Self)
        ensures
            r == (ItemStack { item_type, quality, quantity }),
    {
        Self { item_type, quality, quantity }
    }

    /// Whether `other` may be merged into this stack: same item type, same
    /// quality, and the merged quantity within the per-stack limit.
    pub open spec fn spec_can_stack_with(self, other: ItemStack) -> bool {
        &&& self.item_type == other.item_type
        &&& self.quality == other.quality
        &&& self.quantity + other.quantity <= DEFAULT_ITEM_STACK_LIMIT
    }

    /// Whether `other` may be merged into this stack.
    pub fn can_stack_with(&self, other: &Self) -> (r: bool)
        ensures
            r == self.spec_can_stack_with(*other),
    {
        self.item_type == other.item_type && self.quality == other.quality && self.quantity as u64
            + other.quantity as u64 <= DEFAULT_ITEM_STACK_LIMIT as u64
    }
}

/// Index of the earliest slot that `item` can merge into, if any.
pub open spec fn first_stackable(s: Seq<ItemStack>, item: ItemStack) -> Option<int>
    decreases s.len(),
{
    if s.len() == 0 {
        None
    } else if s[0].spec_can_stack_with(item) {
        Some(0)
    } else {
        match first_stackable(s.drop_first(), item) {
            Some(i) => Some(i + 1),
            None => None,
        }
    }
}

/// What [`first_stackable`] returns: the first index whose slot accepts the
/// item, or `None` when no slot does.
pub proof fn lemma_first_stackable(s: Seq<ItemStack>, item: ItemStack)
    ensures
        match first_stackable(s, item) {
            Some(i) => 0 <= i < s.len() && s[i].spec_can_stack_with(item) && forall|j: int|
                0 <= j < i ==> !s[j].spec_can_stack_with(item),
            None => forall|j: int| 0 <= j < s.len() ==> !s[j].spec_can_stack_with(item),
        },
    decreases s.len(),
{
    if s.len() > 0 {
        lemma_first_stackable(s.drop_first(), item);
        if !s[0].spec_can_stack_with(item) {
            match first_stackable(s.drop_first(), item) {
                Some(i) => {
                    assert(s[i + 1] == s.drop_first()[i]);
                    assert forall|j: int| 0 <= j < i + 1 implies !s[j].spec_can_stack_with(
                        item,
                    ) by {
                        if j > 0 {
                            assert(s[j] == s.drop_first()[j - 1]);
                        }
                    }
                }
                None => {
                    assert forall|j: int| 0 <= j < s.len() implies !s[j].spec_can_stack_with(
                        item,
                    ) by {
                        if j > 0 {
                            assert(s[j] == s.drop_first()[j - 1]);
                        }
                    }
                }
            }
        }
    }
}

/// Index of the earliest slot of `s` holding at least `item.quantity` items
/// of `item`'s type and quality, if any.
pub open spec fn first_removable(s: Seq<ItemStack>, item: ItemStack) -> Option<int>
    decreases s.len(),
{
    if s.len() == 0 {
        None
    } else if s[0].item_type == item.item_type && s[0].quality == item.quality && s[0].quantity
        >= item.quantity {
        Some(0)
    } else {
        match first_removable(s.drop_first(), item) {
            Some(i) => Some(i + 1),
            None => None,
        }
    }
}

/// What [`first_removable`] returns: the first index whose slot matches and
/// suffices, or `None` when no slot does.
pub proof fn lemma_first_removable(s: Seq<ItemStack>, item: ItemStack)
    ensures
        match first_removable(s, item) {
            Some(i) => 0 <= i < s.len() && s[i].item_type == item.item_type && s[i].quality
                == item.quality && s[i].quantity >= item.quantity && forall|j: int|
                0 <= j < i ==> !(s[j].item_type == item.item_type && s[j].quality == item.quality
                    && s[j].quantity >= item.quantity),
            None => forall|j: int|
                0 <= j < s.len() ==> !(s[j].item_type == item.item_type && s[j].quality
                    == item.quality && s[j].quantity >= item.quantity),
        },
    decreases s.len(),
{
    if s.len() > 0 {
        lemma_first_removable(s.drop_first(), item);
        if !(s[0].item_type == item.item_type && s[0].quality == item.quality && s[0].quantity
            >= item.quantity) {
            match first_removable(s.drop_first(), item) {
                Some(i) => {
                    assert(s[i + 1] == s.drop_first()[i]);
                    assert forall|j: int|
                        0 <= j < i + 1 implies !(s[j].item_type == item.item_type && s[j].quality
                        == item.quality && s[j].quantity >= item.quantity) by {
                        if j > 0 {
                            assert(s[j] == s.drop_first()[j - 1]);
                        }
                    }
                }
                None => {
                    assert forall|j: int|
                        0 <= j < s.len() implies !(s[j].item_type == item.item_type && s[j].quality
                        == item.quality && s[j].quantity >= item.quantity) by {
                        if j > 0 {
                            assert(s[j] == s.drop_first()[j - 1]);
                        }
                    }
                }
            }
        }
    }
}

/// A bounded collection of item stacks.
#[derive(Debug, Clone)]
pub struct Inventory {
    pub slots: Vec<ItemStack>,
    pub slots_quantity_limit: u32,
}

impl Inventory {
    /// Adds a stack: merged into the earliest compatible slot if one exists,
    /// otherwise placed in a new slot if one is free, otherwise refused with
    /// the inventory unchanged.
    pub fn add(&mut self, item_stack: ItemStack) -> (r: Result<(), ()>)
        ensures
            final(self).slots_quantity_limit == old(self).slots_quantity_limit,
            match first_stackable(old(self).slots@, item_stack) {
                Some(i) => r is Ok && final(self).slots@ == old(self).slots@.update(
                    i,
                    (ItemStack {
                        item_type: old(self).slots@[i].item_type,
                        quality: old(self).slots@[i].quality,
                        quantity: (old(self).slots@[i].quantity + item_stack.quantity) as u32,
                    }),
                ),
                None => if old(self).slots@.len() < old(self).slots_quantity_limit {
                    r is Ok && final(self).slots@ == old(self).slots@.push(item_stack)
                } else {
                    r is Err && final(self).slots@ == old(self).slots@
                },
            },
    {
        proof {
            lemma_first_stackable(self.slots@, item_stack);
        }
        let ghost slots0 = self.slots@;
        let mut i: usize = 0;
        while i < self.slots.len()
            invariant
                0 <= i <= self.slots.len(),
                *self == *old(self),
                slots0 == self.slots@,
                forall|j: int| 0 <= j < i ==> !slots0[j].spec_can_stack_with(item_stack),
            decreases self.slots.len() - i,
        {
            if self.slots[i].can_stack_with(&item_stack) {
                proof {
                    lemma_first_stackable(slots0, item_stack);
                }
                let q = self.slots[i].quantity;
                self.slots[i].quantity = q + item_stack.quantity;
                return Ok(());
            }
            i += 1;
        }
        if self.slots.len() < self.slots_quantity_limit as usize {
            self.slots.push(item_stack);
            return Ok(());
        }
        Err(())
    }

    /// Empties the inventory and hands every stack back, in slot order.
    pub fn remove_all_item_stack(&mut self) -> (r: Vec<ItemStack>)
        ensures
            r@ == old(self).slots@,
            final(self).slots@.len() == 0,
            final(self).slots_quantity_limit == old(self).slots_quantity_limit,
    {
        let mut out: Vec<ItemStack> = Vec::new();
        std::mem::swap(&mut out, &mut self.slots);
        out
    }

    /// Whether a single slot holds at least `item_stack.quantity` items of
    /// its type and quality.
    pub fn enough_quantity(&self, item_stack: ItemStack) -> (r: bool)
        ensures
            r == exists|i: int|
                0 <= i < self.slots@.len() && (#[trigger] self.slots@[i]).item_type
                    == item_stack.item_type && self.slots@[i].quality == item_stack.quality
                    && self.slots@[i].quantity >= item_stack.quantity,
    {
        let mut i: usize = 0;
        while i < self.slots.len()
            invariant
                0 <= i <= self.slots.len(),
                forall|j: int|
                    0 <= j < i ==> !((#[trigger] self.slots@[j]).item_type == item_stack.item_type
                        && self.slots@[j].quality == item_stack.quality && self.slots@[j].quantity
                        >= item_stack.quantity),
            decreases self.slots.len() - i,
        {
            let slot = self.slots[i];
            if slot.item_type == item_stack.item_type && slot.quality == item_stack.quality
                && slot.quantity >= item_stack.quantity {
                return true;
            }
            i += 1;
        }
        false
    }

    /// Whether the stack could be taken in: a slot is still free, or some
    /// slot can merge it.
    pub fn enough_room(&self, item_stack: ItemStack) -> (r: bool)
        ensures
            r == (self.slots@.len() < self.slots_quantity_limit || exists|i: int|
                0 <= i < self.slots@.len() && (#[trigger] self.slots@[i]).spec_can_stack_with(
                    item_stack,
                )),
    {
        if self.slots.len() < self.slots_quantity_limit as usize {
            return true;
        }
        let mut i: usize = 0;
        while i < self.slots.len()
            invariant
                0 <= i <= self.slots.len(),
                forall|j: int|
                    0 <= j < i ==> !(#[trigger] self.slots@[j]).spec_can_stack_with(item_stack),
            decreases self.slots.len() - i,
        {
            if self.slots[i].can_stack_with(&item_stack) {
                return true;
            }
            i += 1;
        }
        false
    }

    /// Takes `item_stack.quantity` items out of the earliest slot matching
    /// the stack's type and quality with enough in it; a slot left empty is
    /// removed.  Without such a slot nothing changes.
    pub fn remove_quantity(&mut self, item_stack: ItemStack)
        ensures
            final(self).slots_quantity_limit == old(self).slots_quantity_limit,
            match first_removable(old(self).slots@, item_stack) {
                Some(i) => if old(self).slots@[i].quantity == item_stack.quantity {
                    final(self).slots@ == old(self).slots@.remove(i)
                } else {
                    final(self).slots@ == old(self).slots@.update(
                        i,
                        (ItemStack {
                            item_type: old(self).slots@[i].item_type,
                            quality: old(self).slots@[i].quality,
                            quantity: (old(self).slots@[i].quantity - item_stack.quantity) as u32,
                        }),
                    )
                },
                None => final(self).slots@ == old(self).slots@,
            },
    {
        proof {
            lemma_first_removable(self.slots@, item_stack);
        }
        let ghost slots0 = self.slots@;
        let mut i: usize = 0;
        while i < self.slots.len()
            invariant
                0 <= i <= self.slots.len(),
                *self == *old(self),
                slots0 == self.slots@,
                forall|j: int|
                    0 <= j < i ==> !((#[trigger] slots0[j]).item_type == item_stack.item_type
                        && slots0[j].quality == item_stack.quality && slots0[j].quantity
                        >= item_stack.quantity),
            decreases self.slots.len() - i,
        {
            let slot = self.slots[i];
            if slot.item_type == item_stack.item_type && slot.quality == item_stack.quality
                && slot.quantity >= item_stack.quantity {
                proof {
                    lemma_first_removable(slots0, item_stack);
                }
                let q = self.slots[i].quantity;
                self.slots[i].quantity = q - item_stack.quantity;
                if self.slots[i].quantity == 0 {
                    self.slots.remove(i);
                    proof {
                        assert(self.slots@ =~= slots0.remove(i as int));
                    }
                }
                return ;
            }
            i += 1;
        }
    }
}

impl Default for Inventory {
    /// An empty inventory with the default slot count.
    fn default() -> (r: Self)
        ensures
            r.slots@.len() == 0,
            r.slots_quantity_limit == DEFAULT_INVENTORY_SLOTS_QUANTITY_LIMIT,
    {
        Self { slots: Vec::new(), slots_quantity_limit: DEFAULT_INVENTORY_SLOTS_QUANTITY_LIMIT }
    }
}

} // verus!
