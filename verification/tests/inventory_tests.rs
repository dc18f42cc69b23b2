use stellar_routine::inventory::{
    Inventory, ItemStack, DEFAULT_INVENTORY_SLOTS_QUANTITY_LIMIT, DEFAULT_ITEM_STACK_LIMIT,
};
use stellar_routine::item::{ItemType, Quality};

#[test]
fn test_can_stack_with() {
    let item_stack = ItemStack {
        item_type: ItemType::IronOre,
        quality: Quality::Standard,
        quantity: DEFAULT_ITEM_STACK_LIMIT - 1,
    };

    let other = ItemStack {
        item_type: ItemType::IronOre,
        quality: Quality::Standard,
        quantity: 1,
    };
    assert!(item_stack.can_stack_with(&other));

    let other_too_much = ItemStack {
        item_type: ItemType::IronOre,
        quality: Quality::Standard,
        quantity: 2,
    };
    assert!(!item_stack.can_stack_with(&other_too_much));

    let other_different_item_type = ItemStack {
        item_type: ItemType::IronGear,
        quality: Quality::Standard,
        quantity: 1,
    };
    assert!(!item_stack.can_stack_with(&other_different_item_type));

    let other_different_quality = ItemStack {
        item_type: ItemType::IronGear,
        quality: Quality::Standard,
        quantity: 1,
    };
    assert!(!item_stack.can_stack_with(&other_different_quality));
}

#[test]
fn test_add() {
    let mut inventory = Inventory::default();

    assert_eq!(inventory.slots.len(), 0);
    let item_stack = ItemStack {
        item_type: ItemType::IronOre,
        quality: Quality::Standard,
        quantity: 1,
    };
    assert!(inventory.add(item_stack).is_ok());
    assert_eq!(inventory.slots.len(), 1);

    // tries to fill existing compatible slots first
    assert!(inventory.add(item_stack).is_ok());
    assert_eq!(inventory.slots.len(), 1);
    assert_eq!(inventory.slots.get(0).unwrap().quantity, 2);

    // add to a free slot if existing compatible slots are full
    let item_stack_fill_existing_slot = ItemStack {
        item_type: ItemType::IronOre,
        quality: Quality::Standard,
        quantity: DEFAULT_ITEM_STACK_LIMIT - 2,
    };
    assert!(inventory.add(item_stack_fill_existing_slot).is_ok());
    assert_eq!(inventory.slots.len(), 1);
    assert_eq!(
        inventory.slots.get(0).unwrap().quantity,
        DEFAULT_ITEM_STACK_LIMIT
    );
    assert!(inventory.add(item_stack).is_ok());
    assert_eq!(inventory.slots.len(), 2);
    let item_stack_different_type = ItemStack {
        item_type: ItemType::CopperOre,
        quality: Quality::Standard,
        quantity: 1,
    };
    assert!(inventory.add(item_stack_different_type).is_ok());
    assert_eq!(inventory.slots.len(), 3);
    let item_stack_different_quality = ItemStack {
        item_type: ItemType::CopperOre,
        quality: Quality::Perfect,
        quantity: 1,
    };
    assert!(inventory.add(item_stack_different_quality).is_ok());
    assert_eq!(inventory.slots.len(), 4);

    // can add up to inventory.slots_quantity_limit slots
    let item_stack_fill_empty_slot = ItemStack {
        item_type: ItemType::IronPlate,
        quality: Quality::Standard,
        quantity: DEFAULT_ITEM_STACK_LIMIT,
    };
    for _ in inventory.slots.len()..inventory.slots_quantity_limit as usize - 1 {
        assert!(inventory.add(item_stack_fill_empty_slot).is_ok());
    }
    assert_eq!(
        inventory.slots.len(),
        inventory.slots_quantity_limit as usize - 1
    );
    assert!(inventory.add(item_stack_fill_empty_slot).is_ok());
    assert_eq!(
        inventory.slots.len(),
        inventory.slots_quantity_limit as usize
    );
    let item_stack_too_much_quantity = ItemStack {
        item_type: ItemType::IronPlate,
        quality: Quality::Standard,
        quantity: DEFAULT_ITEM_STACK_LIMIT * 10,
    };
    assert!(inventory.add(item_stack_too_much_quantity).is_err());

    // don't add if there is no more free slots nor existing compatible slots
    let item_stack_new_category = ItemStack {
        item_type: ItemType::CopperWire,
        quality: Quality::Defective,
        quantity: 1,
    };
    assert!(inventory.add(item_stack_new_category).is_err());
}

#[test]
fn test_enough_quantity() {
    let mut inventory = Inventory::default();

    let item_stack = ItemStack {
        item_type: ItemType::IronOre,
        quality: Quality::Standard,
        quantity: 1,
    };
    assert!(!inventory.enough_quantity(item_stack));

    inventory.slots.push(ItemStack {
        item_type: ItemType::IronOre,
        quality: Quality::Standard,
        quantity: 1,
    });
    assert!(inventory.enough_quantity(item_stack));

    let item_stack_wrong_type = ItemStack {
        item_type: ItemType::CopperOre,
        quality: Quality::Standard,
        quantity: 1,
    };
    assert!(!inventory.enough_quantity(item_stack_wrong_type));

    let item_stack_wrong_quality = ItemStack {
        item_type: ItemType::IronOre,
        quality: Quality::Perfect,
        quantity: 1,
    };
    assert!(!inventory.enough_quantity(item_stack_wrong_quality));
}

#[test]
fn test_enough_room() {
    let mut inventory = Inventory::default();

    let item_stack = ItemStack {
        item_type: ItemType::IronOre,
        quality: Quality::Standard,
        quantity: 1,
    };
    assert!(inventory.enough_room(item_stack));

    // leave only 2 empty slots and add 2 special item stack to test ItemType and Quality
    let item_stack_fill_empty_slot = ItemStack {
        item_type: ItemType::IronPlate,
        quality: Quality::Standard,
        quantity: DEFAULT_ITEM_STACK_LIMIT,
    };
    for _ in inventory.slots.len()..inventory.slots_quantity_limit as usize - 2 {
        inventory.slots.push(item_stack_fill_empty_slot);
    }
    let item_stack_different_type = ItemStack {
        item_type: ItemType::CopperOre,
        quality: Quality::Standard,
        quantity: 1,
    };
    inventory.slots.push(item_stack_different_type);
    let item_stack_different_quality = ItemStack {
        item_type: ItemType::CopperOre,
        quality: Quality::Perfect,
        quantity: 1,
    };
    inventory.slots.push(item_stack_different_quality);
    assert_eq!(
        inventory.slots.len(),
        inventory.slots_quantity_limit as usize
    );

    // enough room when no empty slots BUT existing compatible slots
    assert!(inventory.enough_room(item_stack_different_type));
    assert!(inventory.enough_room(item_stack_different_quality));

    // not enough room when no empty slots or existing compatible slots
    let item_stack_different_type_and_quality = ItemStack {
        item_type: ItemType::CopperWire,
        quality: Quality::Defective,
        quantity: 1,
    };
    assert!(!inventory.enough_room(item_stack_different_type_and_quality));
}

#[test]
fn test_remove_quantity() {
    let mut inventory = Inventory::default();

    let item_stack = ItemStack {
        item_type: ItemType::IronOre,
        quality: Quality::Standard,
        quantity: 2,
    };
    inventory.slots.push(item_stack);
    assert_eq!(inventory.slots.get(0).unwrap().quantity, 2);
    let item_stack_quantity_to_remove = ItemStack {
        item_type: ItemType::IronOre,
        quality: Quality::Standard,
        quantity: 1,
    };
    inventory.remove_quantity(item_stack_quantity_to_remove);
    assert_eq!(inventory.slots.get(0).unwrap().quantity, 1);
}

#[test]
fn test_remove_quantity_empties_slot() {
    let mut inventory = Inventory::default();
    let item_stack = ItemStack {
        item_type: ItemType::IronOre,
        quality: Quality::Standard,
        quantity: 2,
    };
    inventory.slots.push(item_stack);
    inventory.remove_quantity(item_stack);
    assert_eq!(inventory.slots.len(), 0);
}

#[test]
fn test_remove_all_item_stack() {
    let mut inventory = Inventory::default();
    let a = ItemStack::new(ItemType::IronOre, Quality::Standard, 3);
    let b = ItemStack::new(ItemType::CopperOre, Quality::Perfect, 5);
    assert!(inventory.add(a).is_ok());
    assert!(inventory.add(b).is_ok());
    let out = inventory.remove_all_item_stack();
    assert_eq!(out, vec![a, b]);
    assert_eq!(inventory.slots.len(), 0);
    assert_eq!(
        inventory.slots_quantity_limit,
        DEFAULT_INVENTORY_SLOTS_QUANTITY_LIMIT
    );
}

#[test]
fn test_quality_default() {
    assert_eq!(Quality::default(), Quality::Standard);
}
