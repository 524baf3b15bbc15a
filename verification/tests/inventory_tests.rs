use ronincraft::inventory::{Inventory, INVENTORY_SLOTS};
use ronincraft::item::{block_drop, FoodType, ItemStack, ItemType, MAX_STACK};
use ronincraft::voxel::BlockType;

fn count(inv: &Inventory, item: ItemType) -> u32 {
    inv.slots.iter().flatten().filter(|s| s.item == item).map(|s| s.count).sum()
}

#[test]
fn new_inventory_is_empty() {
    let inv = Inventory::default();
    assert_eq!(inv.slots.len(), INVENTORY_SLOTS);
    assert!(inv.slots.iter().all(|s| s.is_none()));
}

#[test]
fn add_fills_empty_slots_in_order() {
    let mut inv = Inventory::default();
    let rest = inv.try_add(ItemStack::block(BlockType::Dirt, 100));
    assert_eq!(rest, None);
    assert_eq!(inv.slots[0], Some(ItemStack::block(BlockType::Dirt, 64)));
    assert_eq!(inv.slots[1], Some(ItemStack::block(BlockType::Dirt, 36)));
    assert_eq!(inv.slots[2], None);
}

#[test]
fn add_tops_up_existing_stacks_first() {
    let mut inv = Inventory::default();
    inv.slots[0] = Some(ItemStack::block(BlockType::Stone, 5));
    inv.slots[3] = Some(ItemStack::block(BlockType::Dirt, 60));
    inv.slots[7] = Some(ItemStack::block(BlockType::Dirt, 10));
    let rest = inv.try_add(ItemStack::block(BlockType::Dirt, 64));
    assert_eq!(rest, None);
    assert_eq!(inv.slots[0], Some(ItemStack::block(BlockType::Stone, 5)));
    assert_eq!(inv.slots[3], Some(ItemStack::block(BlockType::Dirt, 64)));
    assert_eq!(inv.slots[7], Some(ItemStack::block(BlockType::Dirt, 64)));
    assert_eq!(inv.slots[1], Some(ItemStack::block(BlockType::Dirt, 6)));
}

#[test]
fn add_to_full_inventory_returns_remainder() {
    let mut inv = Inventory::default();
    for i in 0..INVENTORY_SLOTS {
        inv.slots[i] = Some(ItemStack::block(BlockType::Stone, 64));
    }
    inv.slots[10] = Some(ItemStack::block(BlockType::Sand, 60));
    let rest = inv.try_add(ItemStack::block(BlockType::Sand, 10));
    assert_eq!(rest, Some(ItemStack::block(BlockType::Sand, 6)));
    assert_eq!(inv.slots[10], Some(ItemStack::block(BlockType::Sand, 64)));
}

#[test]
fn add_conserves_items() {
    let mut inv = Inventory::default();
    inv.slots[2] = Some(ItemStack::block(BlockType::Wood, 63));
    inv.slots[5] = Some(ItemStack::new(ItemType::Food(FoodType::RawPork), 3));
    let before = count(&inv, ItemType::Block(BlockType::Wood));
    let rest = inv.try_add(ItemStack::block(BlockType::Wood, 3000));
    let after = count(&inv, ItemType::Block(BlockType::Wood));
    let left = rest.map(|s| s.count).unwrap_or(0);
    assert_eq!(after + left, before + 3000);
    assert_eq!(inv.slots[5], Some(ItemStack::new(ItemType::Food(FoodType::RawPork), 3)));
    assert!(inv.slots.iter().flatten().all(|s| s.count <= MAX_STACK));
}

#[test]
fn add_nothing_changes_nothing() {
    let mut inv = Inventory::default();
    inv.slots[4] = Some(ItemStack::block(BlockType::Coal, 2));
    let rest = inv.try_add(ItemStack::block(BlockType::Coal, 0));
    assert_eq!(rest, None);
    assert_eq!(inv.slots[4], Some(ItemStack::block(BlockType::Coal, 2)));
    assert!(inv.slots.iter().enumerate().all(|(i, s)| i == 4 || s.is_none()));
}

#[test]
fn remove_part_and_all_of_a_slot() {
    let mut inv = Inventory::default();
    inv.slots[0] = Some(ItemStack::block(BlockType::Cobblestone, 10));
    assert_eq!(inv.remove_from_slot(0, 3), Some(ItemStack::block(BlockType::Cobblestone, 3)));
    assert_eq!(inv.slots[0], Some(ItemStack::block(BlockType::Cobblestone, 7)));
    assert_eq!(inv.remove_from_slot(0, 50), Some(ItemStack::block(BlockType::Cobblestone, 7)));
    assert_eq!(inv.slots[0], None);
    assert_eq!(inv.remove_from_slot(0, 1), None);
    assert_eq!(inv.remove_from_slot(36, 1), None);
}

#[test]
fn swap_two_slots() {
    let mut inv = Inventory::default();
    inv.slots[0] = Some(ItemStack::block(BlockType::Dirt, 1));
    inv.slots[35] = Some(ItemStack::block(BlockType::Sand, 2));
    inv.swap_slots(0, 35);
    assert_eq!(inv.slots[0], Some(ItemStack::block(BlockType::Sand, 2)));
    assert_eq!(inv.slots[35], Some(ItemStack::block(BlockType::Dirt, 1)));
    inv.swap_slots(0, 35);
    assert_eq!(inv.slots[0], Some(ItemStack::block(BlockType::Dirt, 1)));
    inv.swap_slots(0, 36);
    assert_eq!(inv.slots[0], Some(ItemStack::block(BlockType::Dirt, 1)));
}

#[test]
fn click_swaps_slot_and_cursor() {
    let mut inv = Inventory::default();
    inv.slots[9] = Some(ItemStack::block(BlockType::Iron, 4));
    let mut cursor = None;
    inv.click_slot(9, &mut cursor);
    assert_eq!(cursor, Some(ItemStack::block(BlockType::Iron, 4)));
    assert_eq!(inv.slots[9], None);
    inv.click_slot(12, &mut cursor);
    assert_eq!(cursor, None);
    assert_eq!(inv.slots[12], Some(ItemStack::block(BlockType::Iron, 4)));
}

#[test]
fn click_same_slot_twice_restores() {
    let mut inv = Inventory::default();
    inv.slots[3] = Some(ItemStack::block(BlockType::Coal, 7));
    let mut cursor = Some(ItemStack::new(ItemType::Food(FoodType::RawPork), 2));
    inv.click_slot(3, &mut cursor);
    assert_eq!(inv.slots[3], Some(ItemStack::new(ItemType::Food(FoodType::RawPork), 2)));
    inv.click_slot(3, &mut cursor);
    assert_eq!(inv.slots[3], Some(ItemStack::block(BlockType::Coal, 7)));
    assert_eq!(cursor, Some(ItemStack::new(ItemType::Food(FoodType::RawPork), 2)));
}

#[test]
fn block_drops() {
    assert_eq!(block_drop(BlockType::Air), None);
    assert_eq!(block_drop(BlockType::Water), None);
    assert_eq!(block_drop(BlockType::Bedrock), None);
    assert_eq!(block_drop(BlockType::Leaves), None);
    assert_eq!(block_drop(BlockType::Stone), Some(ItemStack::block(BlockType::Cobblestone, 1)));
    assert_eq!(block_drop(BlockType::Grass), Some(ItemStack::block(BlockType::Dirt, 1)));
    assert_eq!(block_drop(BlockType::Iron), Some(ItemStack::block(BlockType::Iron, 1)));
}

#[test]
fn stack_helpers() {
    let s = ItemStack::new(ItemType::Block(BlockType::Wood), 9);
    assert_eq!(s, ItemStack::block(BlockType::Wood, 9));
    assert_eq!(s.max_stack_size(), 64);
}

#[test]
fn starter_items() {
    let inv = ronincraft::inventory::starter_inventory();
    assert_eq!(inv.slots[0], Some(ItemStack::block(BlockType::Cobblestone, 64)));
    assert_eq!(inv.slots[1], Some(ItemStack::block(BlockType::Dirt, 64)));
    assert_eq!(inv.slots[2], Some(ItemStack::block(BlockType::Wood, 32)));
    assert_eq!(inv.slots[3], Some(ItemStack::block(BlockType::Sand, 32)));
    assert_eq!(inv.slots.iter().flatten().count(), 4);
}

#[test]
fn over_full_stack_after_the_items_run_out_is_left_alone() {
    let mut inv = Inventory::default();
    inv.slots[0] = Some(ItemStack::block(BlockType::Dirt, 60));
    inv.slots[5] = Some(ItemStack::block(BlockType::Dirt, 70));
    let stack = ItemStack::block(BlockType::Dirt, 3);
    assert!(inv.can_add_safely(stack));
    assert_eq!(inv.try_add(stack), None);
    assert_eq!(inv.slots[0], Some(ItemStack::block(BlockType::Dirt, 63)));
    assert_eq!(inv.slots[5], Some(ItemStack::block(BlockType::Dirt, 70)));
    // adding nothing never reaches a stack
    assert!(inv.can_add_safely(ItemStack::block(BlockType::Dirt, 0)));
}

#[test]
fn over_full_stack_reached_with_items_left_is_refused() {
    let mut inv = Inventory::default();
    inv.slots[0] = Some(ItemStack::block(BlockType::Dirt, 62));
    inv.slots[5] = Some(ItemStack::block(BlockType::Dirt, 70));
    assert!(!inv.can_add_safely(ItemStack::block(BlockType::Dirt, 3)));
    assert!(inv.can_add_safely(ItemStack::block(BlockType::Dirt, 2)));
    // other items are not affected by the over-full dirt stack
    assert!(inv.can_add_safely(ItemStack::block(BlockType::Sand, 100)));
}

#[test]
fn adding_fills_stacks_before_empty_slots_in_order() {
    let mut inv = Inventory::default();
    for i in 0..INVENTORY_SLOTS {
        if i != 4 && i != 20 {
            inv.slots[i] = Some(ItemStack::block(BlockType::Stone, 1));
        }
    }
    inv.slots[10] = Some(ItemStack::block(BlockType::Sand, 50));
    inv.slots[30] = Some(ItemStack::block(BlockType::Sand, 60));
    // 18 fill the two sand stacks, 64 go to slot 4, 8 to slot 20
    assert_eq!(inv.try_add(ItemStack::block(BlockType::Sand, 90)), None);
    assert_eq!(inv.slots[10], Some(ItemStack::block(BlockType::Sand, 64)));
    assert_eq!(inv.slots[30], Some(ItemStack::block(BlockType::Sand, 64)));
    assert_eq!(inv.slots[4], Some(ItemStack::block(BlockType::Sand, 64)));
    assert_eq!(inv.slots[20], Some(ItemStack::block(BlockType::Sand, 8)));
    // now full: what is left over comes back, and every sand stack is full
    let rest = inv.try_add(ItemStack::block(BlockType::Sand, 100));
    assert_eq!(rest, Some(ItemStack::block(BlockType::Sand, 44)));
    assert!(inv.slots.iter().all(|s| s.is_some()));
    assert!(inv.slots.iter().flatten().filter(|s| s.item == ItemType::Block(BlockType::Sand)).all(|s| s.count == 64));
}
