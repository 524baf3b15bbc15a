use ronincraft::block_interaction::{break_block, placement_blocked, take_placeable};
use ronincraft::chunk::ChunkData;
use ronincraft::chunk_manager::{chunks_to_generate, chunks_to_unload};
use ronincraft::inventory::Inventory;
use ronincraft::item::{FoodType, ItemStack, ItemType};
use ronincraft::voxel::BlockType;

#[test]
fn first_chunks_to_generate() {
    let got = chunks_to_generate((0, 0), &vec![], 0);
    assert_eq!(got, vec![(-8, 0), (-7, -3), (-7, -2), (-7, -1)]);
    let got = chunks_to_generate((0, 0), &vec![(-7, -3)], 2);
    assert_eq!(got, vec![(-8, 0), (-7, -2)]);
    assert!(chunks_to_generate((0, 0), &vec![], 4).is_empty());
    assert!(chunks_to_generate((0, 0), &vec![], 9).is_empty());
}

#[test]
fn generation_finishes_when_everything_is_loaded() {
    let mut loaded = Vec::new();
    loop {
        let next = chunks_to_generate((3, -2), &loaded, 0);
        if next.is_empty() {
            break;
        }
        assert!(next.len() <= 4);
        loaded.extend(next);
    }
    // the render circle of radius 8 holds 197 chunks
    assert_eq!(loaded.len(), 197);
    assert!(chunks_to_unload((3, -2), &loaded).is_empty());
}

#[test]
fn far_chunks_unload() {
    let loaded = vec![(11, 0), (10, 0), (7, 7), (8, 7), (-100, 50)];
    assert_eq!(chunks_to_unload((0, 0), &loaded), vec![(11, 0), (8, 7), (-100, 50)]);
    assert_eq!(chunks_to_unload((i32::MAX, 0), &vec![(i32::MIN, 0)]), vec![(i32::MIN, 0)]);
}

#[test]
fn placing_inside_the_player_is_refused() {
    // a player at (1.5, 64.0, 1.5) covers cells (1, 64..=65, 1)
    let (lo, hi) = ((1, 64, 1), (1, 65, 1));
    assert!(placement_blocked((1, 64, 1), lo, hi));
    assert!(placement_blocked((1, 65, 1), lo, hi));
    assert!(!placement_blocked((1, 66, 1), lo, hi));
    assert!(!placement_blocked((1, 63, 1), lo, hi));
    assert!(!placement_blocked((2, 64, 1), lo, hi));
    // a player at (5.9, 64.0, 5.5) also reaches into the cells east of it
    let (lo, hi) = ((5, 64, 5), (6, 65, 5));
    assert!(placement_blocked((6, 64, 5), lo, hi));
    assert!(placement_blocked((6, 65, 5), lo, hi));
    assert!(!placement_blocked((6, 64, 6), lo, hi));
    assert!(!placement_blocked((4, 64, 5), lo, hi));
}

#[test]
fn placing_uses_up_blocks() {
    let mut inv = Inventory::default();
    inv.slots[0] = Some(ItemStack::block(BlockType::Dirt, 2));
    inv.slots[1] = Some(ItemStack::new(ItemType::Food(FoodType::RawPork), 1));
    assert_eq!(take_placeable(&mut inv, 0), Some(BlockType::Dirt));
    assert_eq!(inv.slots[0], Some(ItemStack::block(BlockType::Dirt, 1)));
    assert_eq!(take_placeable(&mut inv, 0), Some(BlockType::Dirt));
    assert_eq!(inv.slots[0], None);
    assert_eq!(take_placeable(&mut inv, 0), None);
    assert_eq!(take_placeable(&mut inv, 1), None);
    assert_eq!(inv.slots[1], Some(ItemStack::new(ItemType::Food(FoodType::RawPork), 1)));
    assert_eq!(take_placeable(&mut inv, 40), None);
}

#[test]
fn breaking_collects_the_drop() {
    let mut c = ChunkData::new_air();
    c.set(2, 10, 2, BlockType::Stone);
    c.set(3, 10, 2, BlockType::Leaves);
    let mut inv = Inventory::default();
    assert_eq!(break_block(&mut c, 2, 10, 2, &mut inv), BlockType::Stone);
    assert_eq!(c.get(2, 10, 2), BlockType::Air);
    assert_eq!(inv.slots[0], Some(ItemStack::block(BlockType::Cobblestone, 1)));
    assert_eq!(break_block(&mut c, 3, 10, 2, &mut inv), BlockType::Leaves);
    assert_eq!(inv.slots[1], None);
    assert_eq!(break_block(&mut c, 2, 10, 2, &mut inv), BlockType::Air);
    assert_eq!(inv.slots[0], Some(ItemStack::block(BlockType::Cobblestone, 1)));
}
