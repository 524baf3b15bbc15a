use ronincraft::crafting::{CraftingGrid, RecipeRegistry};
use ronincraft::hotbar::{HotbarSelection, ScrollDirection};
use ronincraft::item::{ItemStack, ItemType};
use ronincraft::voxel::BlockType;

fn registry() -> RecipeRegistry {
    let mut r = RecipeRegistry::default();
    r.register_defaults();
    r
}

fn b(bt: BlockType) -> Option<ItemType> {
    Some(ItemType::Block(bt))
}

#[test]
fn defaults_register_six_recipes() {
    let r = registry();
    assert_eq!(r.recipes.len(), 6);
    assert!(RecipeRegistry::default().recipes.is_empty());
}

#[test]
fn wood_in_any_cell_makes_planks() {
    let r = registry();
    let w = b(BlockType::Wood);
    for g in [[[w, None], [None, None]], [[None, w], [None, None]], [[None, None], [w, None]], [[None, None], [None, w]]] {
        let m = r.find_match(&g).expect("recipe");
        assert_eq!(m.result, ItemStack::block(BlockType::Planks, 4));
    }
}

#[test]
fn block_squares() {
    let r = registry();
    let c = b(BlockType::Cobblestone);
    assert_eq!(r.find_match(&[[c, c], [c, c]]).unwrap().result, ItemStack::block(BlockType::Stone, 1));
    let s = b(BlockType::Sand);
    assert_eq!(r.find_match(&[[s, s], [s, s]]).unwrap().result, ItemStack::block(BlockType::Cobblestone, 4));
}

#[test]
fn no_recipe_matches() {
    let r = registry();
    let w = b(BlockType::Wood);
    assert!(r.find_match(&[[w, w], [None, None]]).is_none());
    assert!(r.find_match(&[[None, None], [None, None]]).is_none());
    let c = b(BlockType::Cobblestone);
    assert!(r.find_match(&[[c, c], [c, None]]).is_none());
}

#[test]
fn crafting_consumes_one_of_each_input() {
    let r = registry();
    let mut grid = CraftingGrid::default();
    grid.slots[2] = Some(ItemStack::block(BlockType::Wood, 3));
    let mut cursor = None;
    assert!(grid.craft(&r, &mut cursor));
    assert_eq!(cursor, Some(ItemStack::block(BlockType::Planks, 4)));
    assert_eq!(grid.slots[2], Some(ItemStack::block(BlockType::Wood, 2)));
    assert!(grid.craft(&r, &mut cursor));
    assert_eq!(cursor, Some(ItemStack::block(BlockType::Planks, 8)));
    assert!(grid.craft(&r, &mut cursor));
    assert_eq!(grid.slots[2], None);
    assert!(!grid.craft(&r, &mut cursor));
    assert_eq!(cursor, Some(ItemStack::block(BlockType::Planks, 12)));
}

#[test]
fn crafting_needs_room_on_the_cursor() {
    let r = registry();
    let mut grid = CraftingGrid::default();
    for i in 0..4 {
        grid.slots[i] = Some(ItemStack::block(BlockType::Cobblestone, 1));
    }
    let mut cursor = Some(ItemStack::block(BlockType::Dirt, 1));
    assert!(!grid.craft(&r, &mut cursor));
    assert_eq!(cursor, Some(ItemStack::block(BlockType::Dirt, 1)));
    let mut cursor = Some(ItemStack::block(BlockType::Stone, 64));
    assert!(!grid.craft(&r, &mut cursor));
    let mut cursor = Some(ItemStack::block(BlockType::Stone, 63));
    assert!(grid.craft(&r, &mut cursor));
    assert_eq!(cursor, Some(ItemStack::block(BlockType::Stone, 64)));
    assert!(grid.slots.iter().all(|s| s.is_none()));
}

#[test]
fn pattern_of_the_grid() {
    let mut grid = CraftingGrid::default();
    grid.slots[1] = Some(ItemStack::block(BlockType::Sand, 7));
    let p = grid.pattern();
    assert_eq!(p, [[None, b(BlockType::Sand)], [None, None]]);
}

#[test]
fn clicking_a_crafting_cell_swaps_with_cursor() {
    let mut grid = CraftingGrid::default();
    let mut cursor = Some(ItemStack::block(BlockType::Wood, 1));
    grid.click_slot(3, &mut cursor);
    assert_eq!(cursor, None);
    assert_eq!(grid.slots[3], Some(ItemStack::block(BlockType::Wood, 1)));
}

#[test]
fn hotbar_keys_and_wheel() {
    let mut h = HotbarSelection::default();
    assert_eq!(h.selected, 0);
    h.apply_input(None, ScrollDirection::Up);
    assert_eq!(h.selected, 8);
    h.apply_input(None, ScrollDirection::Down);
    assert_eq!(h.selected, 0);
    h.apply_input(None, ScrollDirection::Down);
    assert_eq!(h.selected, 1);
    h.apply_input(Some(6), ScrollDirection::Down);
    assert_eq!(h.selected, 6);
    h.apply_input(None, ScrollDirection::Still);
    assert_eq!(h.selected, 6);
}

#[test]
fn hotbar_restore_caps_at_last_slot() {
    assert_eq!(HotbarSelection::restore(3).selected, 3);
    assert_eq!(HotbarSelection::restore(8).selected, 8);
    assert_eq!(HotbarSelection::restore(40).selected, 8);
}
