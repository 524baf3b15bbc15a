use ronincraft::inventory::Inventory;
use ronincraft::item::{FoodType, ItemStack, ItemType};
use ronincraft::save::{item_tag, parse_item_tag, restore_inventory, save_inventory, SavedSlot};
use ronincraft::voxel::BlockType;

#[test]
fn item_tags() {
    assert_eq!(item_tag(ItemType::Block(BlockType::Stone)), "block:Stone");
    assert_eq!(item_tag(ItemType::Block(BlockType::Cobblestone)), "block:Cobblestone");
    assert_eq!(item_tag(ItemType::Food(FoodType::RawPork)), "food:RawPork");
}

#[test]
fn parse_tags() {
    assert_eq!(parse_item_tag("block:Snow"), Some(ItemType::Block(BlockType::Snow)));
    assert_eq!(parse_item_tag("food:RawPork"), Some(ItemType::Food(FoodType::RawPork)));
    assert_eq!(parse_item_tag("block:Bedrock"), None);
    assert_eq!(parse_item_tag("block:Air"), None);
    assert_eq!(parse_item_tag("block:Water"), None);
    assert_eq!(parse_item_tag("block:stone"), None);
    assert_eq!(parse_item_tag("Stone"), None);
    assert_eq!(parse_item_tag("food:Apple"), None);
    assert_eq!(parse_item_tag(""), None);
}

#[test]
fn tag_roundtrip() {
    let blocks = [
        BlockType::Stone, BlockType::Dirt, BlockType::Grass, BlockType::Sand, BlockType::Wood, BlockType::Leaves,
        BlockType::Cobblestone, BlockType::Planks, BlockType::Gravel, BlockType::Iron, BlockType::Coal, BlockType::Snow,
    ];
    for b in blocks {
        let it = ItemType::Block(b);
        assert_eq!(parse_item_tag(&item_tag(it)), Some(it));
    }
    let pork = ItemType::Food(FoodType::RawPork);
    assert_eq!(parse_item_tag(&item_tag(pork)), Some(pork));
}

#[test]
fn inventory_save_and_restore() {
    let mut inv = Inventory::default();
    inv.slots[0] = Some(ItemStack::block(BlockType::Cobblestone, 64));
    inv.slots[1] = Some(ItemStack::block(BlockType::Dirt, 64));
    inv.slots[2] = Some(ItemStack::block(BlockType::Wood, 32));
    inv.slots[35] = Some(ItemStack::new(ItemType::Food(FoodType::RawPork), 2));
    let saved = save_inventory(&inv);
    assert_eq!(saved.len(), 4);
    assert_eq!(saved[3].index, 35);
    assert_eq!(saved[3].item_tag, "food:RawPork");
    assert_eq!(saved[2].count, 32);
    let back = restore_inventory(&saved);
    assert_eq!(back.slots, inv.slots);
}

#[test]
fn restore_skips_bad_entries() {
    let saved = vec![
        SavedSlot { index: 3, item_tag: "block:Iron".to_string(), count: 5 },
        SavedSlot { index: 36, item_tag: "block:Iron".to_string(), count: 5 },
        SavedSlot { index: 4, item_tag: "block:Unobtainium".to_string(), count: 5 },
        SavedSlot { index: 3, item_tag: "block:Coal".to_string(), count: 9 },
    ];
    let inv = restore_inventory(&saved);
    assert_eq!(inv.slots[3], Some(ItemStack::block(BlockType::Coal, 9)));
    assert_eq!(inv.slots[4], None);
    assert_eq!(inv.slots.iter().flatten().count(), 1);
}

#[test]
fn unrestorable_items_are_lost() {
    let mut inv = Inventory::default();
    inv.slots[0] = Some(ItemStack::block(BlockType::Bedrock, 1));
    let back = restore_inventory(&save_inventory(&inv));
    assert_eq!(back.slots[0], None);
}
