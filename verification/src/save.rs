use vstd::prelude::*;
use vstd::string::StringExecFns;

use crate::inventory::{Inventory, INVENTORY_SLOTS};
use crate::item::{FoodType, ItemStack, ItemType};
use crate::voxel::BlockType;

verus! {

/// The text an item is saved as: `block:` or `food:` followed by its name.
pub open spec fn spec_item_tag(item: ItemType) -> Seq<char> {
    match item {
        ItemType::Block(b) => match b {
            BlockType::Air => "block:Air"@,
            BlockType::Stone => "block:Stone"@,
            BlockType::Dirt => "block:Dirt"@,
            BlockType::Grass => "block:Grass"@,
            BlockType::Sand => "block:Sand"@,
            BlockType::Wood => "block:Wood"@,
            BlockType::Leaves => "block:Leaves"@,
            BlockType::Water => "block:Water"@,
            BlockType::Cobblestone => "block:Cobblestone"@,
            BlockType::Planks => "block:Planks"@,
            BlockType::Bedrock => "block:Bedrock"@,
            BlockType::Gravel => "block:Gravel"@,
            BlockType::Iron => "block:Iron"@,
            BlockType::Coal => "block:Coal"@,
            BlockType::Snow => "block:Snow"@,
        },
        ItemType::Food(f) => match f {
            FoodType::RawPork => "food:RawPork"@,
        },
    }
}

/// Items that a save file can restore: every item but air, water and bedrock blocks.
pub open spec fn restorable(item: ItemType) -> bool {
    !(item == ItemType::Block(BlockType::Air) || item == ItemType::Block(BlockType::Water)
        || item == ItemType::Block(BlockType::Bedrock))
}

/// The item a saved text names, if it names one that can be restored.
pub open spec fn spec_parse_item_tag(tag: Seq<char>) -> Option<ItemType> {
    if tag == "block:Stone"@ { Some(ItemType::Block(BlockType::Stone)) }
    else if tag == "block:Dirt"@ { Some(ItemType::Block(BlockType::Dirt)) }
    else if tag == "block:Grass"@ { Some(ItemType::Block(BlockType::Grass)) }
    else if tag == "block:Sand"@ { Some(ItemType::Block(BlockType::Sand)) }
    else if tag == "block:Wood"@ { Some(ItemType::Block(BlockType::Wood)) }
    else if tag == "block:Leaves"@ { Some(ItemType::Block(BlockType::Leaves)) }
    else if tag == "block:Cobblestone"@ { Some(ItemType::Block(BlockType::Cobblestone)) }
    else if tag == "block:Planks"@ { Some(ItemType::Block(BlockType::Planks)) }
    else if tag == "block:Gravel"@ { Some(ItemType::Block(BlockType::Gravel)) }
    else if tag == "block:Iron"@ { Some(ItemType::Block(BlockType::Iron)) }
    else if tag == "block:Coal"@ { Some(ItemType::Block(BlockType::Coal)) }
    else if tag == "block:Snow"@ { Some(ItemType::Block(BlockType::Snow)) }
    else if tag == "food:RawPork"@ { Some(ItemType::Food(FoodType::RawPork)) }
    else { None }
}

/// The text an item is saved as.
pub fn item_tag(item: ItemType) -> (tag: String)
    ensures
        tag@ == spec_item_tag(item),
{
    let s: &str = match item {
        ItemType::Block(b) => match b {
            BlockType::Air => "block:Air",
            BlockType::Stone => "block:Stone",
            BlockType::Dirt => "block:Dirt",
            BlockType::Grass => "block:Grass",
            BlockType::Sand => "block:Sand",
            BlockType::Wood => "block:Wood",
            BlockType::Leaves => "block:Leaves",
            BlockType::Water => "block:Water",
            BlockType::Cobblestone => "block:Cobblestone",
            BlockType::Planks => "block:Planks",
            BlockType::Bedrock => "block:Bedrock",
            BlockType::Gravel => "block:Gravel",
            BlockType::Iron => "block:Iron",
            BlockType::Coal => "block:Coal",
            BlockType::Snow => "block:Snow",
        },
        ItemType::Food(f) => match f {
            FoodType::RawPork => "food:RawPork",
        },
    };
    String::from_str(s)
}

fn tag_is(tag: &String, lit: &str) -> (r: bool)
    ensures
        r == (tag@ == lit@),
{
    *tag == String::from_str(lit)
}

/// The item a saved text names: `block:` with the name of a block other than
/// air, water or bedrock, or `food:RawPork`; anything else gives `None`.
pub fn parse_item_tag(tag: &str) -> (item: Option<ItemType>)
    ensures
        item == spec_parse_item_tag(tag@),
{
    let t = String::from_str(tag);
    if tag_is(&t, "block:Stone") { Some(ItemType::Block(BlockType::Stone)) }
    else if tag_is(&t, "block:Dirt") { Some(ItemType::Block(BlockType::Dirt)) }
    else if tag_is(&t, "block:Grass") { Some(ItemType::Block(BlockType::Grass)) }
    else if tag_is(&t, "block:Sand") { Some(ItemType::Block(BlockType::Sand)) }
    else if tag_is(&t, "block:Wood") { Some(ItemType::Block(BlockType::Wood)) }
    else if tag_is(&t, "block:Leaves") { Some(ItemType::Block(BlockType::Leaves)) }
    else if tag_is(&t, "block:Cobblestone") { Some(ItemType::Block(BlockType::Cobblestone)) }
    else if tag_is(&t, "block:Planks") { Some(ItemType::Block(BlockType::Planks)) }
    else if tag_is(&t, "block:Gravel") { Some(ItemType::Block(BlockType::Gravel)) }
    else if tag_is(&t, "block:Iron") { Some(ItemType::Block(BlockType::Iron)) }
    else if tag_is(&t, "block:Coal") { Some(ItemType::Block(BlockType::Coal)) }
    else if tag_is(&t, "block:Snow") { Some(ItemType::Block(BlockType::Snow)) }
    else if tag_is(&t, "food:RawPork") { Some(ItemType::Food(FoodType::RawPork)) }
    else { None }
}

/// Reading back the text of a restorable item gives the item; the text of
/// air, water or bedrock reads back as nothing.
pub proof fn lemma_item_tag_roundtrip(item: ItemType)
    ensures
        restorable(item) ==> spec_parse_item_tag(spec_item_tag(item)) == Some(item),
        !restorable(item) ==> spec_parse_item_tag(spec_item_tag(item)) is None,
{
    reveal_strlit("block:Air");
    reveal_strlit("block:Stone");
    reveal_strlit("block:Dirt");
    reveal_strlit("block:Grass");
    reveal_strlit("block:Sand");
    reveal_strlit("block:Wood");
    reveal_strlit("block:Leaves");
    reveal_strlit("block:Water");
    reveal_strlit("block:Cobblestone");
    reveal_strlit("block:Planks");
    reveal_strlit("block:Bedrock");
    reveal_strlit("block:Gravel");
    reveal_strlit("block:Iron");
    reveal_strlit("block:Coal");
    reveal_strlit("block:Snow");
    reveal_strlit("food:RawPork");
    match item {
        ItemType::Block(BlockType::Air) => {
            assert("block:Air"@.len() != "block:Stone"@.len());
            assert("block:Air"@.len() != "block:Dirt"@.len());
            assert("block:Air"@.len() != "block:Grass"@.len());
            assert("block:Air"@.len() != "block:Sand"@.len());
            assert("block:Air"@.len() != "block:Wood"@.len());
            assert("block:Air"@.len() != "block:Leaves"@.len());
            assert("block:Air"@.len() != "block:Cobblestone"@.len());
            assert("block:Air"@.len() != "block:Planks"@.len());
            assert("block:Air"@.len() != "block:Gravel"@.len());
            assert("block:Air"@.len() != "block:Iron"@.len());
            assert("block:Air"@.len() != "block:Coal"@.len());
            assert("block:Air"@.len() != "block:Snow"@.len());
            assert("block:Air"@.len() != "food:RawPork"@.len());
        },
        ItemType::Block(BlockType::Stone) => {
        },
        ItemType::Block(BlockType::Dirt) => {
            assert("block:Dirt"@.len() != "block:Stone"@.len());
        },
        ItemType::Block(BlockType::Grass) => {
            assert("block:Grass"@[6] != "block:Stone"@[6]);
            assert("block:Grass"@.len() != "block:Dirt"@.len());
        },
        ItemType::Block(BlockType::Sand) => {
            assert("block:Sand"@.len() != "block:Stone"@.len());
            assert("block:Sand"@[6] != "block:Dirt"@[6]);
            assert("block:Sand"@.len() != "block:Grass"@.len());
        },
        ItemType::Block(BlockType::Wood) => {
            assert("block:Wood"@.len() != "block:Stone"@.len());
            assert("block:Wood"@[6] != "block:Dirt"@[6]);
            assert("block:Wood"@.len() != "block:Grass"@.len());
            assert("block:Wood"@[6] != "block:Sand"@[6]);
        },
        ItemType::Block(BlockType::Leaves) => {
            assert("block:Leaves"@.len() != "block:Stone"@.len());
            assert("block:Leaves"@.len() != "block:Dirt"@.len());
            assert("block:Leaves"@.len() != "block:Grass"@.len());
            assert("block:Leaves"@.len() != "block:Sand"@.len());
            assert("block:Leaves"@.len() != "block:Wood"@.len());
        },
        ItemType::Block(BlockType::Water) => {
            assert("block:Water"@[6] != "block:Stone"@[6]);
            assert("block:Water"@.len() != "block:Dirt"@.len());
            assert("block:Water"@[6] != "block:Grass"@[6]);
            assert("block:Water"@.len() != "block:Sand"@.len());
            assert("block:Water"@.len() != "block:Wood"@.len());
            assert("block:Water"@.len() != "block:Leaves"@.len());
            assert("block:Water"@.len() != "block:Cobblestone"@.len());
            assert("block:Water"@.len() != "block:Planks"@.len());
            assert("block:Water"@.len() != "block:Gravel"@.len());
            assert("block:Water"@.len() != "block:Iron"@.len());
            assert("block:Water"@.len() != "block:Coal"@.len());
            assert("block:Water"@.len() != "block:Snow"@.len());
            assert("block:Water"@.len() != "food:RawPork"@.len());
        },
        ItemType::Block(BlockType::Cobblestone) => {
            assert("block:Cobblestone"@.len() != "block:Stone"@.len());
            assert("block:Cobblestone"@.len() != "block:Dirt"@.len());
            assert("block:Cobblestone"@.len() != "block:Grass"@.len());
            assert("block:Cobblestone"@.len() != "block:Sand"@.len());
            assert("block:Cobblestone"@.len() != "block:Wood"@.len());
            assert("block:Cobblestone"@.len() != "block:Leaves"@.len());
        },
        ItemType::Block(BlockType::Planks) => {
            assert("block:Planks"@.len() != "block:Stone"@.len());
            assert("block:Planks"@.len() != "block:Dirt"@.len());
            assert("block:Planks"@.len() != "block:Grass"@.len());
            assert("block:Planks"@.len() != "block:Sand"@.len());
            assert("block:Planks"@.len() != "block:Wood"@.len());
            assert("block:Planks"@[6] != "block:Leaves"@[6]);
            assert("block:Planks"@.len() != "block:Cobblestone"@.len());
        },
        ItemType::Block(BlockType::Bedrock) => {
            assert("block:Bedrock"@.len() != "block:Stone"@.len());
            assert("block:Bedrock"@.len() != "block:Dirt"@.len());
            assert("block:Bedrock"@.len() != "block:Grass"@.len());
            assert("block:Bedrock"@.len() != "block:Sand"@.len());
            assert("block:Bedrock"@.len() != "block:Wood"@.len());
            assert("block:Bedrock"@.len() != "block:Leaves"@.len());
            assert("block:Bedrock"@.len() != "block:Cobblestone"@.len());
            assert("block:Bedrock"@.len() != "block:Planks"@.len());
            assert("block:Bedrock"@.len() != "block:Gravel"@.len());
            assert("block:Bedrock"@.len() != "block:Iron"@.len());
            assert("block:Bedrock"@.len() != "block:Coal"@.len());
            assert("block:Bedrock"@.len() != "block:Snow"@.len());
            assert("block:Bedrock"@.len() != "food:RawPork"@.len());
        },
        ItemType::Block(BlockType::Gravel) => {
            assert("block:Gravel"@.len() != "block:Stone"@.len());
            assert("block:Gravel"@.len() != "block:Dirt"@.len());
            assert("block:Gravel"@.len() != "block:Grass"@.len());
            assert("block:Gravel"@.len() != "block:Sand"@.len());
            assert("block:Gravel"@.len() != "block:Wood"@.len());
            assert("block:Gravel"@[6] != "block:Leaves"@[6]);
            assert("block:Gravel"@.len() != "block:Cobblestone"@.len());
            assert("block:Gravel"@[6] != "block:Planks"@[6]);
        },
        ItemType::Block(BlockType::Iron) => {
            assert("block:Iron"@.len() != "block:Stone"@.len());
            assert("block:Iron"@[6] != "block:Dirt"@[6]);
            assert("block:Iron"@.len() != "block:Grass"@.len());
            assert("block:Iron"@[6] != "block:Sand"@[6]);
            assert("block:Iron"@[6] != "block:Wood"@[6]);
            assert("block:Iron"@.len() != "block:Leaves"@.len());
            assert("block:Iron"@.len() != "block:Cobblestone"@.len());
            assert("block:Iron"@.len() != "block:Planks"@.len());
            assert("block:Iron"@.len() != "block:Gravel"@.len());
        },
        ItemType::Block(BlockType::Coal) => {
            assert("block:Coal"@.len() != "block:Stone"@.len());
            assert("block:Coal"@[6] != "block:Dirt"@[6]);
            assert("block:Coal"@.len() != "block:Grass"@.len());
            assert("block:Coal"@[6] != "block:Sand"@[6]);
            assert("block:Coal"@[6] != "block:Wood"@[6]);
            assert("block:Coal"@.len() != "block:Leaves"@.len());
            assert("block:Coal"@.len() != "block:Cobblestone"@.len());
            assert("block:Coal"@.len() != "block:Planks"@.len());
            assert("block:Coal"@.len() != "block:Gravel"@.len());
            assert("block:Coal"@[6] != "block:Iron"@[6]);
        },
        ItemType::Block(BlockType::Snow) => {
            assert("block:Snow"@.len() != "block:Stone"@.len());
            assert("block:Snow"@[6] != "block:Dirt"@[6]);
            assert("block:Snow"@.len() != "block:Grass"@.len());
            assert("block:Snow"@[7] != "block:Sand"@[7]);
            assert("block:Snow"@[6] != "block:Wood"@[6]);
            assert("block:Snow"@.len() != "block:Leaves"@.len());
            assert("block:Snow"@.len() != "block:Cobblestone"@.len());
            assert("block:Snow"@.len() != "block:Planks"@.len());
            assert("block:Snow"@.len() != "block:Gravel"@.len());
            assert("block:Snow"@[6] != "block:Iron"@[6]);
            assert("block:Snow"@[6] != "block:Coal"@[6]);
        },
        ItemType::Food(FoodType::RawPork) => {
            assert("food:RawPork"@.len() != "block:Stone"@.len());
            assert("food:RawPork"@.len() != "block:Dirt"@.len());
            assert("food:RawPork"@.len() != "block:Grass"@.len());
            assert("food:RawPork"@.len() != "block:Sand"@.len());
            assert("food:RawPork"@.len() != "block:Wood"@.len());
            assert("food:RawPork"@[0] != "block:Leaves"@[0]);
            assert("food:RawPork"@.len() != "block:Cobblestone"@.len());
            assert("food:RawPork"@[0] != "block:Planks"@[0]);
            assert("food:RawPork"@[0] != "block:Gravel"@[0]);
            assert("food:RawPork"@.len() != "block:Iron"@.len());
            assert("food:RawPork"@.len() != "block:Coal"@.len());
            assert("food:RawPork"@.len() != "block:Snow"@.len());
        },
    }
}

/// One filled inventory slot as written to a save file.
pub struct SavedSlot {
    pub index: usize,
    pub item_tag: String,
    pub count: u32,
}

/// A saved slot as plain values: slot number, item text and count.
pub open spec fn entry(s: SavedSlot) -> (int, Seq<char>, u32) {
    (s.index as int, s.item_tag@, s.count)
}

/// The saved form of the first `n` slots: one entry per filled slot, in slot order.
pub open spec fn saved_entries(slots: Seq<Option<ItemStack>>, n: nat) -> Seq<(int, Seq<char>, u32)>
    decreases n,
{
    if n == 0 {
        seq![]
    } else {
        let p = saved_entries(slots, (n - 1) as nat);
        match slots[n - 1] {
            Some(st) => p.push(((n - 1) as int, spec_item_tag(st.item), st.count)),
            None => p,
        }
    }
}

/// Slots rebuilt from saved entries, starting from an empty inventory: each
/// entry with a slot number in range and a readable item text fills its slot,
/// later entries overriding earlier ones.
pub open spec fn apply_entries(es: Seq<(int, Seq<char>, u32)>) -> Seq<Option<ItemStack>>
    decreases es.len(),
{
    if es.len() == 0 {
        Seq::new(INVENTORY_SLOTS as nat, |i: int| None)
    } else {
        let p = apply_entries(es.drop_last());
        let e = es.last();
        if 0 <= e.0 < INVENTORY_SLOTS && spec_parse_item_tag(e.1) is Some {
            p.update(e.0, Some(ItemStack { item: spec_parse_item_tag(e.1)->0, count: e.2 }))
        } else {
            p
        }
    }
}

proof fn lemma_apply_entries_len(es: Seq<(int, Seq<char>, u32)>)
    ensures
        apply_entries(es).len() == INVENTORY_SLOTS,
    decreases es.len(),
{
    if es.len() > 0 {
        lemma_apply_entries_len(es.drop_last());
    }
}

/// The filled slots of an inventory, in slot order, ready to be saved.
pub fn save_inventory(inv: &Inventory) -> (saved: Vec<SavedSlot>)
    ensures
        saved@.map_values(|s: SavedSlot| entry(s)) == saved_entries(inv.slots@, INVENTORY_SLOTS as nat),
{
    let mut saved: Vec<SavedSlot> = Vec::new();
    let mut i: usize = 0;
    while i < INVENTORY_SLOTS
        invariant
            i <= INVENTORY_SLOTS,
            saved@.map_values(|s: SavedSlot| entry(s)) == saved_entries(inv.slots@, i as nat),
        decreases INVENTORY_SLOTS - i,
    {
        let ghost before = saved@;
        if let Some(stack) = inv.slots[i] {
            saved.push(SavedSlot { index: i, item_tag: item_tag(stack.item), count: stack.count });
            assert(saved@.map_values(|s: SavedSlot| entry(s)) =~= before.map_values(|s: SavedSlot| entry(s)).push(
                (i as int, spec_item_tag(stack.item), stack.count),
            ));
        }
        i += 1;
    }
    saved
}

/// Rebuild an inventory from saved slots: every slot starts empty, and each
/// saved slot with a slot number in range and a readable item text is filled.
pub fn restore_inventory(saved: &Vec<SavedSlot>) -> (inv: Inventory)
    ensures
        inv.slots@ == apply_entries(saved@.map_values(|s: SavedSlot| entry(s))),
{
    let mut inv = Inventory { slots: [None; 36] };
    assert(inv.slots@ =~= apply_entries(saved@.map_values(|s: SavedSlot| entry(s)).take(0)));
    let mut i: usize = 0;
    while i < saved.len()
        invariant
            i <= saved@.len(),
            inv.slots@ == apply_entries(saved@.map_values(|s: SavedSlot| entry(s)).take(i as int)),
        decreases saved@.len() - i,
    {
        let ghost es = saved@.map_values(|s: SavedSlot| entry(s));
        assert(es.take(i + 1).drop_last() =~= es.take(i as int));
        assert(es.take(i + 1).last() == entry(saved@[i as int]));
        proof {
            lemma_apply_entries_len(es.take(i as int));
        }
        let slot = &saved[i];
        if slot.index < INVENTORY_SLOTS {
            if let Some(item) = parse_item_tag(slot.item_tag.as_str()) {
                inv.slots[slot.index] = Some(ItemStack { item, count: slot.count });
            }
        }
        i += 1;
    }
    assert(saved@.map_values(|s: SavedSlot| entry(s)).take(saved@.len() as int) =~= saved@.map_values(
        |s: SavedSlot| entry(s),
    ));
    inv
}

proof fn lemma_restore_saved_prefix(slots: Seq<Option<ItemStack>>, n: nat)
    requires
        slots.len() == INVENTORY_SLOTS,
        n <= INVENTORY_SLOTS,
        forall|i: int| 0 <= i < INVENTORY_SLOTS ==> ((#[trigger] slots[i]) matches Some(st) ==> restorable(st.item)),
    ensures
        apply_entries(saved_entries(slots, n)) == Seq::new(INVENTORY_SLOTS as nat, |i: int| if i < n { slots[i] } else { None }),
    decreases n,
{
    if n > 0 {
        lemma_restore_saved_prefix(slots, (n - 1) as nat);
        let p = saved_entries(slots, (n - 1) as nat);
        match slots[n - 1] {
            Some(st) => {
                let es = p.push(((n - 1) as int, spec_item_tag(st.item), st.count));
                assert(es.drop_last() =~= p);
                lemma_item_tag_roundtrip(st.item);
            },
            None => {},
        }
        assert(apply_entries(saved_entries(slots, n)) =~= Seq::new(
            INVENTORY_SLOTS as nat,
            |i: int| if i < n { slots[i] } else { None },
        ));
    } else {
        assert(apply_entries(saved_entries(slots, n)) =~= Seq::new(
            INVENTORY_SLOTS as nat,
            |i: int| if i < n { slots[i] } else { None },
        ));
    }
}

/// Restoring the saved slots of an inventory gives back the same slots, as
/// long as every item in it is one a save file can restore.
pub proof fn lemma_inventory_save_restore(slots: Seq<Option<ItemStack>>)
    requires
        slots.len() == INVENTORY_SLOTS,
        forall|i: int| 0 <= i < INVENTORY_SLOTS ==> ((#[trigger] slots[i]) matches Some(st) ==> restorable(st.item)),
    ensures
        apply_entries(saved_entries(slots, INVENTORY_SLOTS as nat)) == slots,
{
    lemma_restore_saved_prefix(slots, INVENTORY_SLOTS as nat);
    assert(apply_entries(saved_entries(slots, INVENTORY_SLOTS as nat)) =~= slots);
}

} // verus!
