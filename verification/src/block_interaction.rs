use vstd::prelude::*;

use crate::chunk::{ChunkData, spec_get, spec_set};
use crate::inventory::{Inventory, INVENTORY_SLOTS, merge_safe, spec_try_add, count_of, room_for, lemma_add_conserves};
use crate::item::{ItemStack, ItemType, block_drop, spec_block_drop};
use crate::voxel::BlockType;

verus! {

/// Whether a block may not be placed at `place` because the player's body
/// occupies that cell: the body covers every cell from `body_min` to
/// `body_max` (the lowest and highest cells its box overlaps) on each axis.
pub open spec fn spec_placement_blocked(place: (i32, i32, i32), body_min: (i32, i32, i32), body_max: (i32, i32, i32)) -> bool {
    &&& body_min.0 <= place.0 <= body_max.0
    &&& body_min.1 <= place.1 <= body_max.1
    &&& body_min.2 <= place.2 <= body_max.2
}

/// Whether the player's own body is in the way of placing a block at `place`.
pub fn placement_blocked(place: (i32, i32, i32), body_min: (i32, i32, i32), body_max: (i32, i32, i32)) -> (r: bool)
    ensures
        r == spec_placement_blocked(place, body_min, body_max),
{
    body_min.0 <= place.0 && place.0 <= body_max.0 && body_min.1 <= place.1 && place.1 <= body_max.1
        && body_min.2 <= place.2 && place.2 <= body_max.2
}

/// Take one block out of the selected slot for placing: when the slot holds
/// blocks, one is removed and its kind returned; an empty slot, a slot of
/// food or a slot number past the end gives `None` and changes nothing.
pub fn take_placeable(inv: &mut Inventory, slot: usize) -> (r: Option<BlockType>)
    ensures
        slot < INVENTORY_SLOTS && (old(inv).slots@[slot as int] matches Some(st) && st.item is Block) ==> {
            let st = old(inv).slots@[slot as int]->0;
            let left = if st.count >= 1 { (st.count - 1) as u32 } else { 0u32 };
            &&& r == Some(st.item->Block_0)
            &&& final(inv).slots@ == old(inv).slots@.update(
                slot as int,
                if left == 0 { None } else { Some(ItemStack { item: st.item, count: left }) },
            )
        },
        !(slot < INVENTORY_SLOTS && (old(inv).slots@[slot as int] matches Some(st) && st.item is Block)) ==> {
            &&& r is None
            &&& final(inv).slots@ == old(inv).slots@
        },
{
    if slot >= INVENTORY_SLOTS {
        return None;
    }
    let stack = match inv.slots[slot] {
        Some(s) => s,
        None => return None,
    };
    let block_type = match stack.item {
        ItemType::Block(bt) => bt,
        _ => return None,
    };
    let _ = inv.remove_from_slot(slot, 1);
    Some(block_type)
}

/// Break the block at a local cell: the cell becomes air and what the block
/// drops is offered to the inventory. Returns the block that was there.
pub fn break_block(chunk: &mut ChunkData, x: usize, y: usize, z: usize, inv: &mut Inventory) -> (old_block: BlockType)
    requires
        old(chunk).wf(),
        spec_block_drop(spec_get(old(chunk)@, x as int, y as int, z as int)) matches Some(d)
            ==> merge_safe(old(inv).slots@, d.item, d.count as nat),
    ensures
        final(chunk).wf(),
        old_block == spec_get(old(chunk)@, x as int, y as int, z as int),
        final(chunk)@ == spec_set(old(chunk)@, x as int, y as int, z as int, BlockType::Air),
        spec_block_drop(old_block) is None ==> final(inv).slots@ == old(inv).slots@,
        spec_block_drop(old_block) matches Some(d)
            ==> final(inv).slots@ == spec_try_add(old(inv).slots@, d.item, d.count as nat).0,
{
    let old_block = chunk.get(x, y, z);
    chunk.set(x, y, z, BlockType::Air);
    if let Some(drop) = block_drop(old_block) {
        let _ = inv.try_add(drop);
    }
    old_block
}

/// A cell is refused exactly when it lies inside the body's box on every
/// axis: a cell before the box's lowest cell or past its highest cell on any
/// one axis is never refused, and every cell within the box is.
pub proof fn lemma_placement_inside_body(place: (i32, i32, i32), body_min: (i32, i32, i32), body_max: (i32, i32, i32))
    ensures
        place.0 < body_min.0 || place.0 > body_max.0 ==> !spec_placement_blocked(place, body_min, body_max),
        place.1 < body_min.1 || place.1 > body_max.1 ==> !spec_placement_blocked(place, body_min, body_max),
        place.2 < body_min.2 || place.2 > body_max.2 ==> !spec_placement_blocked(place, body_min, body_max),
        body_min.0 <= place.0 && place.0 <= body_max.0 && body_min.1 <= place.1 && place.1 <= body_max.1
            && body_min.2 <= place.2 && place.2 <= body_max.2 ==> spec_placement_blocked(place, body_min, body_max),
{
}

/// Both corner cells of the body's box are refused, and growing the box never
/// frees a refused cell.
pub proof fn lemma_placement_box_monotone(
    place: (i32, i32, i32),
    lo: (i32, i32, i32),
    hi: (i32, i32, i32),
    lo2: (i32, i32, i32),
    hi2: (i32, i32, i32),
)
    requires
        lo2.0 <= lo.0 && lo2.1 <= lo.1 && lo2.2 <= lo.2,
        hi.0 <= hi2.0 && hi.1 <= hi2.1 && hi.2 <= hi2.2,
    ensures
        lo.0 <= hi.0 && lo.1 <= hi.1 && lo.2 <= hi.2 ==> spec_placement_blocked(lo, lo, hi) && spec_placement_blocked(hi, lo, hi),
        spec_placement_blocked(place, lo, hi) ==> spec_placement_blocked(place, lo2, hi2),
{
}

/// Breaking any block other than air, water, bedrock and leaves, with room in
/// the inventory, adds exactly one item of what it drops (the block itself,
/// cobblestone for stone, dirt for grass) and leaves the cell as air.
pub proof fn lemma_break_gains_one(c: Seq<BlockType>, x: int, y: int, z: int, slots: Seq<Option<ItemStack>>)
    requires
        c.len() == crate::chunk::TOTAL_BLOCKS,
        crate::chunk::in_chunk(x, y, z),
        ({
            let b = spec_get(c, x, y, z);
            !(b == BlockType::Air || b == BlockType::Water || b == BlockType::Bedrock || b == BlockType::Leaves)
        }),
        room_for(slots, spec_block_drop(spec_get(c, x, y, z))->0.item) >= 1,
    ensures
        ({
            let b = spec_get(c, x, y, z);
            let kind = ItemType::Block(
                if b == BlockType::Stone { BlockType::Cobblestone } else if b == BlockType::Grass { BlockType::Dirt } else { b },
            );
            let d = spec_block_drop(b)->0;
            &&& spec_block_drop(b) is Some
            &&& d.item == kind
            &&& count_of(spec_try_add(slots, d.item, d.count as nat).0, kind) == count_of(slots, kind) + 1
            &&& spec_get(spec_set(c, x, y, z, BlockType::Air), x, y, z) == BlockType::Air
        }),
{
    let b = spec_get(c, x, y, z);
    crate::item::lemma_block_drop_law(b);
    let d = spec_block_drop(b)->0;
    lemma_add_conserves(slots, d.item, d.count as nat);
    crate::chunk::lemma_get_after_set(c, x, y, z, BlockType::Air);
}

} // verus!
