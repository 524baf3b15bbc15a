use vstd::prelude::*;

use crate::voxel::BlockType;

verus! {

/// Food that can be carried.
#[derive(Clone, Copy, PartialEq, Eq, Structural, Debug, Hash)]
pub enum FoodType {
    RawPork,
}

/// Anything that can sit in an inventory slot.
#[derive(Clone, Copy, PartialEq, Eq, Structural, Debug, Hash)]
pub enum ItemType {
    Block(BlockType),
    Food(FoodType),
}

/// A number of items of one kind.
#[derive(Clone, Copy, PartialEq, Eq, Structural, Debug)]
pub struct ItemStack {
    pub item: ItemType,
    pub count: u32,
}

/// The most items one slot can hold.
pub const MAX_STACK: u32 = 64;

/// What breaking a block yields: air, water, bedrock and leaves give nothing,
/// stone gives cobblestone, grass gives dirt, every other block gives itself.
pub open spec fn spec_block_drop(block: BlockType) -> Option<ItemStack> {
    match block {
        BlockType::Air | BlockType::Water | BlockType::Bedrock | BlockType::Leaves => None,
        BlockType::Stone => Some(ItemStack { item: ItemType::Block(BlockType::Cobblestone), count: 1 }),
        BlockType::Grass => Some(ItemStack { item: ItemType::Block(BlockType::Dirt), count: 1 }),
        other => Some(ItemStack { item: ItemType::Block(other), count: 1 }),
    }
}

impl ItemStack {
    /// A stack of `count` items of kind `item`.
    pub fn new(item: ItemType, count: u32) -> (s: ItemStack)
        ensures
            s == (ItemStack { item, count }),
    {
        ItemStack { item, count }
    }

    /// A stack of `count` blocks of kind `block`.
    pub fn block(block: BlockType, count: u32) -> (s: ItemStack)
        ensures
            s == (ItemStack { item: ItemType::Block(block), count }),
    {
        ItemStack { item: ItemType::Block(block), count }
    }

    /// How many items of this kind fit in one slot.
    pub fn max_stack_size(&self) -> (n: u32)
        ensures
            n == MAX_STACK,
    {
        MAX_STACK
    }
}

/// The item a block leaves behind when it is broken.
pub fn block_drop(block: BlockType) -> (r: Option<ItemStack>)
    ensures
        r == spec_block_drop(block),
{
    match block {
        BlockType::Air | BlockType::Water | BlockType::Bedrock => None,
        BlockType::Leaves => None,
        BlockType::Stone => Some(ItemStack::block(BlockType::Cobblestone, 1)),
        BlockType::Grass => Some(ItemStack::block(BlockType::Dirt, 1)),
        other => Some(ItemStack::block(other, 1)),
    }
}

/// Breaking a block gives nothing exactly for air, water, bedrock and
/// leaves; every other block gives exactly one item, and that item is the
/// block itself, except that stone gives cobblestone and grass gives dirt.
pub proof fn lemma_block_drop_law(block: BlockType)
    ensures
        spec_block_drop(block) is None <==> (block == BlockType::Air || block == BlockType::Water
            || block == BlockType::Bedrock || block == BlockType::Leaves),
        spec_block_drop(block) matches Some(st) ==> st.count == 1,
        spec_block_drop(block) matches Some(st) ==> st.item == ItemType::Block(
            if block == BlockType::Stone {
                BlockType::Cobblestone
            } else if block == BlockType::Grass {
                BlockType::Dirt
            } else {
                block
            },
        ),
{
}

} // verus!
