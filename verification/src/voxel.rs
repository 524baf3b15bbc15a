use vstd::prelude::*;

verus! {

/// The kinds of block a world cell can hold.
#[derive(Clone, Copy, PartialEq, Eq, Structural, Debug, Hash)]
pub enum BlockType {
    Air,
    Stone,
    Dirt,
    Grass,
    Sand,
    Wood,
    Leaves,
    Water,
    Cobblestone,
    Planks,
    Bedrock,
    Gravel,
    Iron,
    Coal,
    Snow,
}

/// Number of block kinds; block ids run from 0 up to this bound.
pub const BLOCK_KINDS: u8 = 15;

/// A block is solid unless it is air or water.
pub open spec fn spec_is_solid(b: BlockType) -> bool {
    !(b == BlockType::Air || b == BlockType::Water)
}

/// A block lets neighbouring faces show through when it is air, water or leaves.
pub open spec fn spec_is_transparent(b: BlockType) -> bool {
    b == BlockType::Air || b == BlockType::Water || b == BlockType::Leaves
}

/// The stable byte id of a block kind, in declaration order.
pub open spec fn spec_block_id(b: BlockType) -> u8 {
    match b {
        BlockType::Air => 0,
        BlockType::Stone => 1,
        BlockType::Dirt => 2,
        BlockType::Grass => 3,
        BlockType::Sand => 4,
        BlockType::Wood => 5,
        BlockType::Leaves => 6,
        BlockType::Water => 7,
        BlockType::Cobblestone => 8,
        BlockType::Planks => 9,
        BlockType::Bedrock => 10,
        BlockType::Gravel => 11,
        BlockType::Iron => 12,
        BlockType::Coal => 13,
        BlockType::Snow => 14,
    }
}

/// The block kind with a given byte id, if the id names one.
pub open spec fn spec_block_from_id(id: u8) -> Option<BlockType> {
    if id == 0 { Some(BlockType::Air) }
    else if id == 1 { Some(BlockType::Stone) }
    else if id == 2 { Some(BlockType::Dirt) }
    else if id == 3 { Some(BlockType::Grass) }
    else if id == 4 { Some(BlockType::Sand) }
    else if id == 5 { Some(BlockType::Wood) }
    else if id == 6 { Some(BlockType::Leaves) }
    else if id == 7 { Some(BlockType::Water) }
    else if id == 8 { Some(BlockType::Cobblestone) }
    else if id == 9 { Some(BlockType::Planks) }
    else if id == 10 { Some(BlockType::Bedrock) }
    else if id == 11 { Some(BlockType::Gravel) }
    else if id == 12 { Some(BlockType::Iron) }
    else if id == 13 { Some(BlockType::Coal) }
    else if id == 14 { Some(BlockType::Snow) }
    else { None }
}

/// Hardness in tenths of a unit; `None` stands for an unbreakable block.
pub open spec fn spec_hardness_tenths(b: BlockType) -> Option<u32> {
    match b {
        BlockType::Air => Some(0),
        BlockType::Bedrock => None,
        BlockType::Stone | BlockType::Cobblestone => Some(15),
        BlockType::Iron => Some(30),
        BlockType::Coal => Some(20),
        BlockType::Wood => Some(20),
        BlockType::Planks => Some(15),
        BlockType::Dirt | BlockType::Grass | BlockType::Sand | BlockType::Gravel => Some(5),
        BlockType::Leaves | BlockType::Snow => Some(2),
        BlockType::Water => Some(0),
    }
}

impl BlockType {
    /// Whether entities collide with this block.
    pub fn is_solid(self) -> (r: bool)
        ensures
            r == spec_is_solid(self),
    {
        !matches!(self, BlockType::Air | BlockType::Water)
    }

    /// Whether faces behind this block stay visible.
    pub fn is_transparent(self) -> (r: bool)
        ensures
            r == spec_is_transparent(self),
    {
        matches!(self, BlockType::Air | BlockType::Water | BlockType::Leaves)
    }

    /// Mining hardness in tenths (1.5 is 15); `None` means it cannot be broken.
    pub fn hardness(self) -> (r: Option<u32>)
        ensures
            r == spec_hardness_tenths(self),
    {
        match self {
            BlockType::Air => Some(0),
            BlockType::Bedrock => None,
            BlockType::Stone | BlockType::Cobblestone => Some(15),
            BlockType::Iron => Some(30),
            BlockType::Coal => Some(20),
            BlockType::Wood => Some(20),
            BlockType::Planks => Some(15),
            BlockType::Dirt | BlockType::Grass | BlockType::Sand | BlockType::Gravel => Some(5),
            BlockType::Leaves | BlockType::Snow => Some(2),
            BlockType::Water => Some(0),
        }
    }

    /// The byte this block is stored as.
    pub fn id(self) -> (r: u8)
        ensures
            r == spec_block_id(self),
            r < BLOCK_KINDS,
    {
        match self {
            BlockType::Air => 0,
            BlockType::Stone => 1,
            BlockType::Dirt => 2,
            BlockType::Grass => 3,
            BlockType::Sand => 4,
            BlockType::Wood => 5,
            BlockType::Leaves => 6,
            BlockType::Water => 7,
            BlockType::Cobblestone => 8,
            BlockType::Planks => 9,
            BlockType::Bedrock => 10,
            BlockType::Gravel => 11,
            BlockType::Iron => 12,
            BlockType::Coal => 13,
            BlockType::Snow => 14,
        }
    }

    /// The block stored as byte `id`, or `None` for a byte that names no block.
    pub fn from_id(id: u8) -> (r: Option<BlockType>)
        ensures
            r == spec_block_from_id(id),
            r is Some <==> id < BLOCK_KINDS,
    {
        match id {
            0 => Some(BlockType::Air),
            1 => Some(BlockType::Stone),
            2 => Some(BlockType::Dirt),
            3 => Some(BlockType::Grass),
            4 => Some(BlockType::Sand),
            5 => Some(BlockType::Wood),
            6 => Some(BlockType::Leaves),
            7 => Some(BlockType::Water),
            8 => Some(BlockType::Cobblestone),
            9 => Some(BlockType::Planks),
            10 => Some(BlockType::Bedrock),
            11 => Some(BlockType::Gravel),
            12 => Some(BlockType::Iron),
            13 => Some(BlockType::Coal),
            14 => Some(BlockType::Snow),
            _ => None,
        }
    }
}

/// Decoding the id of a block gives the block back.
pub proof fn lemma_block_id_roundtrip(b: BlockType)
    ensures
        spec_block_from_id(spec_block_id(b)) == Some(b),
{
}

/// Every id below the bound decodes to a block whose id it is.
pub proof fn lemma_block_id_decode(id: u8)
    requires
        id < BLOCK_KINDS,
    ensures
        spec_block_from_id(id) is Some,
        spec_block_id(spec_block_from_id(id)->0) == id,
{
}

/// Every solid block is opaque except leaves, and every transparent block
/// except leaves is not solid.
pub proof fn lemma_solid_transparent(b: BlockType)
    ensures
        spec_is_transparent(b) && b != BlockType::Leaves ==> !spec_is_solid(b),
        !spec_is_transparent(b) ==> spec_is_solid(b),
{
}

} // verus!
