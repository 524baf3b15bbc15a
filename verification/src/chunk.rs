use vstd::prelude::*;

use crate::voxel::{BlockType, spec_block_from_id, spec_block_id, lemma_block_id_roundtrip};

verus! {

/// Width and depth of a chunk, in blocks.
pub const CHUNK_SIZE: usize = 16;
/// Height of a chunk, in blocks.
pub const CHUNK_HEIGHT: usize = 128;
/// Number of cells in one chunk.
pub const TOTAL_BLOCKS: usize = CHUNK_SIZE * CHUNK_HEIGHT * CHUNK_SIZE;

/// Whether a local cell position lies inside a chunk.
pub open spec fn in_chunk(x: int, y: int, z: int) -> bool {
    0 <= x < CHUNK_SIZE && 0 <= y < CHUNK_HEIGHT && 0 <= z < CHUNK_SIZE
}

/// Position of a local cell in the flat block array: x fastest, then z, then y.
pub open spec fn cell_index(x: int, y: int, z: int) -> int {
    x + z * 16 + y * 256
}

/// One column of the world: 16 x 128 x 16 blocks.
pub struct ChunkData {
    blocks: Vec<BlockType>,
}

impl View for ChunkData {
    type V = Seq<BlockType>;

    closed spec fn view(&self) -> Seq<BlockType> {
        self.blocks@
    }
}

/// What a chunk holds at a local position; outside the chunk it is air.
pub open spec fn spec_get(c: Seq<BlockType>, x: int, y: int, z: int) -> BlockType {
    if in_chunk(x, y, z) {
        c[cell_index(x, y, z)]
    } else {
        BlockType::Air
    }
}

/// A chunk's contents after writing `b` at a local position; writes outside are ignored.
pub open spec fn spec_set(c: Seq<BlockType>, x: int, y: int, z: int, b: BlockType) -> Seq<BlockType> {
    if in_chunk(x, y, z) {
        c.update(cell_index(x, y, z), b)
    } else {
        c
    }
}

/// Decoding of a saved byte: unknown bytes and missing bytes become air.
pub open spec fn spec_decode_cell(bytes: Seq<u8>, i: int) -> BlockType {
    if 0 <= i < bytes.len() && spec_block_from_id(bytes[i]) is Some {
        spec_block_from_id(bytes[i])->0
    } else {
        BlockType::Air
    }
}

/// The cell index maps the chunk box one to one onto `0..TOTAL_BLOCKS`.
pub proof fn lemma_cell_index_bounds(x: int, y: int, z: int)
    requires
        in_chunk(x, y, z),
    ensures
        0 <= cell_index(x, y, z) < TOTAL_BLOCKS,
{
}

/// Two positions in the chunk share a cell only when they are the same position.
pub proof fn lemma_cell_index_injective(x1: int, y1: int, z1: int, x2: int, y2: int, z2: int)
    requires
        in_chunk(x1, y1, z1),
        in_chunk(x2, y2, z2),
        cell_index(x1, y1, z1) == cell_index(x2, y2, z2),
    ensures
        x1 == x2 && y1 == y2 && z1 == z2,
{
}

/// Every cell index names the cell at x = i % 16, y = i / 256, z = (i / 16) % 16.
pub proof fn lemma_cell_of_index(i: int)
    requires
        0 <= i < TOTAL_BLOCKS,
    ensures
        in_chunk(i % 16, i / 256, (i / 16) % 16),
        cell_index(i % 16, i / 256, (i / 16) % 16) == i,
{
    assert(i % 16 + ((i / 16) % 16) * 16 + (i / 256) * 256 == i && 0 <= i / 256 < 128) by (nonlinear_arith)
        requires
            0 <= i < 32768,
    {
        assert(i == 16 * (i / 16) + i % 16);
        assert(i / 16 == 16 * ((i / 16) / 16) + (i / 16) % 16);
        assert((i / 16) / 16 == i / 256);
    }
}

/// Two chunk contents that agree at every position of the chunk are equal.
pub proof fn lemma_chunk_ext(a: Seq<BlockType>, b: Seq<BlockType>)
    requires
        a.len() == TOTAL_BLOCKS,
        b.len() == TOTAL_BLOCKS,
        forall|x: int, y: int, z: int| in_chunk(x, y, z) ==> #[trigger] spec_get(a, x, y, z) == spec_get(b, x, y, z),
    ensures
        a == b,
{
    assert forall|i: int| 0 <= i < TOTAL_BLOCKS implies a[i] == b[i] by {
        lemma_cell_of_index(i);
        assert(spec_get(a, i % 16, i / 256, (i / 16) % 16) == spec_get(b, i % 16, i / 256, (i / 16) % 16));
    }
    assert(a =~= b);
}

impl ChunkData {
    /// The block array has exactly one entry per cell.
    pub open spec fn wf(&self) -> bool {
        self@.len() == TOTAL_BLOCKS
    }

    /// A chunk that is air everywhere.
    pub fn new_air() -> (c: ChunkData)
        ensures
            c.wf(),
            forall|i: int| 0 <= i < TOTAL_BLOCKS ==> #[trigger] c@[i] == BlockType::Air,
    {
        ChunkData { blocks: vec![BlockType::Air; TOTAL_BLOCKS] }
    }

    /// Flat array position of a local cell.
    pub fn index(x: usize, y: usize, z: usize) -> (i: usize)
        requires
            in_chunk(x as int, y as int, z as int),
        ensures
            i == cell_index(x as int, y as int, z as int),
            i < TOTAL_BLOCKS,
    {
        x + z * CHUNK_SIZE + y * CHUNK_SIZE * CHUNK_SIZE
    }

    /// The block at a local position, or air outside the chunk.
    pub fn get(&self, x: usize, y: usize, z: usize) -> (b: BlockType)
        requires
            self.wf(),
        ensures
            b == spec_get(self@, x as int, y as int, z as int),
    {
        if x >= CHUNK_SIZE || y >= CHUNK_HEIGHT || z >= CHUNK_SIZE {
            return BlockType::Air;
        }
        self.blocks[Self::index(x, y, z)]
    }

    /// Write a block at a local position; positions outside the chunk are ignored.
    pub fn set(&mut self, x: usize, y: usize, z: usize, block: BlockType)
        requires
            old(self).wf(),
        ensures
            final(self).wf(),
            final(self)@ == spec_set(old(self)@, x as int, y as int, z as int, block),
    {
        if x < CHUNK_SIZE && y < CHUNK_HEIGHT && z < CHUNK_SIZE {
            let i = Self::index(x, y, z);
            self.blocks.set(i, block);
        }
    }

    /// The chunk as one byte per cell, in cell order.
    pub fn blocks_as_bytes(&self) -> (bytes: Vec<u8>)
        requires
            self.wf(),
        ensures
            bytes@.len() == TOTAL_BLOCKS,
            forall|i: int| 0 <= i < TOTAL_BLOCKS ==> #[trigger] bytes@[i] == spec_block_id(self@[i]),
    {
        let mut bytes: Vec<u8> = Vec::with_capacity(TOTAL_BLOCKS);
        let mut i: usize = 0;
        while i < TOTAL_BLOCKS
            invariant
                self.wf(),
                i <= TOTAL_BLOCKS,
                bytes@.len() == i,
                forall|j: int| 0 <= j < i ==> #[trigger] bytes@[j] == spec_block_id(self@[j]),
            decreases TOTAL_BLOCKS - i,
        {
            bytes.push(self.blocks[i].id());
            i += 1;
        }
        bytes
    }

    /// Rebuild a chunk from saved bytes; a byte that names no block, or a
    /// missing byte, gives air.
    pub fn from_bytes(bytes: &[u8]) -> (c: ChunkData)
        ensures
            c.wf(),
            forall|i: int| 0 <= i < TOTAL_BLOCKS ==> #[trigger] c@[i] == spec_decode_cell(bytes@, i),
    {
        let mut blocks: Vec<BlockType> = Vec::with_capacity(TOTAL_BLOCKS);
        let mut i: usize = 0;
        while i < TOTAL_BLOCKS
            invariant
                i <= TOTAL_BLOCKS,
                blocks@.len() == i,
                forall|j: int| 0 <= j < i ==> #[trigger] blocks@[j] == spec_decode_cell(bytes@, j),
            decreases TOTAL_BLOCKS - i,
        {
            let b = if i < bytes.len() {
                match BlockType::from_id(bytes[i]) {
                    Some(b) => b,
                    None => BlockType::Air,
                }
            } else {
                BlockType::Air
            };
            blocks.push(b);
            i += 1;
        }
        ChunkData { blocks }
    }

    /// Whether any cell of the two chunks holds a different block.
    pub fn differs_from(&self, other: &ChunkData) -> (r: bool)
        requires
            self.wf(),
            other.wf(),
        ensures
            r == (self@ != other@),
    {
        let mut i: usize = 0;
        while i < TOTAL_BLOCKS
            invariant
                self.wf(),
                other.wf(),
                i <= TOTAL_BLOCKS,
                forall|j: int| 0 <= j < i ==> self@[j] == other@[j],
            decreases TOTAL_BLOCKS - i,
        {
            if self.blocks[i] != other.blocks[i] {
                return true;
            }
            i += 1;
        }
        assert(self@ =~= other@);
        false
    }
}

/// Reading a cell that was just written gives the written block.
pub proof fn lemma_get_after_set(c: Seq<BlockType>, x: int, y: int, z: int, b: BlockType)
    requires
        c.len() == TOTAL_BLOCKS,
        in_chunk(x, y, z),
    ensures
        spec_get(spec_set(c, x, y, z, b), x, y, z) == b,
{
}

/// Writing one cell leaves every other position as it was.
pub proof fn lemma_get_other_after_set(
    c: Seq<BlockType>,
    x: int,
    y: int,
    z: int,
    b: BlockType,
    x2: int,
    y2: int,
    z2: int,
)
    requires
        c.len() == TOTAL_BLOCKS,
        !(x == x2 && y == y2 && z == z2),
    ensures
        spec_get(spec_set(c, x, y, z, b), x2, y2, z2) == spec_get(c, x2, y2, z2),
{
}

/// Saving a chunk as bytes and reading them back gives the same chunk.
pub proof fn lemma_bytes_roundtrip(c: Seq<BlockType>, bytes: Seq<u8>)
    requires
        c.len() == TOTAL_BLOCKS,
        bytes.len() == TOTAL_BLOCKS,
        forall|i: int| 0 <= i < TOTAL_BLOCKS ==> #[trigger] bytes[i] == spec_block_id(c[i]),
    ensures
        forall|i: int| 0 <= i < TOTAL_BLOCKS ==> #[trigger] spec_decode_cell(bytes, i) == c[i],
{
    assert forall|i: int| 0 <= i < TOTAL_BLOCKS implies #[trigger] spec_decode_cell(bytes, i) == c[i] by {
        lemma_block_id_roundtrip(c[i]);
    }
}

} // verus!

verus! {

/// Chunk coordinate of the chunk that holds world block coordinate `v`
/// (floor division by the chunk width).
pub open spec fn spec_chunk_of(v: int) -> int {
    v / 16
}

/// Offset of world block coordinate `v` inside its chunk.
pub open spec fn spec_local_of(v: int) -> int {
    v % 16
}

/// The chunk coordinate (along x or z) that holds a world block coordinate.
pub fn block_chunk_coord(v: i32) -> (c: i32)
    ensures
        c == spec_chunk_of(v as int),
{
    let r = v % 16;
    let q = v / 16;
    if r < 0 { q - 1 } else { q }
}

/// The offset of a world block coordinate inside its chunk.
pub fn block_local_coord(v: i32) -> (l: usize)
    ensures
        l == spec_local_of(v as int),
        l < CHUNK_SIZE,
{
    (((v % 16) + 16) % 16) as usize
}

/// A world block coordinate is its chunk's origin plus its offset in the chunk.
pub proof fn lemma_chunk_local_decompose(v: int)
    ensures
        spec_chunk_of(v) * 16 + spec_local_of(v) == v,
        0 <= spec_local_of(v) < 16,
{
}

} // verus!

verus! {

/// Where a world block lives: the chunk that holds it and the local cell inside.
#[derive(Clone, Copy, PartialEq, Eq, Structural, Debug)]
pub struct BlockAddress {
    pub chunk_x: i32,
    pub chunk_z: i32,
    pub local_x: usize,
    pub y: usize,
    pub local_z: usize,
}

/// Find the chunk and local cell of a world block; `None` when the height is
/// outside the world (below 0 or at or above the chunk height).
pub fn locate_block(x: i32, y: i32, z: i32) -> (r: Option<BlockAddress>)
    ensures
        r is None <==> (y < 0 || y >= CHUNK_HEIGHT),
        r matches Some(a) ==> {
            &&& a.chunk_x == spec_chunk_of(x as int)
            &&& a.chunk_z == spec_chunk_of(z as int)
            &&& a.local_x == spec_local_of(x as int)
            &&& a.local_z == spec_local_of(z as int)
            &&& a.y == y
            &&& in_chunk(a.local_x as int, a.y as int, a.local_z as int)
        },
{
    if y < 0 || y >= CHUNK_HEIGHT as i32 {
        return None;
    }
    Some(BlockAddress {
        chunk_x: block_chunk_coord(x),
        chunk_z: block_chunk_coord(z),
        local_x: block_local_coord(x),
        y: y as usize,
        local_z: block_local_coord(z),
    })
}

/// Highest height in column (lx, lz) that holds a solid block.
pub open spec fn is_top_solid(c: Seq<BlockType>, lx: int, lz: int, y: int) -> bool {
    &&& 0 <= y < CHUNK_HEIGHT
    &&& crate::voxel::spec_is_solid(spec_get(c, lx, y, lz))
    &&& forall|y2: int| y < y2 < CHUNK_HEIGHT ==> !crate::voxel::spec_is_solid(#[trigger] spec_get(c, lx, y2, lz))
}

/// The height of the topmost solid block in the column of world position
/// (x, z) inside `chunk`, which is the chunk that holds that column; `None`
/// when the column has no solid block.
pub fn find_surface_y(chunk: &ChunkData, world_x: i32, world_z: i32) -> (r: Option<usize>)
    requires
        chunk.wf(),
    ensures
        r matches Some(y) ==> is_top_solid(chunk@, spec_local_of(world_x as int), spec_local_of(world_z as int), y as int),
        r is None ==> forall|y: int| 0 <= y < CHUNK_HEIGHT ==>
            !crate::voxel::spec_is_solid(#[trigger] spec_get(chunk@, spec_local_of(world_x as int), y, spec_local_of(world_z as int))),
{
    let lx = block_local_coord(world_x);
    let lz = block_local_coord(world_z);
    let mut y: usize = CHUNK_HEIGHT;
    while y > 0
        invariant
            chunk.wf(),
            y <= CHUNK_HEIGHT,
            lx == spec_local_of(world_x as int),
            lz == spec_local_of(world_z as int),
            forall|y2: int| y <= y2 < CHUNK_HEIGHT ==> !crate::voxel::spec_is_solid(#[trigger] spec_get(chunk@, lx as int, y2, lz as int)),
        decreases y,
    {
        y -= 1;
        if chunk.get(lx, y, lz).is_solid() {
            return Some(y);
        }
    }
    None
}

} // verus!
