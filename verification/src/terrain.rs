use vstd::prelude::*;

use crate::chunk::{
    ChunkData, CHUNK_HEIGHT, CHUNK_SIZE, TOTAL_BLOCKS, in_chunk, spec_get, lemma_get_after_set,
    lemma_get_other_after_set, lemma_chunk_ext, lemma_cell_of_index,
};
use crate::voxel::BlockType;

verus! {

/// Height of a tree trunk, in blocks.
pub const TRUNK_HEIGHT: usize = 5;

/// Absolute value.
pub open spec fn abs(v: int) -> int {
    if v < 0 { -v } else { v }
}

/// Whether cell (px, py, pz) is part of the trunk of a tree rooted at (x, base, z).
pub open spec fn in_trunk(x: int, base: int, z: int, px: int, py: int, pz: int) -> bool {
    px == x && pz == z && base <= py < base + 5
}

/// Whether cell (px, py, pz) is in the crown of a tree rooted at (x, base, z):
/// the four layers from one below the trunk top to two above it, of radius 2
/// except the highest layer of radius 1, leaving out the trunk's column below
/// the highest layer.
pub open spec fn in_crown(x: int, base: int, z: int, px: int, py: int, pz: int) -> bool {
    let top = base + 5;
    let dy = py - top;
    let r = if dy == 2 { 1int } else { 2int };
    &&& -1 <= dy <= 2
    &&& abs(px - x) <= r
    &&& abs(pz - z) <= r
    &&& !(px == x && pz == z && dy < 2)
}

/// What a chunk cell holds after a tree is grown at (x, base, z): trunk cells
/// become wood, crown cells that were air become leaves, all else is unchanged.
pub open spec fn tree_cell(prev: BlockType, x: int, base: int, z: int, px: int, py: int, pz: int) -> BlockType {
    if in_trunk(x, base, z, px, py, pz) {
        BlockType::Wood
    } else if in_crown(x, base, z, px, py, pz) && prev == BlockType::Air {
        BlockType::Leaves
    } else {
        prev
    }
}

/// A chunk's contents after a tree is grown at (x, base, z).
pub open spec fn tree_placed(c: Seq<BlockType>, x: int, base: int, z: int) -> Seq<BlockType> {
    Seq::new(TOTAL_BLOCKS as nat, |i: int| tree_cell(c[i], x, base, z, i % 16, i / 256, (i / 16) % 16))
}

proof fn lemma_tree_placed(old_c: Seq<BlockType>, new_c: Seq<BlockType>, x: int, base: int, z: int)
    requires
        old_c.len() == TOTAL_BLOCKS,
        new_c.len() == TOTAL_BLOCKS,
        forall|px: int, py: int, pz: int| in_chunk(px, py, pz) ==>
            #[trigger] spec_get(new_c, px, py, pz) == tree_cell(spec_get(old_c, px, py, pz), x, base, z, px, py, pz),
    ensures
        new_c == tree_placed(old_c, x, base, z),
{
    let t = tree_placed(old_c, x, base, z);
    assert forall|px: int, py: int, pz: int| in_chunk(px, py, pz) implies
        #[trigger] spec_get(new_c, px, py, pz) == spec_get(t, px, py, pz) by {
        let i = crate::chunk::cell_index(px, py, pz);
        lemma_cell_of_index(i);
        crate::chunk::lemma_cell_index_injective(px, py, pz, i % 16, i / 256, (i / 16) % 16);
    }
    lemma_chunk_ext(new_c, t);
}

/// Crown cells handled before position (dy, dx, dz) of the crown loops.
pub open spec fn crown_done(x: int, top: int, z: int, px: int, py: int, pz: int, dy: int, dx: int, dz: int) -> bool {
    let cy = py - top;
    let cx = px - x;
    let cz = pz - z;
    cy < dy || (cy == dy && cx < dx) || (cy == dy && cx == dx && cz < dz)
}

/// Grow a tree whose trunk starts at local cell (x, base_y, z): five wood
/// blocks upward, then a crown of leaves placed only where there was air.
/// Parts that fall outside the chunk are left out.
pub fn place_tree(chunk: &mut ChunkData, x: usize, base_y: usize, z: usize)
    requires
        old(chunk).wf(),
        x < CHUNK_SIZE,
        z < CHUNK_SIZE,
        base_y < CHUNK_HEIGHT,
    ensures
        final(chunk).wf(),
        forall|px: int, py: int, pz: int| in_chunk(px, py, pz) ==>
            #[trigger] spec_get(final(chunk)@, px, py, pz)
                == tree_cell(spec_get(old(chunk)@, px, py, pz), x as int, base_y as int, z as int, px, py, pz),
        final(chunk)@ == tree_placed(old(chunk)@, x as int, base_y as int, z as int),
{
    let ghost c0 = chunk@;
    let ghost xi = x as int;
    let ghost bi = base_y as int;
    let ghost zi = z as int;
    let trunk_height = TRUNK_HEIGHT;

    // Trunk
    let mut dy: usize = 0;
    while dy < trunk_height
        invariant
            chunk.wf(),
            dy <= 5,
            trunk_height == 5,
            x < CHUNK_SIZE,
            z < CHUNK_SIZE,
            base_y < CHUNK_HEIGHT,
            xi == x as int,
            bi == base_y as int,
            zi == z as int,
            forall|px: int, py: int, pz: int| in_chunk(px, py, pz) ==>
                #[trigger] spec_get(chunk@, px, py, pz)
                    == if px == xi && pz == zi && bi <= py < bi + dy { BlockType::Wood } else { spec_get(c0, px, py, pz) },
        decreases 5 - dy,
    {
        let ghost before = chunk@;
        chunk.set(x, base_y + dy, z, BlockType::Wood);
        assert forall|px: int, py: int, pz: int| in_chunk(px, py, pz) implies
            #[trigger] spec_get(chunk@, px, py, pz)
                == if px == xi && pz == zi && bi <= py < bi + dy + 1 { BlockType::Wood } else { spec_get(c0, px, py, pz) } by {
            if px == xi && py == bi + dy && pz == zi {
                lemma_get_after_set(before, xi, bi + dy, zi, BlockType::Wood);
            } else {
                lemma_get_other_after_set(before, xi, bi + dy, zi, BlockType::Wood, px, py, pz);
            }
            assert(spec_get(before, px, py, pz) == if px == xi && pz == zi && bi <= py < bi + dy { BlockType::Wood } else { spec_get(c0, px, py, pz) });
        }
        dy += 1;
    }
    let ghost c1 = chunk@;

    // Crown
    let top = base_y + trunk_height;
    let ghost ti = top as int;
    let mut dy: i32 = -1;
    while dy <= 2
        invariant
            chunk.wf(),
            -1 <= dy <= 3,
            x < CHUNK_SIZE,
            z < CHUNK_SIZE,
            base_y < CHUNK_HEIGHT,
            xi == x as int,
            bi == base_y as int,
            zi == z as int,
            top == base_y + 5,
            ti == top,
            forall|px: int, py: int, pz: int| in_chunk(px, py, pz) ==>
                #[trigger] spec_get(chunk@, px, py, pz) == crown_progress(c1, xi, bi, zi, dy as int, -3, -3, px, py, pz),
        decreases 3 - dy,
    {
        let radius: i32 = if dy == 2 { 1 } else { 2 };
        proof {
            assert forall|px: int, py: int, pz: int| in_chunk(px, py, pz) implies
                #[trigger] spec_get(chunk@, px, py, pz) == crown_progress(c1, xi, bi, zi, dy as int, -radius as int, -3, px, py, pz) by {
                lemma_crown_row_start(c1, xi, bi, zi, dy as int, px, py, pz);
            }
        }
        let mut dx: i32 = -radius;
        while dx <= radius
            invariant
                chunk.wf(),
                -1 <= dy <= 2,
                radius == (if dy == 2 { 1i32 } else { 2i32 }),
                -radius <= dx <= radius + 1,
                x < CHUNK_SIZE,
                z < CHUNK_SIZE,
                base_y < CHUNK_HEIGHT,
                xi == x as int,
                bi == base_y as int,
                zi == z as int,
                top == base_y + 5,
                ti == top,
                forall|px: int, py: int, pz: int| in_chunk(px, py, pz) ==>
                    #[trigger] spec_get(chunk@, px, py, pz) == crown_progress(c1, xi, bi, zi, dy as int, dx as int, -3, px, py, pz),
            decreases radius + 1 - dx,
        {
            proof {
                assert forall|px: int, py: int, pz: int| in_chunk(px, py, pz) implies
                    #[trigger] spec_get(chunk@, px, py, pz) == crown_progress(c1, xi, bi, zi, dy as int, dx as int, -radius as int, px, py, pz) by {
                    lemma_crown_column_start(c1, xi, bi, zi, dy as int, dx as int, px, py, pz);
                }
            }
            let mut dz: i32 = -radius;
            while dz <= radius
                invariant
                    chunk.wf(),
                    -1 <= dy <= 2,
                    radius == (if dy == 2 { 1i32 } else { 2i32 }),
                    -radius <= dx <= radius,
                    -radius <= dz <= radius + 1,
                    x < CHUNK_SIZE,
                    z < CHUNK_SIZE,
                    base_y < CHUNK_HEIGHT,
                    xi == x as int,
                    bi == base_y as int,
                    zi == z as int,
                    top == base_y + 5,
                    ti == top,
                    forall|px: int, py: int, pz: int| in_chunk(px, py, pz) ==>
                        #[trigger] spec_get(chunk@, px, py, pz) == crown_progress(c1, xi, bi, zi, dy as int, dx as int, dz as int, px, py, pz),
                decreases radius + 1 - dz,
            {
                let ghost before = chunk@;
                let ghost cx = xi + dx;
                let ghost cy = ti + dy;
                let ghost cz = zi + dz;
                if !(dx == 0 && dz == 0 && dy < 2) {
                    let lx = x as i32 + dx;
                    let ly = top as i32 + dy;
                    let lz = z as i32 + dz;
                    if lx >= 0 && lx < CHUNK_SIZE as i32 && ly >= 0 && ly < CHUNK_HEIGHT as i32 && lz >= 0
                        && lz < CHUNK_SIZE as i32 {
                        let lx = lx as usize;
                        let ly = ly as usize;
                        let lz = lz as usize;
                        if chunk.get(lx, ly, lz) == BlockType::Air {
                            chunk.set(lx, ly, lz, BlockType::Leaves);
                        }
                    }
                }
                proof {
                    assert forall|px: int, py: int, pz: int| in_chunk(px, py, pz) implies
                        #[trigger] spec_get(chunk@, px, py, pz)
                            == crown_progress(c1, xi, bi, zi, dy as int, dx as int, dz + 1, px, py, pz) by {
                        if px == cx && py == cy && pz == cz {
                            lemma_get_after_set(before, cx, cy, cz, BlockType::Leaves);
                        } else {
                            lemma_get_other_after_set(before, cx, cy, cz, BlockType::Leaves, px, py, pz);
                        }
                        assert(spec_get(before, px, py, pz)
                            == crown_progress(c1, xi, bi, zi, dy as int, dx as int, dz as int, px, py, pz));
                    }
                }
                dz += 1;
            }
            proof {
                assert forall|px: int, py: int, pz: int| in_chunk(px, py, pz) implies
                    #[trigger] spec_get(chunk@, px, py, pz) == crown_progress(c1, xi, bi, zi, dy as int, dx + 1, -3, px, py, pz) by {
                    lemma_crown_column_end(c1, xi, bi, zi, dy as int, dx as int, px, py, pz);
                }
            }
            dx += 1;
        }
        proof {
            assert forall|px: int, py: int, pz: int| in_chunk(px, py, pz) implies
                #[trigger] spec_get(chunk@, px, py, pz) == crown_progress(c1, xi, bi, zi, dy + 1, -3, -3, px, py, pz) by {
                lemma_crown_row_end(c1, xi, bi, zi, dy as int, px, py, pz);
            }
        }
        dy += 1;
    }
    proof {
        assert forall|px: int, py: int, pz: int| in_chunk(px, py, pz) implies
            #[trigger] spec_get(chunk@, px, py, pz)
                == tree_cell(spec_get(c0, px, py, pz), xi, bi, zi, px, py, pz) by {
            assert(spec_get(chunk@, px, py, pz) == crown_progress(c1, xi, bi, zi, 3, -3, -3, px, py, pz));
            assert(spec_get(c1, px, py, pz)
                == if px == xi && pz == zi && bi <= py < bi + 5 { BlockType::Wood } else { spec_get(c0, px, py, pz) });
        }
        lemma_tree_placed(c0, chunk@, xi, bi, zi);
    }
}

/// State of a crown cell once the crown loops have reached (dy, dx, dz).
pub open spec fn crown_progress(
    c1: Seq<BlockType>,
    x: int,
    base: int,
    z: int,
    dy: int,
    dx: int,
    dz: int,
    px: int,
    py: int,
    pz: int,
) -> BlockType {
    if in_crown(x, base, z, px, py, pz) && crown_done(x, base + 5, z, px, py, pz, dy, dx, dz)
        && spec_get(c1, px, py, pz) == BlockType::Air {
        BlockType::Leaves
    } else {
        spec_get(c1, px, py, pz)
    }
}

proof fn lemma_crown_row_start(c1: Seq<BlockType>, x: int, base: int, z: int, dy: int, px: int, py: int, pz: int)
    ensures
        crown_progress(c1, x, base, z, dy, -3, -3, px, py, pz)
            == crown_progress(c1, x, base, z, dy, -(if dy == 2 { 1int } else { 2int }), -3, px, py, pz),
{
}

proof fn lemma_crown_column_start(c1: Seq<BlockType>, x: int, base: int, z: int, dy: int, dx: int, px: int, py: int, pz: int)
    ensures
        crown_progress(c1, x, base, z, dy, dx, -3, px, py, pz)
            == crown_progress(c1, x, base, z, dy, dx, -(if dy == 2 { 1int } else { 2int }), px, py, pz),
{
}

proof fn lemma_crown_column_end(c1: Seq<BlockType>, x: int, base: int, z: int, dy: int, dx: int, px: int, py: int, pz: int)
    ensures
        crown_progress(c1, x, base, z, dy, dx, (if dy == 2 { 1int } else { 2int }) + 1, px, py, pz)
            == crown_progress(c1, x, base, z, dy, dx + 1, -3, px, py, pz),
{
}

proof fn lemma_crown_row_end(c1: Seq<BlockType>, x: int, base: int, z: int, dy: int, px: int, py: int, pz: int)
    ensures
        crown_progress(c1, x, base, z, dy, (if dy == 2 { 1int } else { 2int }) + 1, -3, px, py, pz)
            == crown_progress(c1, x, base, z, dy + 1, -3, -3, px, py, pz),
{
}

/// Height of the sea surface: columns lower than this fill with water up to it.
pub const SEA_LEVEL: usize = 60;

/// `h - 4`, or 0 when `h` is below 4.
pub open spec fn dirt_start(h: int) -> int {
    if h >= 4 { h - 4 } else { 0 }
}

/// What a column cell at height `y` holds after terrain of surface height `h`
/// is laid over a cell that held `prev`: bedrock at the bottom, stone up to
/// four below the surface, dirt up to the surface, grass on top; columns
/// below sea level get sand on top and water from above the surface up to
/// sea level, where the cell held air.
pub open spec fn column_block(prev: BlockType, h: int, y: int) -> BlockType {
    let s = dirt_start(h);
    if h > 0 && y == h {
        if h < SEA_LEVEL { BlockType::Sand } else { BlockType::Grass }
    } else if s <= y < h {
        BlockType::Dirt
    } else if 1 <= y < s {
        BlockType::Stone
    } else if y == 0 {
        BlockType::Bedrock
    } else if h < y <= SEA_LEVEL && prev == BlockType::Air {
        BlockType::Water
    } else {
        prev
    }
}

/// Lay the terrain of one column: the surface height is capped at the top of
/// the chunk, then bedrock, stone, dirt and a grass top are laid, and a column
/// below sea level is capped with sand and flooded with water up to sea level.
pub fn fill_column(chunk: &mut ChunkData, local_x: usize, local_z: usize, height: usize)
    requires
        old(chunk).wf(),
        local_x < CHUNK_SIZE,
        local_z < CHUNK_SIZE,
    ensures
        final(chunk).wf(),
        forall|px: int, py: int, pz: int| in_chunk(px, py, pz) ==>
            #[trigger] spec_get(final(chunk)@, px, py, pz) == if px == local_x && pz == local_z {
                column_block(spec_get(old(chunk)@, px, py, pz), if height < CHUNK_HEIGHT - 1 { height as int } else { CHUNK_HEIGHT - 1 }, py)
            } else {
                spec_get(old(chunk)@, px, py, pz)
            },
{
    let ghost c0 = chunk@;
    let ghost lx = local_x as int;
    let ghost lz = local_z as int;
    let height = if height < CHUNK_HEIGHT - 1 { height } else { CHUNK_HEIGHT - 1 };
    let ghost h = height as int;
    let stone_top = height.saturating_sub(4);

    // Bedrock
    chunk.set(local_x, 0, local_z, BlockType::Bedrock);
    let ghost c1 = chunk@;
    assert forall|px: int, py: int, pz: int| in_chunk(px, py, pz) implies #[trigger] spec_get(c1, px, py, pz)
        == if px == lx && pz == lz && py == 0 { BlockType::Bedrock } else { spec_get(c0, px, py, pz) } by {
        if px == lx && py == 0 && pz == lz {
            lemma_get_after_set(c0, lx, 0, lz, BlockType::Bedrock);
        } else {
            lemma_get_other_after_set(c0, lx, 0, lz, BlockType::Bedrock, px, py, pz);
        }
    }

    // Stone
    let mut y: usize = 1;
    while y < stone_top
        invariant
            chunk.wf(),
            local_x < CHUNK_SIZE,
            local_z < CHUNK_SIZE,
            lx == local_x,
            lz == local_z,
            height < CHUNK_HEIGHT,
            stone_top == dirt_start(height as int),
            1 <= y,
            y <= stone_top || y == 1,
            forall|px: int, py: int, pz: int| in_chunk(px, py, pz) ==> #[trigger] spec_get(chunk@, px, py, pz)
                == if px == lx && pz == lz && 1 <= py < y { BlockType::Stone } else { spec_get(c1, px, py, pz) },
        decreases stone_top - y,
    {
        let ghost before = chunk@;
        chunk.set(local_x, y, local_z, BlockType::Stone);
        assert forall|px: int, py: int, pz: int| in_chunk(px, py, pz) implies #[trigger] spec_get(chunk@, px, py, pz)
            == if px == lx && pz == lz && 1 <= py < y + 1 { BlockType::Stone } else { spec_get(c1, px, py, pz) } by {
            if px == lx && py == y && pz == lz {
                lemma_get_after_set(before, lx, y as int, lz, BlockType::Stone);
            } else {
                lemma_get_other_after_set(before, lx, y as int, lz, BlockType::Stone, px, py, pz);
            }
        }
        y += 1;
    }
    let ghost c2 = chunk@;
    assert forall|px: int, py: int, pz: int| in_chunk(px, py, pz) implies #[trigger] spec_get(c2, px, py, pz)
        == if px == lx && pz == lz && 1 <= py < stone_top { BlockType::Stone } else { spec_get(c1, px, py, pz) } by {
    }

    // Dirt
    let mut y: usize = stone_top;
    while y < height
        invariant
            chunk.wf(),
            local_x < CHUNK_SIZE,
            local_z < CHUNK_SIZE,
            lx == local_x,
            lz == local_z,
            height < CHUNK_HEIGHT,
            stone_top <= y,
            y <= height || y == stone_top,
            forall|px: int, py: int, pz: int| in_chunk(px, py, pz) ==> #[trigger] spec_get(chunk@, px, py, pz)
                == if px == lx && pz == lz && stone_top <= py < y { BlockType::Dirt } else { spec_get(c2, px, py, pz) },
        decreases height - y,
    {
        let ghost before = chunk@;
        chunk.set(local_x, y, local_z, BlockType::Dirt);
        assert forall|px: int, py: int, pz: int| in_chunk(px, py, pz) implies #[trigger] spec_get(chunk@, px, py, pz)
            == if px == lx && pz == lz && stone_top <= py < y + 1 { BlockType::Dirt } else { spec_get(c2, px, py, pz) } by {
            if px == lx && py == y && pz == lz {
                lemma_get_after_set(before, lx, y as int, lz, BlockType::Dirt);
            } else {
                lemma_get_other_after_set(before, lx, y as int, lz, BlockType::Dirt, px, py, pz);
            }
        }
        y += 1;
    }
    let ghost c3 = chunk@;
    assert forall|px: int, py: int, pz: int| in_chunk(px, py, pz) implies #[trigger] spec_get(c3, px, py, pz)
        == if px == lx && pz == lz && stone_top <= py < height { BlockType::Dirt } else { spec_get(c2, px, py, pz) } by {
    }

    // Grass on top
    if height > 0 {
        chunk.set(local_x, height, local_z, BlockType::Grass);
    }
    let ghost c4 = chunk@;
    assert forall|px: int, py: int, pz: int| in_chunk(px, py, pz) implies #[trigger] spec_get(c4, px, py, pz)
        == if px == lx && pz == lz && py == h && h > 0 { BlockType::Grass } else { spec_get(c3, px, py, pz) } by {
        if h > 0 {
            if px == lx && py == h && pz == lz {
                lemma_get_after_set(c3, lx, h, lz, BlockType::Grass);
            } else {
                lemma_get_other_after_set(c3, lx, h, lz, BlockType::Grass, px, py, pz);
            }
        }
    }

    // Water up to sea level, sand under it
    let sea_level = SEA_LEVEL;
    if height < sea_level {
        let mut y: usize = height + 1;
        while y <= sea_level
            invariant
                chunk.wf(),
                local_x < CHUNK_SIZE,
                local_z < CHUNK_SIZE,
                lx == local_x,
                lz == local_z,
                height < sea_level,
                sea_level == SEA_LEVEL,
                height + 1 <= y <= sea_level + 1,
                forall|px: int, py: int, pz: int| in_chunk(px, py, pz) ==> #[trigger] spec_get(chunk@, px, py, pz)
                    == if px == lx && pz == lz && height < py < y && spec_get(c4, px, py, pz) == BlockType::Air {
                        BlockType::Water
                    } else {
                        spec_get(c4, px, py, pz)
                    },
            decreases sea_level + 1 - y,
        {
            let ghost before = chunk@;
            if chunk.get(local_x, y, local_z) == BlockType::Air {
                chunk.set(local_x, y, local_z, BlockType::Water);
            }
            assert forall|px: int, py: int, pz: int| in_chunk(px, py, pz) implies #[trigger] spec_get(chunk@, px, py, pz)
                == if px == lx && pz == lz && height < py < y + 1 && spec_get(c4, px, py, pz) == BlockType::Air {
                    BlockType::Water
                } else {
                    spec_get(c4, px, py, pz)
                } by {
                if px == lx && py == y && pz == lz {
                    lemma_get_after_set(before, lx, y as int, lz, BlockType::Water);
                } else {
                    lemma_get_other_after_set(before, lx, y as int, lz, BlockType::Water, px, py, pz);
                }
            }
            y += 1;
        }
        let ghost c5 = chunk@;
        if height > 0 {
            chunk.set(local_x, height, local_z, BlockType::Sand);
        }
        assert forall|px: int, py: int, pz: int| in_chunk(px, py, pz) implies #[trigger] spec_get(chunk@, px, py, pz)
            == if px == lx && pz == lz {
                column_block(spec_get(c0, px, py, pz), h, py)
            } else {
                spec_get(c0, px, py, pz)
            } by {
            if height > 0 {
                if px == lx && py == h && pz == lz {
                    lemma_get_after_set(c5, lx, h, lz, BlockType::Sand);
                } else {
                    lemma_get_other_after_set(c5, lx, h, lz, BlockType::Sand, px, py, pz);
                }
            }
        }
    } else {
        assert forall|px: int, py: int, pz: int| in_chunk(px, py, pz) implies #[trigger] spec_get(chunk@, px, py, pz)
            == if px == lx && pz == lz {
                column_block(spec_get(c0, px, py, pz), h, py)
            } else {
                spec_get(c0, px, py, pz)
            } by {
        }
    }
}

/// A column's surface height, capped at the top of the chunk.
pub open spec fn capped_height(h: usize) -> int {
    if h < CHUNK_HEIGHT - 1 { h as int } else { CHUNK_HEIGHT - 1 }
}

/// The chunk that terrain of the given column heights gives when laid over air.
pub open spec fn terrain_of(heights: Seq<usize>) -> Seq<BlockType> {
    Seq::new(
        TOTAL_BLOCKS as nat,
        |i: int| column_block(BlockType::Air, capped_height(heights[i % 16 + 16 * ((i / 16) % 16)]), i / 256),
    )
}

proof fn lemma_get_terrain_of(heights: Seq<usize>, px: int, py: int, pz: int)
    requires
        in_chunk(px, py, pz),
    ensures
        spec_get(terrain_of(heights), px, py, pz)
            == column_block(BlockType::Air, capped_height(heights[px + 16 * pz]), py),
{
    let i = crate::chunk::cell_index(px, py, pz);
    crate::chunk::lemma_cell_index_bounds(px, py, pz);
    lemma_cell_of_index(i);
    crate::chunk::lemma_cell_index_injective(px, py, pz, i % 16, i / 256, (i / 16) % 16);
}

/// The terrain of a whole chunk, from air, given each column's surface
/// height (column (x, z) at `heights[x + 16 * z]`).
pub fn shape_terrain(heights: &Vec<usize>) -> (chunk: ChunkData)
    requires
        heights@.len() == CHUNK_SIZE * CHUNK_SIZE,
    ensures
        chunk.wf(),
        forall|px: int, py: int, pz: int| in_chunk(px, py, pz) ==>
            #[trigger] spec_get(chunk@, px, py, pz) == column_block(
                BlockType::Air,
                if heights@[px + 16 * pz] < CHUNK_HEIGHT - 1 { heights@[px + 16 * pz] as int } else { CHUNK_HEIGHT - 1 },
                py,
            ),
        chunk@ == terrain_of(heights@),
{
    let mut chunk = ChunkData::new_air();
    let mut local_x: usize = 0;
    while local_x < CHUNK_SIZE
        invariant
            chunk.wf(),
            local_x <= CHUNK_SIZE,
            heights@.len() == CHUNK_SIZE * CHUNK_SIZE,
            forall|px: int, py: int, pz: int| in_chunk(px, py, pz) ==>
                #[trigger] spec_get(chunk@, px, py, pz) == if px < local_x {
                    column_block(
                        BlockType::Air,
                        if heights@[px + 16 * pz] < CHUNK_HEIGHT - 1 { heights@[px + 16 * pz] as int } else { CHUNK_HEIGHT - 1 },
                        py,
                    )
                } else {
                    BlockType::Air
                },
        decreases CHUNK_SIZE - local_x,
    {
        let mut local_z: usize = 0;
        while local_z < CHUNK_SIZE
            invariant
                chunk.wf(),
                local_x < CHUNK_SIZE,
                local_z <= CHUNK_SIZE,
                heights@.len() == CHUNK_SIZE * CHUNK_SIZE,
                forall|px: int, py: int, pz: int| in_chunk(px, py, pz) ==>
                    #[trigger] spec_get(chunk@, px, py, pz) == if px < local_x || (px == local_x && pz < local_z) {
                        column_block(
                            BlockType::Air,
                            if heights@[px + 16 * pz] < CHUNK_HEIGHT - 1 { heights@[px + 16 * pz] as int } else { CHUNK_HEIGHT - 1 },
                            py,
                        )
                    } else {
                        BlockType::Air
                    },
            decreases CHUNK_SIZE - local_z,
        {
            let h = heights[local_x + CHUNK_SIZE * local_z];
            fill_column(&mut chunk, local_x, local_z, h);
            local_z += 1;
        }
        local_x += 1;
    }
    proof {
        assert forall|px: int, py: int, pz: int| in_chunk(px, py, pz) implies
            #[trigger] spec_get(chunk@, px, py, pz) == spec_get(terrain_of(heights@), px, py, pz) by {
            lemma_get_terrain_of(heights@, px, py, pz);
        }
        lemma_chunk_ext(chunk@, terrain_of(heights@));
    }
    chunk
}

/// Highest height below `y` in column (x, z) that holds grass, or 0 when
/// there is none.
pub open spec fn grass_below(c: Seq<BlockType>, x: int, z: int, y: int) -> int
    decreases y,
{
    if y <= 0 {
        0
    } else if spec_get(c, x, y - 1, z) == BlockType::Grass {
        y - 1
    } else {
        grass_below(c, x, z, y - 1)
    }
}

/// The chunk after considering a tree at column (x, z): where the column is
/// marked and its highest grass lies above sea level with room for a whole
/// tree, a tree is grown on that grass.
pub open spec fn tree_step(c: Seq<BlockType>, spots: Seq<bool>, x: int, z: int) -> Seq<BlockType> {
    let g = grass_below(c, x, z, CHUNK_HEIGHT as int);
    if spots[x + 16 * z] && g > SEA_LEVEL && g + 7 < CHUNK_HEIGHT {
        tree_placed(c, x, g + 1, z)
    } else {
        c
    }
}

/// The chunk after the first `k` candidate columns have been considered; the
/// candidates are the columns at least 3 cells from the chunk's sides, x
/// outer and z inner.
pub open spec fn grow_trees(c: Seq<BlockType>, spots: Seq<bool>, k: nat) -> Seq<BlockType>
    decreases k,
{
    if k == 0 {
        c
    } else {
        let j = (k - 1) as int;
        tree_step(grow_trees(c, spots, (k - 1) as nat), spots, 3 + j / 10, 3 + j % 10)
    }
}

fn top_grass(chunk: &ChunkData, x: usize, z: usize) -> (g: usize)
    requires
        chunk.wf(),
        x < CHUNK_SIZE,
        z < CHUNK_SIZE,
    ensures
        g == grass_below(chunk@, x as int, z as int, CHUNK_HEIGHT as int),
        g < CHUNK_HEIGHT,
{
    let mut y: usize = CHUNK_HEIGHT;
    while y > 0
        invariant
            chunk.wf(),
            x < CHUNK_SIZE,
            z < CHUNK_SIZE,
            y <= CHUNK_HEIGHT,
            grass_below(chunk@, x as int, z as int, CHUNK_HEIGHT as int) == grass_below(chunk@, x as int, z as int, y as int),
        decreases y,
    {
        if chunk.get(x, y - 1, z) == BlockType::Grass {
            return y - 1;
        }
        y -= 1;
    }
    0
}

/// Grow trees on the marked columns (`spots[x + 16 * z]`), skipping a border
/// of 3 cells on each side: each tree stands on the column's highest grass,
/// if that is above sea level and leaves room for the whole tree.
pub fn generate_trees(chunk: &mut ChunkData, spots: &Vec<bool>)
    requires
        old(chunk).wf(),
        spots@.len() == CHUNK_SIZE * CHUNK_SIZE,
    ensures
        final(chunk).wf(),
        final(chunk)@ == grow_trees(old(chunk)@, spots@, 100),
{
    let ghost c0 = chunk@;
    let mut local_x: usize = 3;
    while local_x < CHUNK_SIZE - 3
        invariant
            chunk.wf(),
            3 <= local_x <= CHUNK_SIZE - 3,
            spots@.len() == CHUNK_SIZE * CHUNK_SIZE,
            chunk@ == grow_trees(c0, spots@, ((local_x - 3) * 10) as nat),
        decreases CHUNK_SIZE - local_x,
    {
        let mut local_z: usize = 3;
        while local_z < CHUNK_SIZE - 3
            invariant
                chunk.wf(),
                3 <= local_x < CHUNK_SIZE - 3,
                3 <= local_z <= CHUNK_SIZE - 3,
                spots@.len() == CHUNK_SIZE * CHUNK_SIZE,
                chunk@ == grow_trees(c0, spots@, ((local_x - 3) * 10 + (local_z - 3)) as nat),
            decreases CHUNK_SIZE - local_z,
        {
            let ghost k = ((local_x - 3) * 10 + (local_z - 3)) as int;
            assert(3 + k / 10 == local_x && 3 + k % 10 == local_z) by (nonlinear_arith)
                requires
                    k == (local_x - 3) * 10 + (local_z - 3),
                    3 <= local_z < 13,
            ;
            if spots[local_x + CHUNK_SIZE * local_z] {
                let ground_y = top_grass(chunk, local_x, local_z);
                if ground_y > SEA_LEVEL && ground_y + 7 < CHUNK_HEIGHT {
                    place_tree(chunk, local_x, ground_y + 1, local_z);
                }
            }
            local_z += 1;
        }
        local_x += 1;
    }
}

/// Terrain laid over air: bedrock at the bottom of any column taller than
/// four blocks, grass on top of a column at or above sea level and sand on
/// top of one below it, water between the surface and sea level, and air
/// above both.
pub proof fn lemma_fresh_column(h: int, y: int)
    requires
        0 <= h < CHUNK_HEIGHT,
        0 <= y < CHUNK_HEIGHT,
    ensures
        h > 4 && y == 0 ==> column_block(BlockType::Air, h, y) == BlockType::Bedrock,
        h >= SEA_LEVEL && y == h ==> column_block(BlockType::Air, h, y) == BlockType::Grass,
        0 < h < SEA_LEVEL && y == h ==> column_block(BlockType::Air, h, y) == BlockType::Sand,
        h < y <= SEA_LEVEL ==> column_block(BlockType::Air, h, y) == BlockType::Water,
        y > h && y > SEA_LEVEL ==> column_block(BlockType::Air, h, y) == BlockType::Air,
{
}

/// Growing a tree changes only trunk cells, which become wood, and air cells
/// of the crown, which become leaves; every other block is left as it was.
pub proof fn lemma_tree_keeps_ground(prev: BlockType, x: int, base: int, z: int, px: int, py: int, pz: int)
    ensures
        !in_trunk(x, base, z, px, py, pz) && prev != BlockType::Air ==> tree_cell(prev, x, base, z, px, py, pz) == prev,
        in_trunk(x, base, z, px, py, pz) ==> tree_cell(prev, x, base, z, px, py, pz) == BlockType::Wood,
{
}

/// The shape every generated cell keeps: bedrock exactly at the bottom
/// layer, no air from the layer above it up to sea level, water only up to
/// sea level, wood only in the tree columns (three cells in from the sides)
/// above sea level, leaves only from six above sea level, and no other kind
/// of block than air, bedrock, stone, dirt, grass, sand, water, wood and leaves.
pub open spec fn terrain_cell_ok(b: BlockType, x: int, y: int, z: int) -> bool {
    &&& (y == 0 <==> b == BlockType::Bedrock)
    &&& (1 <= y <= SEA_LEVEL ==> b != BlockType::Air)
    &&& (b == BlockType::Water ==> y <= SEA_LEVEL)
    &&& (b == BlockType::Wood ==> 3 <= x <= 12 && 3 <= z <= 12 && y >= SEA_LEVEL + 2)
    &&& (b == BlockType::Leaves ==> y >= SEA_LEVEL + 6)
    &&& (b == BlockType::Air || b == BlockType::Bedrock || b == BlockType::Stone || b == BlockType::Dirt
        || b == BlockType::Grass || b == BlockType::Sand || b == BlockType::Water || b == BlockType::Wood
        || b == BlockType::Leaves)
}

/// Every cell of a chunk keeps the generated shape.
pub open spec fn terrain_ok(c: Seq<BlockType>) -> bool {
    forall|x: int, y: int, z: int| in_chunk(x, y, z) ==> terrain_cell_ok(#[trigger] spec_get(c, x, y, z), x, y, z)
}

proof fn lemma_get_tree_placed(c: Seq<BlockType>, x: int, base: int, z: int, px: int, py: int, pz: int)
    requires
        c.len() == TOTAL_BLOCKS,
        in_chunk(px, py, pz),
    ensures
        spec_get(tree_placed(c, x, base, z), px, py, pz) == tree_cell(spec_get(c, px, py, pz), x, base, z, px, py, pz),
{
    let i = crate::chunk::cell_index(px, py, pz);
    crate::chunk::lemma_cell_index_bounds(px, py, pz);
    lemma_cell_of_index(i);
    crate::chunk::lemma_cell_index_injective(px, py, pz, i % 16, i / 256, (i / 16) % 16);
}

proof fn lemma_grow_trees_ok(c: Seq<BlockType>, spots: Seq<bool>, k: nat)
    requires
        c.len() == TOTAL_BLOCKS,
        spots.len() == CHUNK_SIZE * CHUNK_SIZE,
        terrain_ok(c),
        k <= 100,
    ensures
        grow_trees(c, spots, k).len() == TOTAL_BLOCKS,
        terrain_ok(grow_trees(c, spots, k)),
    decreases k,
{
    if k > 0 {
        let j = (k - 1) as int;
        lemma_grow_trees_ok(c, spots, (k - 1) as nat);
        let prev = grow_trees(c, spots, (k - 1) as nat);
        let x = 3 + j / 10;
        let z = 3 + j % 10;
        assert(0 <= j / 10 < 10 && 0 <= j % 10 < 10) by (nonlinear_arith)
            requires
                0 <= j < 100,
        ;
        let g = grass_below(prev, x, z, CHUNK_HEIGHT as int);
        if spots[x + 16 * z] && g > SEA_LEVEL && g + 7 < CHUNK_HEIGHT {
            let next = tree_placed(prev, x, g + 1, z);
            assert forall|px: int, py: int, pz: int| in_chunk(px, py, pz) implies
                terrain_cell_ok(#[trigger] spec_get(next, px, py, pz), px, py, pz) by {
                lemma_get_tree_placed(prev, x, g + 1, z, px, py, pz);
                assert(terrain_cell_ok(spec_get(prev, px, py, pz), px, py, pz));
            }
        }
    }
}

/// Generated terrain keeps its shape: lay terrain of column heights above
/// four over air and grow trees on any spots, and bedrock lies exactly at
/// the bottom, nothing between it and sea level is air, water stays at or
/// below sea level, wood stands only in the tree columns above sea level,
/// leaves only from six above sea level, and no other kind of block appears.
pub proof fn lemma_generated_terrain(heights: Seq<usize>, spots: Seq<bool>)
    requires
        heights.len() == CHUNK_SIZE * CHUNK_SIZE,
        spots.len() == CHUNK_SIZE * CHUNK_SIZE,
        forall|i: int| 0 <= i < heights.len() ==> #[trigger] heights[i] > 4,
    ensures
        terrain_ok(grow_trees(terrain_of(heights), spots, 100)),
{
    assert forall|x: int, y: int, z: int| in_chunk(x, y, z) implies
        terrain_cell_ok(#[trigger] spec_get(terrain_of(heights), x, y, z), x, y, z) by {
        lemma_get_terrain_of(heights, x, y, z);
        assert(heights[x + 16 * z] > 4);
    }
    lemma_grow_trees_ok(terrain_of(heights), spots, 100);
}

} // verus!
