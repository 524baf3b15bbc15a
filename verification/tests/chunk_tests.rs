use ronincraft::chunk::{
    block_chunk_coord, block_local_coord, find_surface_y, locate_block, BlockAddress, ChunkData, CHUNK_HEIGHT,
    CHUNK_SIZE, TOTAL_BLOCKS,
};
use ronincraft::voxel::BlockType;

#[test]
fn new_chunk_is_air() {
    let c = ChunkData::new_air();
    assert_eq!(c.get(0, 0, 0), BlockType::Air);
    assert_eq!(c.get(15, 127, 15), BlockType::Air);
    assert_eq!(TOTAL_BLOCKS, 16 * 128 * 16);
}

#[test]
fn cell_index_formula() {
    assert_eq!(ChunkData::index(0, 0, 0), 0);
    assert_eq!(ChunkData::index(1, 2, 3), 1 + 3 * 16 + 2 * 256);
    assert_eq!(ChunkData::index(15, 127, 15), TOTAL_BLOCKS - 1);
}

#[test]
fn get_after_set() {
    let mut c = ChunkData::new_air();
    c.set(3, 64, 7, BlockType::Stone);
    assert_eq!(c.get(3, 64, 7), BlockType::Stone);
    assert_eq!(c.get(3, 65, 7), BlockType::Air);
    assert_eq!(c.get(7, 64, 3), BlockType::Air);
    c.set(3, 64, 7, BlockType::Dirt);
    assert_eq!(c.get(3, 64, 7), BlockType::Dirt);
}

#[test]
fn outside_the_chunk_is_air_and_unwritable() {
    let mut c = ChunkData::new_air();
    c.set(CHUNK_SIZE, 0, 0, BlockType::Stone);
    c.set(0, CHUNK_HEIGHT, 0, BlockType::Stone);
    c.set(0, 0, CHUNK_SIZE, BlockType::Stone);
    let fresh = ChunkData::new_air();
    assert!(!c.differs_from(&fresh));
    assert_eq!(c.get(CHUNK_SIZE, 0, 0), BlockType::Air);
    assert_eq!(c.get(0, 500, 0), BlockType::Air);
}

#[test]
fn bytes_roundtrip() {
    let mut c = ChunkData::new_air();
    c.set(0, 0, 0, BlockType::Bedrock);
    c.set(5, 70, 9, BlockType::Snow);
    c.set(15, 127, 15, BlockType::Water);
    let bytes = c.blocks_as_bytes();
    assert_eq!(bytes.len(), TOTAL_BLOCKS);
    assert_eq!(bytes[0], 10);
    assert_eq!(bytes[ChunkData::index(5, 70, 9)], 14);
    let back = ChunkData::from_bytes(&bytes);
    assert!(!back.differs_from(&c));
    assert_eq!(back.get(5, 70, 9), BlockType::Snow);
}

#[test]
fn from_bytes_fills_unknown_and_missing_with_air() {
    let bytes = vec![1u8, 99, 3];
    let c = ChunkData::from_bytes(&bytes);
    assert_eq!(c.get(0, 0, 0), BlockType::Stone);
    assert_eq!(c.get(1, 0, 0), BlockType::Air);
    assert_eq!(c.get(2, 0, 0), BlockType::Grass);
    assert_eq!(c.get(3, 0, 0), BlockType::Air);
}

#[test]
fn differs_from_detects_one_cell() {
    let a = ChunkData::new_air();
    let mut b = ChunkData::new_air();
    assert!(!a.differs_from(&b));
    b.set(8, 100, 8, BlockType::Sand);
    assert!(a.differs_from(&b));
}

#[test]
fn world_to_chunk_coordinates() {
    assert_eq!(block_chunk_coord(0), 0);
    assert_eq!(block_chunk_coord(15), 0);
    assert_eq!(block_chunk_coord(16), 1);
    assert_eq!(block_chunk_coord(-1), -1);
    assert_eq!(block_chunk_coord(-16), -1);
    assert_eq!(block_chunk_coord(-17), -2);
    assert_eq!(block_local_coord(17), 1);
    assert_eq!(block_local_coord(-1), 15);
    assert_eq!(block_local_coord(-16), 0);
    for v in [-40i32, -17, -1, 0, 5, 31, 1000] {
        assert_eq!(block_chunk_coord(v) * 16 + block_local_coord(v) as i32, v);
    }
}

#[test]
fn locate_block_in_world() {
    assert_eq!(locate_block(5, -1, 5), None);
    assert_eq!(locate_block(5, 128, 5), None);
    assert_eq!(
        locate_block(-3, 64, 33),
        Some(BlockAddress { chunk_x: -1, chunk_z: 2, local_x: 13, y: 64, local_z: 1 })
    );
}

#[test]
fn surface_height_of_column() {
    let mut c = ChunkData::new_air();
    assert_eq!(find_surface_y(&c, 3, 4), None);
    c.set(3, 10, 4, BlockType::Stone);
    c.set(3, 40, 4, BlockType::Grass);
    c.set(3, 41, 4, BlockType::Water);
    assert_eq!(find_surface_y(&c, 3, 4), Some(40));
    // world coordinates are reduced to the column inside the chunk
    assert_eq!(find_surface_y(&c, 19, -12), Some(40));
}
