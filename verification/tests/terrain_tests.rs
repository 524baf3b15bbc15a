use ronincraft::chunk::{ChunkData, CHUNK_SIZE};
use ronincraft::terrain::{fill_column, generate_trees, place_tree, shape_terrain};
use ronincraft::voxel::BlockType;

#[test]
fn column_above_sea_level() {
    let mut c = ChunkData::new_air();
    fill_column(&mut c, 2, 3, 70);
    assert_eq!(c.get(2, 0, 3), BlockType::Bedrock);
    assert_eq!(c.get(2, 1, 3), BlockType::Stone);
    assert_eq!(c.get(2, 65, 3), BlockType::Stone);
    assert_eq!(c.get(2, 66, 3), BlockType::Dirt);
    assert_eq!(c.get(2, 69, 3), BlockType::Dirt);
    assert_eq!(c.get(2, 70, 3), BlockType::Grass);
    assert_eq!(c.get(2, 71, 3), BlockType::Air);
    assert_eq!(c.get(3, 70, 3), BlockType::Air);
}

#[test]
fn column_below_sea_level() {
    let mut c = ChunkData::new_air();
    fill_column(&mut c, 0, 0, 50);
    assert_eq!(c.get(0, 49, 0), BlockType::Dirt);
    assert_eq!(c.get(0, 50, 0), BlockType::Sand);
    assert_eq!(c.get(0, 51, 0), BlockType::Water);
    assert_eq!(c.get(0, 60, 0), BlockType::Water);
    assert_eq!(c.get(0, 61, 0), BlockType::Air);
}

#[test]
fn shallow_and_tall_columns() {
    let mut c = ChunkData::new_air();
    fill_column(&mut c, 0, 0, 3);
    // the dirt layer reaches the bottom and replaces the bedrock
    assert_eq!(c.get(0, 0, 0), BlockType::Dirt);
    assert_eq!(c.get(0, 3, 0), BlockType::Sand);
    fill_column(&mut c, 1, 1, 500);
    assert_eq!(c.get(1, 127, 1), BlockType::Grass);
    assert_eq!(c.get(1, 123, 1), BlockType::Dirt);
    fill_column(&mut c, 2, 2, 0);
    assert_eq!(c.get(2, 0, 2), BlockType::Bedrock);
    assert_eq!(c.get(2, 1, 2), BlockType::Water);
}

#[test]
fn water_does_not_replace_blocks() {
    let mut c = ChunkData::new_air();
    c.set(4, 55, 4, BlockType::Wood);
    fill_column(&mut c, 4, 4, 40);
    assert_eq!(c.get(4, 55, 4), BlockType::Wood);
    assert_eq!(c.get(4, 54, 4), BlockType::Water);
}

#[test]
fn whole_chunk_terrain() {
    let mut heights = vec![64usize; CHUNK_SIZE * CHUNK_SIZE];
    heights[5 + 16 * 7] = 58;
    let c = shape_terrain(&heights);
    assert_eq!(c.get(0, 64, 0), BlockType::Grass);
    assert_eq!(c.get(15, 64, 15), BlockType::Grass);
    assert_eq!(c.get(5, 58, 7), BlockType::Sand);
    assert_eq!(c.get(5, 60, 7), BlockType::Water);
    assert_eq!(c.get(7, 58, 5), BlockType::Stone);
    assert_eq!(c.get(7, 60, 5), BlockType::Dirt);
}

#[test]
fn tree_shape() {
    let mut c = ChunkData::new_air();
    c.set(8, 70, 8, BlockType::Grass);
    place_tree(&mut c, 8, 71, 8);
    for y in 71..76 {
        assert_eq!(c.get(8, y, 8), BlockType::Wood);
    }
    assert_eq!(c.get(8, 70, 8), BlockType::Grass);
    // crown: layers 75..=77 of radius 2, layer 78 of radius 1
    assert_eq!(c.get(6, 75, 6), BlockType::Leaves);
    assert_eq!(c.get(10, 77, 10), BlockType::Leaves);
    assert_eq!(c.get(8, 76, 8), BlockType::Air);
    assert_eq!(c.get(8, 78, 8), BlockType::Leaves);
    assert_eq!(c.get(9, 78, 9), BlockType::Leaves);
    assert_eq!(c.get(10, 78, 8), BlockType::Air);
    assert_eq!(c.get(8, 74, 6), BlockType::Air);
    let leaves = (0..16)
        .flat_map(|x| (0..128).flat_map(move |y| (0..16).map(move |z| (x, y, z))))
        .filter(|&(x, y, z)| c.get(x, y, z) == BlockType::Leaves)
        .count();
    assert_eq!(leaves, 3 * 24 + 9);
}

#[test]
fn leaves_spare_existing_blocks_and_stop_at_edges() {
    let mut c = ChunkData::new_air();
    c.set(1, 75, 1, BlockType::Stone);
    place_tree(&mut c, 0, 70, 0);
    assert_eq!(c.get(1, 75, 1), BlockType::Stone);
    assert_eq!(c.get(2, 75, 2), BlockType::Leaves);
    assert_eq!(c.get(0, 74, 0), BlockType::Wood);
}

#[test]
fn trees_grow_on_marked_high_grass() {
    let mut heights = vec![64usize; CHUNK_SIZE * CHUNK_SIZE];
    heights[4 + 16 * 4] = 55;
    let mut c = shape_terrain(&heights);
    let mut spots = vec![false; CHUNK_SIZE * CHUNK_SIZE];
    spots[6 + 16 * 6] = true;
    spots[4 + 16 * 4] = true; // below sea level: no grass, no tree
    spots[1 + 16 * 1] = true; // in the border: ignored
    generate_trees(&mut c, &spots);
    assert_eq!(c.get(6, 65, 6), BlockType::Wood);
    assert_eq!(c.get(6, 69, 6), BlockType::Wood);
    assert_eq!(c.get(6, 72, 6), BlockType::Leaves);
    assert_eq!(c.get(4, 56, 4), BlockType::Water);
    assert_eq!(c.get(1, 65, 1), BlockType::Air);
}

#[test]
fn generated_terrain_keeps_its_shape() {
    let heights: Vec<usize> = (0..256).map(|i| 16 + (i * 7) % 97).collect();
    let spots: Vec<bool> = (0..256).map(|i| i % 3 == 0).collect();
    let mut c = shape_terrain(&heights);
    generate_trees(&mut c, &spots);
    let mut wood = 0;
    for x in 0..16 {
        for z in 0..16 {
            for y in 0..128 {
                let b = c.get(x, y, z);
                assert_eq!(y == 0, b == BlockType::Bedrock);
                if (1..=60).contains(&y) {
                    assert_ne!(b, BlockType::Air);
                }
                if b == BlockType::Water {
                    assert!(y <= 60);
                }
                if b == BlockType::Wood {
                    wood += 1;
                    assert!((3..=12).contains(&x) && (3..=12).contains(&z) && y >= 62);
                }
                if b == BlockType::Leaves {
                    assert!(y >= 66);
                }
            }
        }
    }
    assert!(wood > 0);
}
