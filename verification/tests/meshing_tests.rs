use ronincraft::chunk::ChunkData;
use ronincraft::meshing::{build_chunk_mesh, Face};
use ronincraft::voxel::BlockType;

#[test]
fn empty_chunk_has_no_faces() {
    let m = build_chunk_mesh(&ChunkData::new_air());
    assert!(m.positions.is_empty());
    assert!(m.indices.is_empty());
}

#[test]
fn lone_block_shows_six_faces() {
    let mut c = ChunkData::new_air();
    c.set(5, 5, 5, BlockType::Stone);
    let m = build_chunk_mesh(&c);
    assert_eq!(m.positions.len(), 24);
    assert_eq!(m.normals.len(), 24);
    assert_eq!(m.blocks.len(), 24);
    assert_eq!(m.indices.len(), 36);
    let order = [Face::Top, Face::Bottom, Face::North, Face::South, Face::East, Face::West];
    for (k, f) in order.iter().enumerate() {
        assert_eq!(m.faces[4 * k], *f);
        assert_eq!(m.normals[4 * k], f.normal());
    }
    assert_eq!(&m.positions[0..4], &[(5, 6, 5), (5, 6, 6), (6, 6, 6), (6, 6, 5)]);
    assert_eq!(&m.positions[4..8], &[(5, 5, 5), (6, 5, 5), (6, 5, 6), (5, 5, 6)]);
    assert_eq!(&m.positions[20..24], &[(5, 5, 5), (5, 5, 6), (5, 6, 6), (5, 6, 5)]);
    assert_eq!(&m.indices[0..6], &[0, 1, 2, 0, 2, 3]);
    assert_eq!(&m.indices[6..12], &[4, 5, 6, 4, 6, 7]);
    assert!(m.blocks.iter().all(|b| *b == BlockType::Stone));
}

#[test]
fn touching_blocks_hide_shared_faces() {
    let mut c = ChunkData::new_air();
    c.set(5, 5, 5, BlockType::Stone);
    c.set(5, 6, 5, BlockType::Dirt);
    let m = build_chunk_mesh(&c);
    assert_eq!(m.positions.len(), 40);
    assert_eq!(m.indices.len(), 60);
    // the lower block comes first and has no top face
    assert_eq!(m.faces[0], Face::Bottom);
}

#[test]
fn lone_transparent_blocks_show_six_faces() {
    let mut c = ChunkData::new_air();
    c.set(0, 0, 0, BlockType::Water);
    let m = build_chunk_mesh(&c);
    assert_eq!(m.positions.len(), 24);
    assert_eq!(m.indices.len(), 36);
    c.set(8, 8, 8, BlockType::Leaves);
    let m = build_chunk_mesh(&c);
    assert_eq!(m.faces.len(), 48);
}

#[test]
fn like_transparent_blocks_hide_their_shared_face() {
    let mut c = ChunkData::new_air();
    c.set(1, 1, 1, BlockType::Water);
    c.set(1, 2, 1, BlockType::Water);
    let m = build_chunk_mesh(&c);
    // 5 faces each: the face between the two water blocks is hidden
    assert_eq!(m.positions.len(), 40);
    // the lower block comes first: bottom, north, south, east, west
    assert_eq!(m.faces[0], Face::Bottom);
    assert_eq!(m.faces[16], Face::West);
    // the upper block starts with its top face
    assert_eq!(m.faces[20], Face::Top);
    assert_eq!(m.positions[20], (1, 3, 1));
}

#[test]
fn unlike_transparent_blocks_show_their_shared_face() {
    let mut c = ChunkData::new_air();
    c.set(1, 1, 1, BlockType::Water);
    c.set(2, 1, 1, BlockType::Leaves);
    let m = build_chunk_mesh(&c);
    assert_eq!(m.positions.len(), 48);
}

#[test]
fn chunk_edges_are_open() {
    let mut c = ChunkData::new_air();
    c.set(0, 0, 0, BlockType::Bedrock);
    c.set(1, 0, 0, BlockType::Bedrock);
    let m = build_chunk_mesh(&c);
    // 6 + 6 faces minus the two shared ones
    assert_eq!(m.positions.len(), 40);
}

#[test]
fn face_normals() {
    assert_eq!(Face::Top.normal(), (0, 1, 0));
    assert_eq!(Face::Bottom.normal(), (0, -1, 0));
    assert_eq!(Face::North.normal(), (0, 0, -1));
    assert_eq!(Face::South.normal(), (0, 0, 1));
    assert_eq!(Face::East.normal(), (1, 0, 0));
    assert_eq!(Face::West.normal(), (-1, 0, 0));
}

#[test]
fn every_quad_is_wound_counter_clockwise_seen_from_outside() {
    let mut c = ChunkData::new_air();
    c.set(5, 5, 5, BlockType::Stone);
    let m = build_chunk_mesh(&c);
    for k in 0..6 {
        let p = |j: usize| {
            let (x, y, z) = m.positions[4 * k + j];
            (x as i64, y as i64, z as i64)
        };
        let (a, b, d) = (p(0), p(1), p(2));
        let u = (b.0 - a.0, b.1 - a.1, b.2 - a.2);
        let v = (d.0 - a.0, d.1 - a.1, d.2 - a.2);
        let cross = (u.1 * v.2 - u.2 * v.1, u.2 * v.0 - u.0 * v.2, u.0 * v.1 - u.1 * v.0);
        let n = m.normals[4 * k];
        assert_eq!(cross, (n.0 as i64, n.1 as i64, n.2 as i64));
    }
}
