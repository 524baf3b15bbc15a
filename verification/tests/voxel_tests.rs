use ronincraft::voxel::{BlockType, BLOCK_KINDS};

const ALL: [BlockType; 15] = [
    BlockType::Air,
    BlockType::Stone,
    BlockType::Dirt,
    BlockType::Grass,
    BlockType::Sand,
    BlockType::Wood,
    BlockType::Leaves,
    BlockType::Water,
    BlockType::Cobblestone,
    BlockType::Planks,
    BlockType::Bedrock,
    BlockType::Gravel,
    BlockType::Iron,
    BlockType::Coal,
    BlockType::Snow,
];

#[test]
fn solidity_of_blocks() {
    for b in ALL {
        let expected = !(b == BlockType::Air || b == BlockType::Water);
        assert_eq!(b.is_solid(), expected, "{:?}", b);
    }
}

#[test]
fn transparency_of_blocks() {
    for b in ALL {
        let expected = b == BlockType::Air || b == BlockType::Water || b == BlockType::Leaves;
        assert_eq!(b.is_transparent(), expected, "{:?}", b);
    }
}

#[test]
fn hardness_in_tenths() {
    assert_eq!(BlockType::Air.hardness(), Some(0));
    assert_eq!(BlockType::Bedrock.hardness(), None);
    assert_eq!(BlockType::Stone.hardness(), Some(15));
    assert_eq!(BlockType::Cobblestone.hardness(), Some(15));
    assert_eq!(BlockType::Iron.hardness(), Some(30));
    assert_eq!(BlockType::Coal.hardness(), Some(20));
    assert_eq!(BlockType::Wood.hardness(), Some(20));
    assert_eq!(BlockType::Planks.hardness(), Some(15));
    assert_eq!(BlockType::Dirt.hardness(), Some(5));
    assert_eq!(BlockType::Grass.hardness(), Some(5));
    assert_eq!(BlockType::Sand.hardness(), Some(5));
    assert_eq!(BlockType::Gravel.hardness(), Some(5));
    assert_eq!(BlockType::Leaves.hardness(), Some(2));
    assert_eq!(BlockType::Snow.hardness(), Some(2));
    assert_eq!(BlockType::Water.hardness(), Some(0));
}

#[test]
fn block_ids_follow_declaration_order() {
    for (i, b) in ALL.iter().enumerate() {
        assert_eq!(b.id() as usize, i);
    }
}

#[test]
fn block_id_roundtrip() {
    for b in ALL {
        assert_eq!(BlockType::from_id(b.id()), Some(b));
    }
}

#[test]
fn unknown_block_ids() {
    assert_eq!(BlockType::from_id(BLOCK_KINDS), None);
    assert_eq!(BlockType::from_id(255), None);
}
