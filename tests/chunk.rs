use voxel_world::chunk::Chunk;
use voxel_world::coords::{BlockId, ChunkId};
use voxel_world::voxel::{BlockType, Tint};
use voxel_world::coords::Direction;

#[test]
fn index_is_x_then_z_then_y() {
    assert_eq!(Chunk::index(1, 0, 0), 1);
    assert_eq!(Chunk::index(0, 0, 1), 16);
    assert_eq!(Chunk::index(0, 1, 0), 256);
    assert_eq!(Chunk::index(15, 15, 15), 4095);
}

#[test]
fn set_then_get() {
    let mut c = Chunk::empty(ChunkId::new(0, 0, 0));
    c.set_block(BlockId::new(3, 4, 5), BlockType::Stone);
    assert_eq!(c.get_block(BlockId::new(3, 4, 5)), BlockType::Stone);
    assert_eq!(c.blocks[3 + 5 * 16 + 4 * 256], BlockType::Stone);
    assert_eq!(c.get_block(BlockId::new(4, 4, 5)), BlockType::Air);
}

#[test]
fn out_of_bounds_reads_air_and_writes_nothing() {
    let mut c = Chunk::filled(ChunkId::new(0, 0, 0), BlockType::Dirt);
    assert_eq!(c.get_block(BlockId::new(16, 0, 0)), BlockType::Air);
    assert_eq!(c.get_block(BlockId::new(0, -1, 0)), BlockType::Air);
    c.set_block(BlockId::new(0, 0, 16), BlockType::Stone);
    assert!(c.blocks.iter().all(|b| *b == BlockType::Dirt));
}

#[test]
fn snapshot_copies_everything() {
    let mut c = Chunk::filled(ChunkId::new(1, 2, 3), BlockType::Sand);
    c.set_entity(42);
    c.set_block(BlockId::new(0, 0, 0), BlockType::Water);
    let s = c.snapshot();
    assert_eq!(s.id, c.id);
    assert_eq!(s.entity, Some(42));
    assert_eq!(s.blocks, c.blocks);
}

#[test]
fn block_properties() {
    assert!(BlockType::Air.is_transparent());
    assert!(BlockType::Water.is_transparent());
    assert!(!BlockType::Water.is_solid());
    assert!(BlockType::Stone.is_solid());
    assert!(!BlockType::DeadBush.is_solid());
    assert_eq!(BlockType::Grass.get_texture_paths().len(), 3);
    assert_eq!(BlockType::Stone.get_texture_paths(), vec!["PureBDcraft/textures/block/stone.png"]);
    assert!(BlockType::Air.get_texture_paths().is_empty());
    assert_eq!(BlockType::Grass.face_texture(Direction::Up), 0);
    assert_eq!(BlockType::Grass.face_texture(Direction::Left), 1);
    assert_eq!(BlockType::Grass.face_texture(Direction::Down), 2);
    assert_eq!(BlockType::Grass.face_tint(Direction::Up), Tint::Foliage);
    assert_eq!(BlockType::Grass.face_tint(Direction::Right), Tint::Plain);
    assert_eq!(BlockType::from_roll(0), BlockType::Bedrock);
    assert_eq!(BlockType::from_roll(8), BlockType::Grass);
}
