use voxel_world::chunk::Chunk;
use voxel_world::collider::{merge_exposed_faces, quad_geometry, ColliderShape};
use voxel_world::coords::{BlockId, ChunkId, Direction};
use voxel_world::voxel::BlockType;

#[test]
fn solid_chunk_is_one_cuboid() {
    let c = Chunk::filled(ChunkId::new(0, 0, 0), BlockType::Stone);
    match c.gen_collider() {
        Some(ColliderShape::Cuboid { center, half_extent }) => {
            assert_eq!(center, (60, 60, 60));
            assert_eq!(half_extent, 64);
        }
        other => panic!("{:?}", other),
    }
}

#[test]
fn non_solid_chunk_has_no_collider() {
    assert!(Chunk::empty(ChunkId::new(0, 0, 0)).gen_collider().is_none());
    assert!(Chunk::filled(ChunkId::new(0, 0, 0), BlockType::Water).gen_collider().is_none());
}

#[test]
fn single_block_gives_six_unit_quads() {
    let mut c = Chunk::empty(ChunkId::new(0, 0, 0));
    c.set_block(BlockId::new(4, 4, 4), BlockType::Stone);
    match c.gen_collider() {
        Some(ColliderShape::TriMesh { quads, vertices, triangles }) => {
            assert_eq!(quads.len(), 6);
            assert!(quads.iter().all(|q| q.length == 1 && q.width == 1));
            assert_eq!(vertices.len(), 24);
            assert_eq!(triangles.len(), 12);
            assert_eq!(triangles[2], (6, 7, 4));
            assert_eq!(triangles[3], (4, 5, 6));
            // the up quad lies half a block above the block centre
            assert_eq!(quads[0].direction, Direction::Up);
            assert!(vertices[0..4].iter().all(|v| v.1 == 36));
        }
        other => panic!("{:?}", other),
    }
}

#[test]
fn full_layer_merges_into_six_quads() {
    let mut c = Chunk::empty(ChunkId::new(0, 0, 0));
    for x in 0..16 {
        for z in 0..16 {
            c.set_block(BlockId::new(x, 0, z), BlockType::Stone);
        }
    }
    let quads = merge_exposed_faces(&c);
    assert_eq!(quads.len(), 6);
    let up = quads.iter().find(|q| q.direction == Direction::Up).unwrap();
    assert_eq!((up.length, up.width), (16, 16));
    let left = quads.iter().find(|q| q.direction == Direction::Left).unwrap();
    assert_eq!((left.length, left.width), (16, 1));
    let (v, t) = quad_geometry(&quads);
    assert_eq!(v.len(), 24);
    assert_eq!(t.len(), 12);
}

#[test]
fn width_grows_only_over_full_rows() {
    // an L shape on the floor: the top faces cannot form one rectangle
    let mut c = Chunk::empty(ChunkId::new(0, 0, 0));
    c.set_block(BlockId::new(0, 0, 0), BlockType::Stone);
    c.set_block(BlockId::new(0, 0, 1), BlockType::Stone);
    c.set_block(BlockId::new(1, 0, 0), BlockType::Stone);
    let quads = merge_exposed_faces(&c);
    let ups: Vec<_> = quads.iter().filter(|q| q.direction == Direction::Up).collect();
    let covered: i32 = ups.iter().map(|q| q.length * q.width).sum();
    assert_eq!(covered, 3);
    assert_eq!(ups.len(), 2);
}
