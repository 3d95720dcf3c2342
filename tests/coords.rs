use voxel_world::coords::{Axis, BlockId, ChunkId, Direction};
use voxel_world::CHUNK_SIZE;

#[test]
fn test_block_to_chunk() {
    for x in -10..10 {
        for y in -10..10 {
            for z in -10..10 {
                let chunk_id = ChunkId::new(x, y, z);
                for bx in 0..CHUNK_SIZE {
                    for by in 0..CHUNK_SIZE {
                        for bz in 0..CHUNK_SIZE {
                            let block_id = BlockId::new(
                                bx + x * CHUNK_SIZE,
                                by + y * CHUNK_SIZE,
                                bz + z * CHUNK_SIZE,
                            );
                            if ChunkId::from(block_id) != chunk_id {
                                panic!(
                                    "{:?} | {:?} != {:?}",
                                    ChunkId::from(block_id),
                                    block_id,
                                    chunk_id
                                );
                            }
                        }
                    }
                }
            }
        }
    }
}

#[test]
fn block_round_trip_over_wide_range() {
    for x in -160..160 {
        for y in (-160..160).step_by(7) {
            for z in (-160..160).step_by(5) {
                let b = BlockId::new(x, y, z);
                let c = b.chunk();
                let l = b.as_local();
                assert!(l.x >= 0 && l.x < CHUNK_SIZE);
                assert!(l.y >= 0 && l.y < CHUNK_SIZE);
                assert!(l.z >= 0 && l.z < CHUNK_SIZE);
                assert_eq!(c.globalize(l), b);
                assert_eq!(b.localize(c), l);
            }
        }
    }
}

#[test]
fn negative_block_belongs_to_negative_chunk() {
    assert_eq!(BlockId::new(-1, -16, -17).chunk(), ChunkId::new(-1, -1, -2));
    assert_eq!(BlockId::new(-1, -16, -17).as_local(), BlockId::new(15, 0, 15));
    assert_eq!(BlockId::new(15, 16, 0).chunk(), ChunkId::new(0, 1, 0));
}

#[test]
fn neighbor_symmetry_all_directions() {
    let c = ChunkId::new(3, -2, 7);
    for d in Direction::all() {
        assert_eq!(c.get(d).get(d.reverse()), c);
        assert_ne!(c.get(d), c);
    }
}

#[test]
fn neighbors_in_sweep_order() {
    let c = ChunkId::new(0, 0, 0);
    assert_eq!(
        c.neighbors(),
        [
            ChunkId::new(0, 1, 0),
            ChunkId::new(0, -1, 0),
            ChunkId::new(-1, 0, 0),
            ChunkId::new(1, 0, 0),
            ChunkId::new(0, 0, 1),
            ChunkId::new(0, 0, -1),
        ]
    );
}

#[test]
fn distances() {
    let a = ChunkId::new(1, 2, 3);
    let b = ChunkId::new(-2, 6, 3);
    assert_eq!(a.sqr_distance(b), 25);
    assert_eq!(a.flat_distance(b), 3);
    assert_eq!(ChunkId::new(0, 9, 0).flat_distance(ChunkId::new(-4, 0, 5)), 9);
}

#[test]
fn block_steps() {
    let b = BlockId::new(0, 0, 0);
    assert_eq!(b.get(Direction::Up), BlockId::new(0, 1, 0));
    assert_eq!(b.get(Direction::Back), BlockId::new(0, 0, -1));
    assert_eq!(b.get(Direction::Left), BlockId::new(-1, 0, 0));
}

#[test]
fn perpendicular_axes() {
    assert_eq!(Direction::Up.perpendicular(), (Axis::Z, Axis::X));
    assert_eq!(Direction::Left.perpendicular(), (Axis::Z, Axis::Y));
    assert_eq!(Direction::Forward.perpendicular(), (Axis::X, Axis::Y));
    assert_eq!(Direction::Forward.axis(), Axis::Z);
    assert_eq!(Direction::Down.ordinal(), 1);
}
