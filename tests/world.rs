use voxel_world::chunk::Chunk;
use voxel_world::collider::ColliderShape;
use voxel_world::coords::{BlockId, ChunkId};
use voxel_world::voxel::BlockType;
use voxel_world::world::{view_action, MapInternal, MeshError, ViewAction};

fn hills() -> Vec<i32> {
    (0..256).map(|i| 5 + (i % 7)).collect()
}

fn drain(m: &mut MapInternal) -> usize {
    let mut made = 0;
    while let Some(id) = m.next_to_gen() {
        let c = Chunk::new(id, &hills(), m.seed);
        m.add_chunk(c);
        made += 1;
    }
    made
}

#[test]
fn end_to_end_one_layer_world() {
    let mut m = MapInternal::with_build_limits(3, 0, 1);
    let origin = ChunkId::new(0, 0, 0);
    m.gen_or_update_chunk(origin, 7);
    // the four horizontal neighbours, then the chunk itself
    assert_eq!(m.to_gen(), 5);
    assert_eq!(m.next_to_gen(), Some(ChunkId::new(-1, 0, 0)));
    assert!(m.contains_chunk(&origin));
    assert_eq!(drain(&mut m), 5);
    assert_eq!(m.to_gen(), 0);
    assert_eq!(m.take_new(), vec![origin]);
    let data = m.make_mesh(origin).unwrap();
    assert!(!data.main_mesh.indices.is_empty());
    assert_eq!(data.main_mesh.indices.len(), 6 * data.main_mesh.faces.len());
    match data.collider {
        Some(ColliderShape::TriMesh { ref quads, .. }) => assert!(!quads.is_empty()),
        Some(ColliderShape::Cuboid { .. }) | None => {}
    }
    assert!(m.take_new().is_empty());
    assert_eq!(m.get_entity(&origin), Some(7));
    assert_eq!(m.get_entity(&ChunkId::new(1, 0, 0)), None);
}

#[test]
fn chunk_without_neighbours_is_not_eligible() {
    let mut m = MapInternal::with_build_limits(3, 0, 1);
    let origin = ChunkId::new(0, 0, 0);
    m.gen_or_update_chunk(origin, 1);
    m.add_chunk(Chunk::new(origin, &hills(), 3));
    assert!(m.get_chunk(&origin).is_some());
    assert!(!m.is_eligible(origin));
    assert!(m.take_new().is_empty());
    drain(&mut m);
    assert_eq!(m.take_new(), vec![origin]);
}

#[test]
fn request_outside_build_limits_is_ignored() {
    let mut m = MapInternal::new_with_seed(1);
    m.gen_or_update_chunk(ChunkId::new(0, 5, 0), 1);
    m.gen_or_update_chunk(ChunkId::new(0, -1, 0), 1);
    assert_eq!(m.to_gen(), 0);
    m.gen_or_update_chunk(ChunkId::new(0, 0, 0), 1);
    // up, left, right, forward, back and the chunk itself; down is below the limits
    assert_eq!(m.to_gen(), 6);
}

fn stone_plate(m: &mut MapInternal) {
    for x in -2..=2 {
        for z in -2..=2 {
            m.add_chunk(Chunk::filled(ChunkId::new(x, 0, z), BlockType::Stone));
        }
    }
}

#[test]
fn edit_on_left_border_remeshes_left_neighbour() {
    let mut m = MapInternal::with_build_limits(3, 0, 1);
    stone_plate(&mut m);
    assert!(m.take_new().is_empty());
    m.set_world_block(BlockId::new(0, 5, 3), BlockType::Air);
    assert_eq!(m.take_new(), vec![ChunkId::new(0, 0, 0), ChunkId::new(-1, 0, 0)]);
    assert_eq!(m.get_block(BlockId::new(0, 5, 3)), BlockType::Air);
    assert_eq!(m.get_block(BlockId::new(1, 5, 3)), BlockType::Stone);
}

#[test]
fn edit_in_chunk_interior_remeshes_only_that_chunk() {
    let mut m = MapInternal::with_build_limits(3, 0, 1);
    stone_plate(&mut m);
    m.set_world_block(BlockId::new(-12, 4, 7), BlockType::Dirt);
    assert_eq!(m.take_new(), vec![ChunkId::new(-1, 0, 0)]);
    // a chunk at the plate's edge is not ready: its outer neighbour is missing
    m.set_world_block(BlockId::new(-32, 4, 7), BlockType::Dirt);
    assert!(m.take_new().is_empty());
}

#[test]
fn edit_without_chunk_changes_nothing() {
    let mut m = MapInternal::with_build_limits(3, 0, 1);
    m.set_world_block(BlockId::new(100, 3, 100), BlockType::Stone);
    assert_eq!(m.get_block(BlockId::new(100, 3, 100)), BlockType::Air);
    assert!(m.take_new().is_empty());
}

#[test]
fn eviction_withdraws_eligibility() {
    let mut m = MapInternal::with_build_limits(3, 0, 1);
    stone_plate(&mut m);
    m.set_world_block(BlockId::new(0, 5, 3), BlockType::Air);
    m.remove_chunk(&ChunkId::new(-1, 0, 1));
    assert!(!m.contains_chunk(&ChunkId::new(-1, 0, 1)));
    // (-1, 0, 0) lost its forward neighbour; (0, 0, 0) is still ready
    assert_eq!(m.take_new(), vec![ChunkId::new(0, 0, 0)]);
    assert_eq!(
        m.make_mesh(ChunkId::new(-1, 0, 1)).unwrap_err(),
        MeshError::ChunkNotResolved(ChunkId::new(-1, 0, 1))
    );
}

#[test]
fn max_height_is_the_topmost_block() {
    let mut m = MapInternal::with_build_limits(3, 0, 1);
    assert_eq!(m.get_max_height(4, 4), 0);
    m.add_chunk(Chunk::filled(ChunkId::new(0, 0, 0), BlockType::Stone));
    assert_eq!(m.get_max_height(4, 4), 15);
    // a gap below the top does not lower it
    m.set_world_block(BlockId::new(4, 9, 4), BlockType::Air);
    assert_eq!(m.get_max_height(4, 4), 15);
    m.set_world_block(BlockId::new(4, 15, 4), BlockType::Air);
    m.set_world_block(BlockId::new(4, 14, 4), BlockType::Air);
    assert_eq!(m.get_max_height(4, 4), 13);
    // a column in an absent chunk holds only air
    assert_eq!(m.get_max_height(20, 4), 0);
}

#[test]
fn regenerating_keeps_stored_voxels() {
    let mut m = MapInternal::with_build_limits(3, 0, 1);
    let origin = ChunkId::new(0, 0, 0);
    m.add_chunk(Chunk::filled(origin, BlockType::Stone));
    m.set_world_block(BlockId::new(1, 1, 1), BlockType::Air);
    m.gen_or_update_chunk(origin, 9);
    m.add_chunk(Chunk::filled(origin, BlockType::Sand));
    assert_eq!(m.get_block(BlockId::new(1, 1, 1)), BlockType::Air);
    assert_eq!(m.get_block(BlockId::new(2, 2, 2)), BlockType::Stone);
    assert_eq!(m.get_entity(&origin), Some(9));
    assert!(!m.is_queued(&origin));
}

#[test]
fn snapshot_holds_available_neighbours() {
    let mut m = MapInternal::with_build_limits(3, 0, 1);
    stone_plate(&mut m);
    let nb = m.neighborhood(ChunkId::new(2, 0, 0)).unwrap();
    assert!(nb.sides[0].is_none());
    assert!(nb.sides[2].is_some());
    assert!(nb.sides[3].is_none());
    assert_eq!(nb.center.id, ChunkId::new(2, 0, 0));
}

#[test]
fn view_actions_by_distance() {
    assert_eq!(view_action(6, 3), ViewAction::Show);
    assert_eq!(view_action(7, 3), ViewAction::Hide);
    assert_eq!(view_action(11, 3), ViewAction::Hide);
    assert_eq!(view_action(12, 3), ViewAction::Evict);
}

#[test]
fn columns_to_request_skip_known_ones() {
    let mut m = MapInternal::new_with_seed(3);
    let all = m.columns_to_request(ChunkId::new(0, 0, 0), 2, 100);
    assert_eq!(all.len(), 16);
    assert_eq!(all[0], (-2, -2));
    assert_eq!(all[1], (-1, -2));
    m.gen_or_update_chunk(ChunkId::new(-2, 0, -2), 1);
    let rest = m.columns_to_request(ChunkId::new(0, 0, 0), 2, 100);
    // the column itself and its queued neighbours (-1, -2) and (-2, -1)
    assert_eq!(rest.len(), 13);
    assert!(!rest.contains(&(-2, -2)));
    assert_eq!(m.columns_to_request(ChunkId::new(0, 0, 0), 2, 4).len(), 4);
}
