use voxel_world::chunk::Chunk;
use voxel_world::coords::{BlockId, ChunkId, Direction};
use voxel_world::mesh::Neighborhood;
use voxel_world::voxel::BlockType;

fn alone(c: Chunk) -> Neighborhood {
    Neighborhood { center: c, sides: vec![None, None, None, None, None, None] }
}

#[test]
fn air_chunk_has_empty_meshes() {
    let nb = alone(Chunk::empty(ChunkId::new(0, 0, 0)));
    let m = nb.gen_mesh();
    assert!(m.indices.is_empty());
    assert!(m.positions.is_empty());
    assert!(nb.gen_water_mesh().is_none());
}

#[test]
fn single_block_has_six_faces() {
    let mut c = Chunk::empty(ChunkId::new(0, 0, 0));
    c.set_block(BlockId::new(2, 3, 4), BlockType::Stone);
    let m = alone(c).gen_mesh();
    assert_eq!(m.faces.len(), 6);
    assert_eq!(m.positions.len(), 24);
    assert_eq!(m.indices.len(), 36);
    assert_eq!(&m.indices[6..12], &[4, 5, 6, 6, 7, 4]);
    let dirs: Vec<Direction> = m.faces.iter().map(|f| f.direction).collect();
    assert_eq!(dirs, Direction::all().to_vec());
    // the up face of block (2, 3, 4), in eighths of a block
    assert_eq!(m.positions[0], (20, 28, 36));
    assert_eq!(m.positions[2], (12, 28, 28));
}

#[test]
fn adjacent_solid_blocks_cull_shared_faces() {
    let mut c = Chunk::empty(ChunkId::new(0, 0, 0));
    c.set_block(BlockId::new(5, 5, 5), BlockType::Stone);
    c.set_block(BlockId::new(6, 5, 5), BlockType::Dirt);
    let m = alone(c).gen_mesh();
    assert_eq!(m.faces.len(), 10);
    assert!(!m.faces.iter().any(|f| f.pos == BlockId::new(5, 5, 5) && f.direction == Direction::Right));
    assert!(!m.faces.iter().any(|f| f.pos == BlockId::new(6, 5, 5) && f.direction == Direction::Left));
}

#[test]
fn solid_next_to_air_draws_one_face() {
    let mut c = Chunk::empty(ChunkId::new(0, 0, 0));
    c.set_block(BlockId::new(5, 5, 5), BlockType::Stone);
    let m = alone(c).gen_mesh();
    let toward_air: Vec<_> = m
        .faces
        .iter()
        .filter(|f| f.pos == BlockId::new(5, 5, 5) && f.direction == Direction::Right)
        .collect();
    assert_eq!(toward_air.len(), 1);
    assert!(!m.faces.iter().any(|f| f.pos == BlockId::new(6, 5, 5)));
}

#[test]
fn neighbour_chunk_culls_border_faces() {
    let center = Chunk::filled(ChunkId::new(0, 0, 0), BlockType::Stone);
    let mut sides: Vec<Option<Chunk>> = Vec::new();
    for d in Direction::all() {
        sides.push(Some(Chunk::filled(ChunkId::new(0, 0, 0).get(d), BlockType::Stone)));
    }
    let nb = Neighborhood { center: center.snapshot(), sides };
    assert!(nb.gen_mesh().faces.is_empty());
    let open = alone(center).gen_mesh();
    assert_eq!(open.faces.len(), 6 * 256);
}

#[test]
fn border_reads_wrap_to_the_neighbours_far_edge() {
    let mut center = Chunk::empty(ChunkId::new(0, 0, 0));
    center.set_block(BlockId::new(0, 0, 0), BlockType::Stone);
    let mut left = Chunk::empty(ChunkId::new(-1, 0, 0));
    left.set_block(BlockId::new(15, 0, 0), BlockType::Stone);
    let nb = Neighborhood {
        center: center.snapshot(),
        sides: vec![None, None, Some(left), None, None, None],
    };
    assert_eq!(nb.block_beyond(0, 0, 0, Direction::Left), BlockType::Stone);
    let m = nb.gen_mesh();
    assert_eq!(m.faces.len(), 5);
    assert!(!m.faces.iter().any(|f| f.direction == Direction::Left));
}

#[test]
fn water_surface_is_lowered() {
    let mut c = Chunk::empty(ChunkId::new(0, 0, 0));
    c.set_block(BlockId::new(1, 1, 1), BlockType::Water);
    c.set_block(BlockId::new(1, 0, 1), BlockType::Stone);
    let nb = alone(c);
    let w = nb.gen_water_mesh().unwrap();
    assert_eq!(w.faces.len(), 6);
    let up = w.faces.iter().position(|f| f.direction == Direction::Up).unwrap();
    assert!(w.faces[up].surface);
    assert_eq!(w.positions[4 * up].1, 8 + 3);
    let down = w.faces.iter().find(|f| f.direction == Direction::Down).unwrap();
    assert!(down.against_solid);
    // the opaque pass still draws the stone's face toward the water
    let m = nb.gen_mesh();
    assert!(m.faces.iter().any(|f| f.pos == BlockId::new(1, 0, 1) && f.direction == Direction::Up));
}

#[test]
fn covered_water_keeps_full_height() {
    let mut c = Chunk::empty(ChunkId::new(0, 0, 0));
    c.set_block(BlockId::new(1, 1, 1), BlockType::Water);
    c.set_block(BlockId::new(1, 2, 1), BlockType::Water);
    let w = alone(c).gen_water_mesh().unwrap();
    let lower_side = w
        .faces
        .iter()
        .position(|f| f.pos == BlockId::new(1, 1, 1) && f.direction == Direction::Forward)
        .unwrap();
    assert!(!w.faces[lower_side].surface);
    assert_eq!(w.positions[4 * lower_side + 2].1, 8 + 4);
}
