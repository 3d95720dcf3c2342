use voxel_world::chunk::Chunk;
use voxel_world::coords::ChunkId;
use voxel_world::terrain::{chunk_seed, classify_voxel, ColumnRoll, TerrainRolls, SEA_LEVEL};
use voxel_world::voxel::BlockType;

fn roll(sand_reach: u32, soil_depth: u32) -> ColumnRoll {
    ColumnRoll { sand_reach, soil_depth }
}

#[test]
fn classify_each_band() {
    let r = roll(0, 3);
    assert_eq!(classify_voxel(0, 40, r, Some(BlockType::GoldOre)), BlockType::Bedrock);
    assert_eq!(classify_voxel(41, 40, r, None), BlockType::Air);
    assert_eq!(classify_voxel(SEA_LEVEL - 1, 10, r, None), BlockType::Water);
    assert_eq!(classify_voxel(SEA_LEVEL, 10, r, None), BlockType::Air);
    assert_eq!(classify_voxel(40, 40, r, None), BlockType::Grass);
    assert_eq!(classify_voxel(38, 40, r, None), BlockType::Dirt);
    assert_eq!(classify_voxel(37, 40, r, None), BlockType::Stone);
    assert_eq!(classify_voxel(37, 40, r, Some(BlockType::CoalOre)), BlockType::CoalOre);
}

#[test]
fn classify_shore_sand() {
    // a surface just above sea level with a reach of 4 turns to sand
    let r = roll(4, 2);
    assert_eq!(classify_voxel(SEA_LEVEL + 2, SEA_LEVEL + 2, r, None), BlockType::Sand);
    assert_eq!(classify_voxel(SEA_LEVEL, SEA_LEVEL + 2, r, None), BlockType::Sand);
    assert_eq!(classify_voxel(SEA_LEVEL - 1, SEA_LEVEL + 2, r, None), BlockType::Stone);
    assert_eq!(classify_voxel(SEA_LEVEL + 4, SEA_LEVEL + 4, r, None), BlockType::Grass);
}

fn heights(h: i32) -> Vec<i32> {
    vec![h; 256]
}

#[test]
fn generation_is_deterministic() {
    let pos = ChunkId::new(2, 0, -3);
    let hs: Vec<i32> = (0..256).map(|i| 20 + (i % 13)).collect();
    let a = Chunk::new(pos, &hs, 99);
    let b = Chunk::new(pos, &hs, 99);
    assert_eq!(a.blocks, b.blocks);
    assert_eq!(a.id, pos);
}

#[test]
fn bedrock_floor_in_lowest_layer() {
    for seed in [0u64, 1, 12345] {
        let c = Chunk::new(ChunkId::new(seed as i32, 0, 4), &heights(9), seed);
        for x in 0..16 {
            for z in 0..16 {
                assert_eq!(c.blocks[x + z * 16], BlockType::Bedrock);
            }
        }
    }
}

#[test]
fn chunk_above_terrain_is_air() {
    let c = Chunk::new(ChunkId::new(0, 3, 0), &heights(20), 5);
    assert!(c.blocks.iter().all(|b| *b == BlockType::Air));
}

#[test]
fn rolls_are_drawn_in_range_and_vary() {
    let r = TerrainRolls::draw(7, ChunkId::new(0, 0, 0));
    assert_eq!(r.columns.len(), 256);
    assert_eq!(r.ores.len(), 4096);
    assert!(r.columns.iter().all(|c| c.sand_reach <= 4 && (2..=4).contains(&c.soil_depth)));
    assert!(r.columns.iter().any(|c| c.sand_reach != 0));
    assert!(r.columns.iter().any(|c| c.soil_depth != 2));
    // world height 1 is replaced with a chance of one in two
    let low = r.ores[256..512].iter().filter(|o| o.is_some()).count();
    assert!(low > 0 && low < 256);
    assert!(r.ores[0..256].iter().all(|o| o.is_none()));
}

#[test]
fn chunk_seed_mixes_position() {
    let a = chunk_seed(1, ChunkId::new(0, 0, 0));
    let b = chunk_seed(1, ChunkId::new(1, 0, 0));
    assert_ne!(a, b);
    assert_eq!(a, 1u64.wrapping_add(2147483648u64.wrapping_mul(0x9E3779B1 + 0x85EBCA77 + 0xC2B2AE3D)));
}

#[test]
fn from_rolls_uses_the_rolls() {
    let rolls = TerrainRolls {
        columns: vec![ColumnRoll { sand_reach: 0, soil_depth: 2 }; 256],
        ores: vec![Some(BlockType::IronOre); 4096],
    };
    let c = Chunk::from_rolls(ChunkId::new(0, 0, 0), &heights(10), &rolls);
    assert_eq!(c.blocks[0], BlockType::Bedrock);
    assert_eq!(c.blocks[256 * 5], BlockType::IronOre);
    // below sea level the top of the ground is sand
    assert_eq!(c.blocks[256 * 8], BlockType::Sand);
    assert_eq!(c.blocks[256 * 10], BlockType::Sand);
    assert_eq!(c.blocks[256 * 11], BlockType::Water);
}
