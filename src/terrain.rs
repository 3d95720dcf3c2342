//! Procedural terrain: each column is classified against its sampled
//! surface height, the sea level and a few seeded random rolls.
use vstd::prelude::*;

use crate::chunk::{index_x, index_y, index_z, lemma_index_coords, Chunk};
use crate::coords::ChunkId;
use crate::random::{one_in, roll_between, seeded};
use crate::voxel::{spec_sampled, BlockType};
use crate::{CHUNK_SIZE, CHUNK_VOLUME};

verus! {

/// World height below which empty space above the terrain fills with water.
pub const SEA_LEVEL: i32 = 28;

/// Random rolls of one column: how far above sea level a shore of sand may
/// reach (0 to 4) and how deep the soil under the surface goes (2 to 4).
#[derive(Clone, Copy, Debug, PartialEq, Eq, Structural)]
pub struct ColumnRoll {
    pub sand_reach: u32,
    pub soil_depth: u32,
}

/// Random rolls of one chunk: one per column (by `x + 16 * z`) and, per
/// voxel, the kind that replaces deep stone there, if any.
#[derive(Debug)]
pub struct TerrainRolls {
    pub columns: Vec<ColumnRoll>,
    pub ores: Vec<Option<BlockType>>,
}

impl TerrainRolls {
    pub open spec fn wf(&self) -> bool {
        &&& self.columns@.len() == 256
        &&& self.ores@.len() == 4096
        &&& forall|c: int|
            0 <= c < 256 ==> (#[trigger] self.columns@[c]).sand_reach <= 4 && 2
                <= self.columns@[c].soil_depth <= 4
    }
}

/// Kind of the voxel at world height `wy` in a column whose surface is at
/// `height`: bedrock at height 0; above the surface water below sea level and
/// air elsewhere; sand on shores near sea level; grass at the surface; soil
/// just below it; and stone, or its substitute, deeper down.
pub open spec fn classify(wy: int, height: int, roll: ColumnRoll, ore: Option<BlockType>) -> BlockType {
    if wy == 0 {
        BlockType::Bedrock
    } else if wy > height {
        if wy < SEA_LEVEL {
            BlockType::Water
        } else {
            BlockType::Air
        }
    } else if wy - SEA_LEVEL < roll.sand_reach && height - wy < roll.soil_depth + 1 {
        BlockType::Sand
    } else if wy == height {
        BlockType::Grass
    } else if height - wy < roll.soil_depth {
        BlockType::Dirt
    } else {
        match ore {
            Some(b) => b,
            None => BlockType::Stone,
        }
    }
}

/// Column of flat index `i`.
pub open spec fn column_of(i: int) -> int {
    index_x(i) + 16 * index_z(i)
}

/// The voxels of the chunk at `pos` for the column heights `heights` (by
/// `x + 16 * z`) and the rolls `rolls`.
pub open spec fn spec_terrain(pos: ChunkId, heights: Seq<i32>, rolls: TerrainRolls) -> Seq<BlockType> {
    Seq::new(
        4096,
        |i: int|
            classify(
                pos.y * 16 + index_y(i),
                heights[column_of(i)] as int,
                rolls.columns@[column_of(i)],
                rolls.ores@[i],
            ),
    )
}

/// The seed of a chunk's generator, mixed from the world seed and the
/// chunk's position.
pub open spec fn spec_chunk_seed(seed: u64, pos: ChunkId) -> u64 {
    ((seed as int + (pos.x + 2147483648) * 0x9E3779B1 + (pos.y + 2147483648) * 0x85EBCA77 + (pos.z
        + 2147483648) * 0xC2B2AE3D) % 0x1_0000_0000_0000_0000) as u64
}

/// The seed of a chunk's generator.
pub fn chunk_seed(seed: u64, pos: ChunkId) -> (r: u64)
    ensures
        r == spec_chunk_seed(seed, pos),
{
    let x = (pos.x as i64 + 2147483648) as u128;
    let y = (pos.y as i64 + 2147483648) as u128;
    let z = (pos.z as i64 + 2147483648) as u128;
    assert(x * 0x9E3779B1 <= 0xFFFF_FFFF * 0x9E3779B1) by (nonlinear_arith)
        requires
            x <= 0xFFFF_FFFF,
    ;
    assert(y * 0x85EBCA77 <= 0xFFFF_FFFF * 0x85EBCA77) by (nonlinear_arith)
        requires
            y <= 0xFFFF_FFFF,
    ;
    assert(z * 0xC2B2AE3D <= 0xFFFF_FFFF * 0xC2B2AE3D) by (nonlinear_arith)
        requires
            z <= 0xFFFF_FFFF,
    ;
    let sum: u128 = seed as u128 + x * 0x9E3779B1 + y * 0x85EBCA77 + z * 0xC2B2AE3D;
    (sum % 0x1_0000_0000_0000_0000) as u64
}

impl TerrainRolls {
    /// Draws the rolls of the chunk at `pos` from a generator seeded with
    /// the chunk's seed. Voxels at world height 1 and above are substituted
    /// with a chance of one in (height + 1) by a kind drawn from nine.
    pub fn draw(seed: u64, pos: ChunkId) -> (r: TerrainRolls)
        requires
            pos.fits(),
        ensures
            r.wf(),
            forall|i: int|
                0 <= i < 4096 ==> (#[trigger] r.ores@[i] matches Some(b) ==> pos.y * 16 + index_y(
                    i,
                ) >= 1 && exists|n: int| 0 <= n <= 8 && b == spec_sampled(n)),
    {
        let mut rng = seeded(chunk_seed(seed, pos));
        let mut columns: Vec<ColumnRoll> = Vec::new();
        let mut c: usize = 0;
        while c < 256
            invariant
                c <= 256,
                columns@.len() == c,
                forall|j: int|
                    0 <= j < c ==> (#[trigger] columns@[j]).sand_reach <= 4 && 2
                        <= columns@[j].soil_depth <= 4,
            decreases 256 - c,
        {
            let sand_reach = roll_between(&mut rng, 0, 4);
            let soil_depth = roll_between(&mut rng, 2, 4);
            columns.push(ColumnRoll { sand_reach, soil_depth });
            c += 1;
        }
        let mut ores: Vec<Option<BlockType>> = Vec::new();
        let mut i: usize = 0;
        while i < 4096
            invariant
                i <= 4096,
                pos.fits(),
                ores@.len() == i,
                forall|j: int|
                    0 <= j < i ==> (#[trigger] ores@[j] matches Some(b) ==> pos.y * 16 + index_y(j)
                        >= 1 && exists|n: int| 0 <= n <= 8 && b == spec_sampled(n)),
            decreases 4096 - i,
        {
            let wy = pos.y * CHUNK_SIZE + (i / 256) as i32;
            let mut ore = None;
            if wy >= 1 && one_in(&mut rng, wy as u32 + 1) {
                let n = roll_between(&mut rng, 0, 8);
                ore = Some(BlockType::from_roll(n));
            }
            ores.push(ore);
            i += 1;
        }
        TerrainRolls { columns, ores }
    }
}

/// Kind of the voxel at world height `wy` (see `classify`).
pub fn classify_voxel(wy: i32, height: i32, roll: ColumnRoll, ore: Option<BlockType>) -> (r: BlockType)
    ensures
        r == classify(wy as int, height as int, roll, ore),
{
    let wy = wy as i64;
    let height = height as i64;
    let sea = SEA_LEVEL as i64;
    if wy == 0 {
        BlockType::Bedrock
    } else if wy > height {
        if wy < sea {
            BlockType::Water
        } else {
            BlockType::Air
        }
    } else if wy - sea < roll.sand_reach as i64 && height - wy < roll.soil_depth as i64 + 1 {
        BlockType::Sand
    } else if wy == height {
        BlockType::Grass
    } else if height - wy < roll.soil_depth as i64 {
        BlockType::Dirt
    } else {
        match ore {
            Some(b) => b,
            None => BlockType::Stone,
        }
    }
}

/// The chunk's voxels were generated at `pos` from the column heights
/// `heights` with some well-formed rolls.
pub open spec fn generated_from(c: Chunk, pos: ChunkId, heights: Seq<i32>) -> bool {
    exists|rolls: TerrainRolls| rolls.wf() && c.blocks@ == spec_terrain(pos, heights, rolls)
}

impl Chunk {
    /// The chunk at `pos` built from the column heights `heights` (by
    /// `x + 16 * z`) and the rolls `rolls`.
    pub fn from_rolls(pos: ChunkId, heights: &Vec<i32>, rolls: &TerrainRolls) -> (r: Chunk)
        requires
            pos.fits(),
            heights@.len() == 256,
            rolls.wf(),
        ensures
            r.wf(),
            r.id == pos,
            r.entity.is_none(),
            r.blocks@ == spec_terrain(pos, heights@, *rolls),
    {
        let mut blocks: Vec<BlockType> = Vec::new();
        let mut i: usize = 0;
        while i < CHUNK_VOLUME as usize
            invariant
                i <= 4096,
                pos.fits(),
                heights@.len() == 256,
                rolls.wf(),
                blocks@.len() == i,
                forall|j: int|
                    0 <= j < i ==> #[trigger] blocks@[j] == spec_terrain(pos, heights@, *rolls)[j],
            decreases 4096 - i,
        {
            proof {
                lemma_index_coords(i as int);
            }
            let column = i % 256;
            assert(column == column_of(i as int));
            let wy = pos.y * CHUNK_SIZE + (i / 256) as i32;
            let b = classify_voxel(wy, heights[column], rolls.columns[column], rolls.ores[i]);
            blocks.push(b);
            i += 1;
        }
        assert(blocks@ =~= spec_terrain(pos, heights@, *rolls));
        Chunk { id: pos, entity: None, blocks }
    }

    /// Generates the chunk at `pos` from the column heights `heights` (by
    /// `x + 16 * z`), drawing its rolls from a generator seeded with the world
    /// seed mixed with the chunk's position.
    pub fn new(pos: ChunkId, heights: &Vec<i32>, seed: u64) -> (r: Chunk)
        requires
            pos.fits(),
            heights@.len() == 256,
        ensures
            r.wf(),
            r.id == pos,
            r.entity.is_none(),
            generated_from(r, pos, heights@),
    {
        let rolls = TerrainRolls::draw(seed, pos);
        Chunk::from_rolls(pos, heights, &rolls)
    }
}

/// Generation is a function of its inputs: two chunks built at the same
/// position from the same heights and rolls hold the same voxels.
pub proof fn lemma_generation_deterministic(
    a: Chunk,
    b: Chunk,
    pos: ChunkId,
    heights: Seq<i32>,
    rolls: TerrainRolls,
)
    requires
        a.blocks@ == spec_terrain(pos, heights, rolls),
        b.blocks@ == spec_terrain(pos, heights, rolls),
    ensures
        a.blocks@ == b.blocks@,
{
}

/// In a generated chunk of the lowest layer, every voxel at world height 0
/// is bedrock.
pub proof fn lemma_bedrock_floor(c: Chunk, pos: ChunkId, heights: Seq<i32>)
    requires
        generated_from(c, pos, heights),
        pos.y == 0,
    ensures
        forall|x: int, z: int| 0 <= x < 16 && 0 <= z < 16 ==> #[trigger] c.voxel(x, 0, z)
            == BlockType::Bedrock,
{
    let rolls = choose|rolls: TerrainRolls| rolls.wf() && c.blocks@ == spec_terrain(pos, heights, rolls);
    assert forall|x: int, z: int| 0 <= x < 16 && 0 <= z < 16 implies #[trigger] c.voxel(x, 0, z)
        == BlockType::Bedrock by {
        crate::chunk::lemma_coords_index(x, 0, z);
    }
}

} // verus!
