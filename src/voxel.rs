//! The closed set of block kinds and their material properties.
use vstd::prelude::*;

use crate::coords::Direction;

verus! {

/// Kind of a single voxel.
#[derive(Clone, Copy, Debug, PartialEq, Eq, Hash, Structural)]
pub enum BlockType {
    Air,
    Bedrock,
    Gravel,
    Dirt,
    Stone,
    Sand,
    GoldOre,
    IronOre,
    CoalOre,
    DeadBush,
    Grass,
    Water,
}

/// See-through kinds: faces of other blocks facing them are drawn.
pub open spec fn spec_transparent(b: BlockType) -> bool {
    b == BlockType::Air || b == BlockType::Water || b == BlockType::DeadBush
}

/// Kinds that take part in collision and in terrain surface tests.
pub open spec fn spec_solid(b: BlockType) -> bool {
    !spec_transparent(b)
}

/// Kinds drawn by the opaque pass of the mesh builder.
pub open spec fn spec_opaque_drawn(b: BlockType) -> bool {
    b != BlockType::Air && b != BlockType::Water
}

/// Number of distinct textures of a kind.
pub open spec fn spec_texture_count(b: BlockType) -> nat {
    match b {
        BlockType::Air | BlockType::Water => 0,
        BlockType::Grass => 3,
        _ => 1,
    }
}

/// Which of a kind's textures (0 = first) covers its face in direction `d`:
/// grass has a top, a side and a bottom texture, every other kind one.
pub open spec fn spec_face_texture(b: BlockType, d: Direction) -> u8 {
    match b {
        BlockType::Grass => match d {
            Direction::Up => 0u8,
            Direction::Down => 2u8,
            _ => 1u8,
        },
        _ => 0u8,
    }
}

/// Asset paths of a kind's textures, in the order of `spec_face_texture`.
pub open spec fn spec_texture_paths(b: BlockType) -> Seq<&'static str> {
    match b {
        BlockType::Air | BlockType::Water => seq![],
        BlockType::Bedrock => seq!["PureBDcraft/textures/block/bedrock.png"],
        BlockType::Gravel => seq!["PureBDcraft/textures/block/gravel.png"],
        BlockType::Dirt => seq!["PureBDcraft/textures/block/dirt.png"],
        BlockType::Stone => seq!["PureBDcraft/textures/block/stone.png"],
        BlockType::Sand => seq!["PureBDcraft/textures/block/sand.png"],
        BlockType::GoldOre => seq!["PureBDcraft/textures/block/gold_ore.png"],
        BlockType::IronOre => seq!["PureBDcraft/textures/block/iron_ore.png"],
        BlockType::CoalOre => seq!["PureBDcraft/textures/block/coal_ore.png"],
        BlockType::DeadBush => seq!["PureBDcraft/textures/block/dead_bush.png"],
        BlockType::Grass => seq![
            "PureBDcraft/textures/block/grass_block_top.png",
            "PureBDcraft/textures/block/grass_block_side.png",
            "PureBDcraft/textures/block/dirt.png",
        ],
    }
}

/// Colour tint of a face.
#[derive(Clone, Copy, Debug, PartialEq, Eq, Hash, Structural)]
pub enum Tint {
    Plain,
    Foliage,
}

pub open spec fn spec_face_tint(b: BlockType, d: Direction) -> Tint {
    if b == BlockType::Grass && d == Direction::Up {
        Tint::Foliage
    } else {
        Tint::Plain
    }
}

/// The kind drawn for each outcome `0..=8` of the random substitution roll.
pub open spec fn spec_sampled(n: int) -> BlockType {
    if n == 0 {
        BlockType::Bedrock
    } else if n == 1 {
        BlockType::Gravel
    } else if n == 2 {
        BlockType::Sand
    } else if n == 3 {
        BlockType::Dirt
    } else if n == 4 {
        BlockType::Stone
    } else if n == 5 {
        BlockType::GoldOre
    } else if n == 6 {
        BlockType::IronOre
    } else if n == 7 {
        BlockType::CoalOre
    } else if n == 8 {
        BlockType::Grass
    } else {
        BlockType::Air
    }
}

impl BlockType {
    pub fn is_transparent(&self) -> (r: bool)
        ensures
            r == spec_transparent(*self),
    {
        match self {
            BlockType::Air | BlockType::Water | BlockType::DeadBush => true,
            _ => false,
        }
    }

    pub fn is_solid(&self) -> (r: bool)
        ensures
            r == spec_solid(*self),
    {
        !self.is_transparent()
    }

    /// Which of this kind's textures covers its face in direction `direction`.
    pub fn face_texture(&self, direction: Direction) -> (r: u8)
        ensures
            r == spec_face_texture(*self, direction),
    {
        match self {
            BlockType::Grass => match direction {
                Direction::Up => 0,
                Direction::Down => 2,
                _ => 1,
            },
            _ => 0,
        }
    }

    /// Colour tint of this kind's face in direction `direction`.
    pub fn face_tint(&self, direction: Direction) -> (r: Tint)
        ensures
            r == spec_face_tint(*self, direction),
    {
        match (self, direction) {
            (BlockType::Grass, Direction::Up) => Tint::Foliage,
            _ => Tint::Plain,
        }
    }

    /// The kind that a substitution roll of `n` (in `0..=8`) stands for.
    pub fn from_roll(n: u32) -> (r: BlockType)
        ensures
            r == spec_sampled(n as int),
    {
        match n {
            0 => BlockType::Bedrock,
            1 => BlockType::Gravel,
            2 => BlockType::Sand,
            3 => BlockType::Dirt,
            4 => BlockType::Stone,
            5 => BlockType::GoldOre,
            6 => BlockType::IronOre,
            7 => BlockType::CoalOre,
            8 => BlockType::Grass,
            _ => BlockType::Air,
        }
    }

    /// Asset paths of this kind's textures, in the order of `face_texture`.
    pub fn get_texture_paths(&self) -> (r: Vec<&'static str>)
        ensures
            r@ == spec_texture_paths(*self),
            r@.len() == spec_texture_count(*self),
    {
        let r = match self {
            BlockType::Air | BlockType::Water => Vec::new(),
            BlockType::Bedrock => vec!["PureBDcraft/textures/block/bedrock.png"],
            BlockType::Gravel => vec!["PureBDcraft/textures/block/gravel.png"],
            BlockType::Dirt => vec!["PureBDcraft/textures/block/dirt.png"],
            BlockType::Stone => vec!["PureBDcraft/textures/block/stone.png"],
            BlockType::Sand => vec!["PureBDcraft/textures/block/sand.png"],
            BlockType::GoldOre => vec!["PureBDcraft/textures/block/gold_ore.png"],
            BlockType::IronOre => vec!["PureBDcraft/textures/block/iron_ore.png"],
            BlockType::CoalOre => vec!["PureBDcraft/textures/block/coal_ore.png"],
            BlockType::DeadBush => vec!["PureBDcraft/textures/block/dead_bush.png"],
            BlockType::Grass => vec![
                "PureBDcraft/textures/block/grass_block_top.png",
                "PureBDcraft/textures/block/grass_block_side.png",
                "PureBDcraft/textures/block/dirt.png",
            ],
        };
        assert(r@ =~= spec_texture_paths(*self));
        r
    }
}

} // verus!
