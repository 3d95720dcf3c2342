//! Dense voxel storage for one chunk.
use vstd::prelude::*;

use crate::coords::{BlockId, ChunkId};
use crate::voxel::BlockType;
use crate::{CHUNK_AREA, CHUNK_SIZE, CHUNK_VOLUME};

verus! {

/// Flat index of local position `(x, y, z)`: x fastest, then z, then y.
pub open spec fn block_index(x: int, y: int, z: int) -> int {
    x + z * 16 + y * 256
}

/// Local x of flat index `i`.
pub open spec fn index_x(i: int) -> int {
    i % 16
}

/// Local y of flat index `i`.
pub open spec fn index_y(i: int) -> int {
    i / 256
}

/// Local z of flat index `i`.
pub open spec fn index_z(i: int) -> int {
    (i / 16) % 16
}

pub open spec fn in_chunk(x: int, y: int, z: int) -> bool {
    0 <= x < 16 && 0 <= y < 16 && 0 <= z < 16
}

/// A flat index and the local position it stands for.
pub proof fn lemma_index_coords(i: int)
    requires
        0 <= i < 4096,
    ensures
        in_chunk(index_x(i), index_y(i), index_z(i)),
        block_index(index_x(i), index_y(i), index_z(i)) == i,
{
}

/// A local position and its flat index.
pub proof fn lemma_coords_index(x: int, y: int, z: int)
    requires
        in_chunk(x, y, z),
    ensures
        0 <= block_index(x, y, z) < 4096,
        index_x(block_index(x, y, z)) == x,
        index_y(block_index(x, y, z)) == y,
        index_z(block_index(x, y, z)) == z,
{
    let i = block_index(x, y, z);
    assert(i / 256 == y) by {
        vstd::arithmetic::div_mod::lemma_fundamental_div_mod_converse(i, 256, y, x + z * 16);
    }
    assert(i / 16 == z + y * 16) by {
        vstd::arithmetic::div_mod::lemma_fundamental_div_mod_converse(i, 16, z + y * 16, x);
    }
    assert((z + y * 16) % 16 == z) by {
        vstd::arithmetic::div_mod::lemma_fundamental_div_mod_converse(z + y * 16, 16, y, z);
    }
    assert(i % 16 == x) by {
        vstd::arithmetic::div_mod::lemma_fundamental_div_mod_converse(i, 16, z + y * 16, x);
    }
}

/// The local position of flat index `i`.
pub fn local_position(i: usize) -> (r: BlockId)
    requires
        i < 4096,
    ensures
        r.is_local(),
        block_index(r.x as int, r.y as int, r.z as int) == i,
        r.x == index_x(i as int),
        r.y == index_y(i as int),
        r.z == index_z(i as int),
{
    proof {
        lemma_index_coords(i as int);
    }
    BlockId { x: (i % 16) as i32, y: (i / 256) as i32, z: ((i / 16) % 16) as i32 }
}

/// A chunk's voxels, its position, and an optional handle that the
/// presentation layer attached to it.
#[derive(Debug)]
pub struct Chunk {
    pub id: ChunkId,
    pub entity: Option<u64>,
    pub blocks: Vec<BlockType>,
}

impl Chunk {
    /// Exactly one voxel per local position, and a position whose blocks have
    /// world coordinates that fit in an `i32`.
    pub open spec fn wf(&self) -> bool {
        &&& self.blocks@.len() == 4096
        &&& self.id.fits()
    }

    /// The voxel at local position `(x, y, z)`; air outside the chunk.
    pub open spec fn voxel(&self, x: int, y: int, z: int) -> BlockType {
        if in_chunk(x, y, z) {
            self.blocks@[block_index(x, y, z)]
        } else {
            BlockType::Air
        }
    }

    /// A chunk at `id` filled with `block`.
    pub fn filled(id: ChunkId, block: BlockType) -> (r: Chunk)
        requires
            id.fits(),
        ensures
            r.wf(),
            r.id == id,
            r.entity.is_none(),
            forall|i: int| 0 <= i < 4096 ==> #[trigger] r.blocks@[i] == block,
    {
        let mut blocks: Vec<BlockType> = Vec::new();
        let mut i: i32 = 0;
        while i < CHUNK_VOLUME
            invariant
                0 <= i <= 4096,
                blocks@.len() == i,
                forall|j: int| 0 <= j < i ==> #[trigger] blocks@[j] == block,
            decreases 4096 - i,
        {
            blocks.push(block);
            i += 1;
        }
        Chunk { id, entity: None, blocks }
    }

    /// A chunk at `id` holding only air.
    pub fn empty(id: ChunkId) -> (r: Chunk)
        requires
            id.fits(),
        ensures
            r.wf(),
            r.id == id,
            r.entity.is_none(),
            forall|i: int| 0 <= i < 4096 ==> #[trigger] r.blocks@[i] == BlockType::Air,
    {
        Chunk::filled(id, BlockType::Air)
    }

    /// Flat index of a local position.
    pub fn index(x: i32, y: i32, z: i32) -> (r: usize)
        requires
            in_chunk(x as int, y as int, z as int),
        ensures
            r == block_index(x as int, y as int, z as int),
            r < 4096,
    {
        (x + z * CHUNK_SIZE + y * CHUNK_AREA) as usize
    }

    /// The voxel at local position `pos`; air for a position outside the chunk.
    pub fn get_block(&self, pos: BlockId) -> (r: BlockType)
        requires
            self.wf(),
        ensures
            r == self.voxel(pos.x as int, pos.y as int, pos.z as int),
    {
        if pos.x < 0 || pos.y < 0 || pos.z < 0 || pos.x >= CHUNK_SIZE || pos.y >= CHUNK_SIZE
            || pos.z >= CHUNK_SIZE {
            return BlockType::Air;
        }
        self.blocks[Chunk::index(pos.x, pos.y, pos.z)]
    }

    /// The voxel at local position `(x, y, z)`, which must lie in the chunk.
    pub fn block_at(&self, x: i32, y: i32, z: i32) -> (r: BlockType)
        requires
            self.wf(),
            in_chunk(x as int, y as int, z as int),
        ensures
            r == self.voxel(x as int, y as int, z as int),
    {
        self.blocks[Chunk::index(x, y, z)]
    }

    /// Writes `to` at local position `block`; a position outside the chunk
    /// leaves it unchanged.
    pub fn set_block(&mut self, block: BlockId, to: BlockType)
        requires
            old(self).wf(),
        ensures
            final(self).wf(),
            final(self).id == old(self).id,
            final(self).entity == old(self).entity,
            block.is_local() ==> final(self).blocks@ == old(self).blocks@.update(
                block_index(block.x as int, block.y as int, block.z as int),
                to,
            ),
            !block.is_local() ==> final(self).blocks@ == old(self).blocks@,
    {
        if block.x < 0 || block.y < 0 || block.z < 0 || block.x >= CHUNK_SIZE || block.y
            >= CHUNK_SIZE || block.z >= CHUNK_SIZE {
            return ;
        }
        let i = Chunk::index(block.x, block.y, block.z);
        self.blocks.set(i, to);
    }

    /// A copy of this chunk, for a meshing snapshot.
    pub fn snapshot(&self) -> (r: Chunk)
        requires
            self.wf(),
        ensures
            r.wf(),
            r.id == self.id,
            r.entity == self.entity,
            r.blocks@ == self.blocks@,
    {
        let mut blocks: Vec<BlockType> = Vec::new();
        let mut i: usize = 0;
        while i < self.blocks.len()
            invariant
                i <= self.blocks@.len(),
                blocks@ == self.blocks@.subrange(0, i as int),
            decreases self.blocks@.len() - i,
        {
            blocks.push(self.blocks[i]);
            i += 1;
            assert(blocks@ =~= self.blocks@.subrange(0, i as int));
        }
        assert(blocks@ =~= self.blocks@);
        Chunk { id: self.id, entity: self.entity, blocks }
    }

    /// Attaches a presentation-layer handle.
    pub fn set_entity(&mut self, entity: u64)
        ensures
            final(self).entity == Some(entity),
            final(self).id == old(self).id,
            final(self).blocks@ == old(self).blocks@,
    {
        self.entity = Some(entity);
    }
}

} // verus!
