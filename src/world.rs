//! The chunk lifecycle manager: the store of generated chunks, the ordered
//! queue of positions awaiting generation, and the set of chunks that may be
//! meshed because they and all their face neighbours are available.
use vstd::prelude::*;

use crate::chunk::{block_index, Chunk};
use crate::coords::{BlockId, ChunkId, Direction};
use crate::gen_queue::{
    has_key, keys_unique, lemma_insert_keys, lemma_remove_keys, queue_contains, queue_entries, queue_first, queue_insert, queue_len,
    queue_new, queue_shift_remove, GenQueue, QueueKey,
};
use crate::collider::ColliderShape;
use crate::mesh::{MeshData, Neighborhood};
use crate::voxel::BlockType;

verus! {

/// Key of a chunk position in the generation queue.
pub open spec fn key_of(id: ChunkId) -> QueueKey {
    (id.x, id.y, id.z)
}

/// The world: generated chunks, the generation queue, and the chunks whose
/// meshes may be (re)built. Chunk layers `min_y..max_y` lie within the build
/// limits; layers outside them never hold chunks and count as available.
pub struct MapInternal {
    pub seed: u64,
    pub min_y: i32,
    pub max_y: i32,
    pub chunks: Vec<Chunk>,
    pub can_mesh: Vec<ChunkId>,
    pub to_gen: GenQueue,
}

/// Why a chunk could not be meshed.
#[derive(Clone, Copy, Debug, PartialEq, Eq, Structural)]
pub enum MeshError {
    /// The chunk was not in the store when its snapshot was taken.
    ChunkNotResolved(ChunkId),
}

/// Readiness depends only on the store and the build limits.
pub proof fn lemma_ready_same_store(a: MapInternal, b: MapInternal, id: ChunkId)
    requires
        a.chunks@ == b.chunks@,
        a.min_y == b.min_y,
        a.max_y == b.max_y,
    ensures
        a.is_ready(id) == b.is_ready(id),
        a.has_chunk(id) == b.has_chunk(id),
{
    assert forall|c: ChunkId| a.has_chunk(c) == b.has_chunk(c) by {
        if a.has_chunk(c) {
            let i = choose|i: int| 0 <= i < a.chunks@.len() && #[trigger] a.chunks@[i].id == c;
            assert(b.chunks@[i].id == c);
        }
        if b.has_chunk(c) {
            let i = choose|i: int| 0 <= i < b.chunks@.len() && #[trigger] b.chunks@[i].id == c;
            assert(a.chunks@[i].id == c);
        }
    }
    assert forall|d: Direction| a.resolved(#[trigger] id.spec_get(d)) == b.resolved(id.spec_get(d)) by {
        assert(a.has_chunk(id.spec_get(d)) == b.has_chunk(id.spec_get(d)));
    }
    if a.is_ready(id) {
        assert forall|d: Direction| #[trigger] b.resolved(id.spec_get(d)) by {
            assert(a.resolved(id.spec_get(d)));
        }
    }
    if b.is_ready(id) {
        assert forall|d: Direction| #[trigger] a.resolved(id.spec_get(d)) by {
            assert(b.resolved(id.spec_get(d)));
        }
    }
}

impl MapInternal {
    pub open spec fn has_chunk(&self, id: ChunkId) -> bool {
        exists|i: int| 0 <= i < self.chunks@.len() && #[trigger] self.chunks@[i].id == id
    }

    pub open spec fn in_limits(&self, id: ChunkId) -> bool {
        self.min_y <= id.y < self.max_y
    }

    /// Available for a neighbour's meshing: generated, or outside the build
    /// limits.
    pub open spec fn resolved(&self, id: ChunkId) -> bool {
        !self.in_limits(id) || self.has_chunk(id)
    }

    /// Generated, with all six face neighbours available.
    pub open spec fn is_ready(&self, id: ChunkId) -> bool {
        &&& self.has_chunk(id)
        &&& forall|d: Direction| #[trigger] self.resolved(id.spec_get(d))
    }

    /// Marked for (re)meshing.
    pub open spec fn eligible(&self, id: ChunkId) -> bool {
        self.can_mesh@.contains(id)
    }

    /// The generation queue, in order.
    pub open spec fn queued(&self) -> Seq<(QueueKey, Option<u64>)> {
        queue_entries(self.to_gen)
    }

    /// The stored chunk at `id` (meaningful when `has_chunk(id)`).
    pub open spec fn chunk_at(&self, id: ChunkId) -> Chunk {
        let i = choose|i: int| 0 <= i < self.chunks@.len() && #[trigger] self.chunks@[i].id == id;
        self.chunks@[i]
    }

    /// Chunks are well formed, unique and within the build limits; the
    /// mesh-eligible set holds no duplicates and only ready chunks; queue keys
    /// are unique.
    pub open spec fn wf(&self) -> bool {
        &&& forall|i: int|
            0 <= i < self.chunks@.len() ==> (#[trigger] self.chunks@[i]).wf() && self.in_limits(
                self.chunks@[i].id,
            )
        &&& forall|i: int, j: int|
            0 <= i < self.chunks@.len() && 0 <= j < self.chunks@.len() && (#[trigger] self.chunks@[i]).id
                == (#[trigger] self.chunks@[j]).id ==> i == j
        &&& forall|i: int, j: int|
            0 <= i < self.can_mesh@.len() && 0 <= j < self.can_mesh@.len() && #[trigger] self.can_mesh@[i]
                == #[trigger] self.can_mesh@[j] ==> i == j
        &&& forall|i: int| 0 <= i < self.can_mesh@.len() ==> self.is_ready(#[trigger] self.can_mesh@[i])
        &&& keys_unique(self.queued())
    }

    /// An empty world with build limits `min_y..max_y`.
    pub fn with_build_limits(seed: u64, min_y: i32, max_y: i32) -> (r: MapInternal)
        ensures
            r.wf(),
            r.seed == seed,
            r.min_y == min_y,
            r.max_y == max_y,
            r.chunks@.len() == 0,
            r.can_mesh@.len() == 0,
            r.queued().len() == 0,
    {
        MapInternal {
            seed,
            min_y,
            max_y,
            chunks: Vec::new(),
            can_mesh: Vec::new(),
            to_gen: queue_new(),
        }
    }

    /// An empty world with build limits `0..5`.
    pub fn new_with_seed(seed: u64) -> (r: MapInternal)
        ensures
            r.wf(),
            r.seed == seed,
            r.min_y == 0,
            r.max_y == 5,
            r.chunks@.len() == 0,
            r.can_mesh@.len() == 0,
            r.queued().len() == 0,
    {
        MapInternal::with_build_limits(seed, 0, 5)
    }

    /// Position of the chunk at `id` in the store.
    fn find(&self, id: ChunkId) -> (r: Option<usize>)
        ensures
            r matches Some(i) ==> i < self.chunks@.len() && self.chunks@[i as int].id == id,
            r is None ==> !self.has_chunk(id),
    {
        let mut i: usize = 0;
        while i < self.chunks.len()
            invariant
                i <= self.chunks@.len(),
                forall|j: int| 0 <= j < i ==> (#[trigger] self.chunks@[j]).id != id,
            decreases self.chunks@.len() - i,
        {
            if self.chunks[i].id == id {
                return Some(i);
            }
            i += 1;
        }
        None
    }

    pub fn in_build_limits(&self, id: ChunkId) -> (r: bool)
        ensures
            r == self.in_limits(id),
    {
        self.min_y <= id.y && id.y < self.max_y
    }

    /// Whether a chunk is stored at `id`.
    pub fn has_data(&self, id: ChunkId) -> (r: bool)
        ensures
            r == self.has_chunk(id),
    {
        self.find(id).is_some()
    }

    /// Generated, or outside the build limits.
    pub fn is_usable(&self, id: ChunkId) -> (r: bool)
        ensures
            r == self.resolved(id),
    {
        !self.in_build_limits(id) || self.has_data(id)
    }

    /// Generated, with all six face neighbours generated or outside the
    /// build limits.
    pub fn is_mesh_ready(&self, id: ChunkId) -> (r: bool)
        requires
            id.steppable(),
        ensures
            r == self.is_ready(id),
    {
        if !self.has_data(id) {
            return false;
        }
        let dirs = Direction::all();
        let mut k: usize = 0;
        while k < 6
            invariant
                k <= 6,
                id.steppable(),
                dirs@ == crate::coords::direction_order(),
                forall|j: int| 0 <= j < k ==> self.resolved(id.spec_get(#[trigger] dirs@[j])),
            decreases 6 - k,
        {
            if !self.is_usable(id.get(dirs[k])) {
                return false;
            }
            k += 1;
        }
        assert forall|d: Direction| #[trigger] self.resolved(id.spec_get(d)) by {
            assert(dirs@[crate::coords::spec_ordinal(d)] == d);
        }
        true
    }

    /// Whether `id` is marked for meshing.
    pub fn is_eligible(&self, id: ChunkId) -> (r: bool)
        ensures
            r == self.eligible(id),
    {
        let mut i: usize = 0;
        while i < self.can_mesh.len()
            invariant
                i <= self.can_mesh@.len(),
                forall|j: int| 0 <= j < i ==> self.can_mesh@[j] != id,
            decreases self.can_mesh@.len() - i,
        {
            if self.can_mesh[i] == id {
                return true;
            }
            i += 1;
        }
        false
    }

    /// Marks `id` for meshing if it is ready.
    fn mark_if_ready(&mut self, id: ChunkId)
        requires
            old(self).wf(),
            id.steppable(),
        ensures
            final(self).wf(),
            final(self).seed == old(self).seed,
            final(self).min_y == old(self).min_y,
            final(self).max_y == old(self).max_y,
            final(self).chunks@ == old(self).chunks@,
            final(self).to_gen == old(self).to_gen,
            forall|c: ChunkId|
                #[trigger] final(self).eligible(c) <==> old(self).eligible(c) || (c == id && old(
                    self,
                ).is_ready(id)),
    {
        if self.is_mesh_ready(id) && !self.is_eligible(id) {
            self.can_mesh.push(id);
            proof {
                let n = self.can_mesh@.len() - 1;
                assert forall|i: int| 0 <= i < self.can_mesh@.len() implies self.is_ready(
                    #[trigger] self.can_mesh@[i],
                ) by {
                    lemma_ready_same_store(*self, *old(self), self.can_mesh@[i]);
                    if i < n {
                        assert(self.can_mesh@[i] == old(self).can_mesh@[i]);
                        assert(old(self).is_ready(old(self).can_mesh@[i]));
                    }
                }
                assert forall|i: int, j: int|
                    0 <= i < self.can_mesh@.len() && 0 <= j < self.can_mesh@.len()
                        && #[trigger] self.can_mesh@[i] == #[trigger] self.can_mesh@[j] implies i == j by {
                    if i < n && j < n {
                        assert(self.can_mesh@[i] == old(self).can_mesh@[i]);
                        assert(self.can_mesh@[j] == old(self).can_mesh@[j]);
                    } else if i < n {
                        assert(old(self).can_mesh@[i] == id);
                        assert(old(self).eligible(id));
                    } else if j < n {
                        assert(old(self).can_mesh@[j] == id);
                        assert(old(self).eligible(id));
                    }
                }
                assert forall|c: ChunkId| #[trigger] self.eligible(c) <==> old(self).eligible(c) || (
                c == id && old(self).is_ready(id)) by {
                    if c == id {
                        assert(self.can_mesh@[self.can_mesh@.len() - 1] == id);
                    }
                    if self.eligible(c) && c != id {
                        let j = choose|j: int| 0 <= j < self.can_mesh@.len() && self.can_mesh@[j] == c;
                        assert(old(self).can_mesh@[j] == c);
                    }
                    if old(self).eligible(c) {
                        let j = choose|j: int| 0 <= j < old(self).can_mesh@.len() && old(self).can_mesh@[j] == c;
                        assert(self.can_mesh@[j] == c);
                    }
                }
            }
        }
    }
}

/// Chunk positions that hold the same ids give the same availability.
pub proof fn lemma_same_ids(a: MapInternal, b: MapInternal)
    requires
        a.chunks@.len() == b.chunks@.len(),
        forall|i: int| 0 <= i < a.chunks@.len() ==> #[trigger] a.chunks@[i].id == b.chunks@[i].id,
    ensures
        forall|c: ChunkId| #[trigger] a.has_chunk(c) == b.has_chunk(c),
{
    assert forall|c: ChunkId| #[trigger] a.has_chunk(c) == b.has_chunk(c) by {
        if a.has_chunk(c) {
            let i = choose|i: int| 0 <= i < a.chunks@.len() && #[trigger] a.chunks@[i].id == c;
            assert(b.chunks@[i].id == c);
        }
        if b.has_chunk(c) {
            let i = choose|i: int| 0 <= i < b.chunks@.len() && #[trigger] b.chunks@[i].id == c;
            assert(a.chunks@[i].id == c);
        }
    }
}

/// A store that holds at least the chunks of another makes at least the
/// same chunks ready.
pub proof fn lemma_ready_grows(a: MapInternal, b: MapInternal, id: ChunkId)
    requires
        forall|c: ChunkId| #[trigger] a.has_chunk(c) ==> b.has_chunk(c),
        a.min_y == b.min_y,
        a.max_y == b.max_y,
        a.is_ready(id),
    ensures
        b.is_ready(id),
{
    assert forall|d: Direction| #[trigger] b.resolved(id.spec_get(d)) by {
        assert(a.resolved(id.spec_get(d)));
    }
}

/// Changing only the generation queue keeps a world well formed as long as
/// its keys stay unique.
pub proof fn lemma_wf_queue_change(a: MapInternal, b: MapInternal)
    requires
        a.wf(),
        a.chunks@ == b.chunks@,
        a.can_mesh@ == b.can_mesh@,
        a.min_y == b.min_y,
        a.max_y == b.max_y,
        keys_unique(b.queued()),
    ensures
        b.wf(),
{
    assert forall|i: int| 0 <= i < b.can_mesh@.len() implies b.is_ready(#[trigger] b.can_mesh@[i]) by {
        lemma_ready_same_store(a, b, b.can_mesh@[i]);
        assert(a.can_mesh@[i] == b.can_mesh@[i]);
    }
}

/// The world block at a world position: the voxel of the stored chunk that
/// holds it, air where that chunk is absent.
#[verifier::opaque]
pub open spec fn world_block(m: MapInternal, b: BlockId) -> BlockType {
    let c = b.spec_chunk();
    let l = b.spec_local();
    if m.has_chunk(c) {
        m.chunk_at(c).voxel(l.x as int, l.y as int, l.z as int)
    } else {
        BlockType::Air
    }
}

impl MapInternal {
    /// With unique ids, the chunk found at any position with id `id` is
    /// `chunk_at(id)`.
    pub proof fn lemma_chunk_at(&self, i: int)
        requires
            self.wf(),
            0 <= i < self.chunks@.len(),
        ensures
            self.has_chunk(self.chunks@[i].id),
            self.chunk_at(self.chunks@[i].id) == self.chunks@[i],
    {
        let id = self.chunks@[i].id;
        assert(self.has_chunk(id));
        let j = choose|j: int| 0 <= j < self.chunks@.len() && #[trigger] self.chunks@[j].id == id;
        assert(self.chunks@[j].id == self.chunks@[i].id);
    }

    /// The block at world position `block`; air where its chunk is absent.
    pub fn get_block(&self, block: BlockId) -> (r: BlockType)
        requires
            self.wf(),
        ensures
            r == world_block(*self, block),
    {
        proof {
            reveal(world_block);
        }
        let c = block.chunk();
        let l = block.as_local();
        match self.find(c) {
            Some(i) => {
                proof {
                    self.lemma_chunk_at(i as int);
                }
                self.chunks[i].get_block(l)
            },
            None => BlockType::Air,
        }
    }

    /// The stored chunk at `id`, if any.
    pub fn get_chunk(&self, id: &ChunkId) -> (r: Option<&Chunk>)
        requires
            self.wf(),
        ensures
            r is None <==> !self.has_chunk(*id),
            r matches Some(c) ==> *c == self.chunk_at(*id),
    {
        match self.find(*id) {
            Some(i) => {
                proof {
                    self.lemma_chunk_at(i as int);
                }
                Some(&self.chunks[i])
            },
            None => None,
        }
    }

    /// The presentation handle of the stored chunk at `id`, if any.
    pub fn get_entity(&self, id: &ChunkId) -> (r: Option<u64>)
        requires
            self.wf(),
        ensures
            !self.has_chunk(*id) ==> r is None,
            self.has_chunk(*id) ==> r == self.chunk_at(*id).entity,
    {
        match self.get_chunk(id) {
            Some(c) => c.entity,
            None => None,
        }
    }

    /// Whether `id` is stored or waiting for generation.
    pub fn contains_chunk(&self, id: &ChunkId) -> (r: bool)
        requires
            self.wf(),
        ensures
            r == (self.has_chunk(*id) || has_key(self.queued(), key_of(*id))),
    {
        self.has_data(*id) || queue_contains(&self.to_gen, (id.x, id.y, id.z))
    }

    /// Whether `id` is waiting for generation.
    pub fn is_queued(&self, id: &ChunkId) -> (r: bool)
        ensures
            r == has_key(self.queued(), key_of(*id)),
    {
        queue_contains(&self.to_gen, (id.x, id.y, id.z))
    }

    /// Number of positions waiting for generation.
    pub fn to_gen(&self) -> (r: usize)
        ensures
            r == self.queued().len(),
    {
        queue_len(&self.to_gen)
    }

    /// The position that has waited longest for generation.
    pub fn next_to_gen(&self) -> (r: Option<ChunkId>)
        ensures
            self.queued().len() == 0 ==> r is None,
            self.queued().len() > 0 ==> r == Some(
                ChunkId { x: self.queued()[0].0.0, y: self.queued()[0].0.1, z: self.queued()[0].0.2 },
            ),
    {
        match queue_first(&self.to_gen) {
            Some((k, _)) => Some(ChunkId { x: k.0, y: k.1, z: k.2 }),
            None => None,
        }
    }

    /// Drains the mesh-eligible set, so that each marked chunk is claimed
    /// once.
    pub fn take_new(&mut self) -> (r: Vec<ChunkId>)
        requires
            old(self).wf(),
        ensures
            final(self).wf(),
            r@ == old(self).can_mesh@,
            final(self).can_mesh@.len() == 0,
            final(self).chunks@ == old(self).chunks@,
            final(self).to_gen == old(self).to_gen,
            final(self).min_y == old(self).min_y,
            final(self).max_y == old(self).max_y,
            final(self).seed == old(self).seed,
    {
        let mut r: Vec<ChunkId> = Vec::new();
        std::mem::swap(&mut r, &mut self.can_mesh);
        r
    }
}

impl MapInternal {
    /// Requests the chunk at `id` for the presentation handle `entity`: its
    /// face neighbours within the build limits that are neither stored nor
    /// queued are queued without a handle, and `id` itself is queued with
    /// `entity` (a queued position keeps its place). A position outside the
    /// build limits is ignored.
    pub fn gen_or_update_chunk(&mut self, id: ChunkId, entity: u64)
        requires
            old(self).wf(),
            id.steppable(),
        ensures
            final(self).wf(),
            final(self).chunks@ == old(self).chunks@,
            final(self).can_mesh@ == old(self).can_mesh@,
            final(self).min_y == old(self).min_y,
            final(self).max_y == old(self).max_y,
            final(self).seed == old(self).seed,
            !old(self).in_limits(id) ==> final(self).queued() == old(self).queued(),
            old(self).in_limits(id) ==> exists|p: int|
                0 <= p < final(self).queued().len() && #[trigger] final(self).queued()[p] == (
                    key_of(id),
                    Some(entity),
                ),
            forall|d: Direction|
                old(self).in_limits(id) && old(self).in_limits(#[trigger] id.spec_get(d))
                    && !old(self).has_chunk(id.spec_get(d)) ==> has_key(
                    final(self).queued(),
                    key_of(id.spec_get(d)),
                ),
            forall|k: QueueKey| #[trigger]
                has_key(old(self).queued(), k) ==> has_key(final(self).queued(), k),
            forall|k: QueueKey| #[trigger]
                has_key(final(self).queued(), k) ==> has_key(old(self).queued(), k) || k == key_of(
                    id,
                ) || exists|d: Direction| k == key_of(#[trigger] id.spec_get(d)),
    {
        if !self.in_build_limits(id) {
            return ;
        }
        let dirs = Direction::all();
        let mut k: usize = 0;
        while k < 6
            invariant
                k <= 6,
                id.steppable(),
                old(self).in_limits(id),
                dirs@ == crate::coords::direction_order(),
                self.wf(),
                self.chunks@ == old(self).chunks@,
                self.can_mesh@ == old(self).can_mesh@,
                self.min_y == old(self).min_y,
                self.max_y == old(self).max_y,
                self.seed == old(self).seed,
                forall|j: int|
                    0 <= j < k && old(self).in_limits(id.spec_get(#[trigger] dirs@[j]))
                        && !old(self).has_chunk(id.spec_get(dirs@[j])) ==> has_key(
                        self.queued(),
                        key_of(id.spec_get(dirs@[j])),
                    ),
                forall|q: QueueKey| #[trigger]
                    has_key(old(self).queued(), q) ==> has_key(self.queued(), q),
                forall|q: QueueKey| #[trigger]
                    has_key(self.queued(), q) ==> has_key(old(self).queued(), q)
                        || exists|d: Direction| q == key_of(#[trigger] id.spec_get(d)),
            decreases 6 - k,
        {
            let n = id.get(dirs[k]);
            let key = (n.x, n.y, n.z);
            if self.in_build_limits(n) && !self.has_data(n) && !queue_contains(&self.to_gen, key) {
                let ghost before = self.queued();
                let ghost prev = *self;
                queue_insert(&mut self.to_gen, key, None);
                proof {
                    lemma_insert_keys(before, self.queued(), key, None);
                    lemma_wf_queue_change(prev, *self);
                    assert(key == key_of(id.spec_get(dirs@[k as int])));
                }
            }
            k += 1;
        }
        let ghost before = self.queued();
        let key = (id.x, id.y, id.z);
        let ghost prev = *self;
        queue_insert(&mut self.to_gen, key, Some(entity));
        proof {
            lemma_insert_keys(before, self.queued(), key, Some(entity));
            lemma_wf_queue_change(prev, *self);
            assert forall|d: Direction|
                old(self).in_limits(id) && old(self).in_limits(#[trigger] id.spec_get(d))
                    && !old(self).has_chunk(id.spec_get(d)) implies has_key(
                    self.queued(),
                    key_of(id.spec_get(d)),
                ) by {
                assert(dirs@[crate::coords::spec_ordinal(d)] == d);
                assert(has_key(before, key_of(id.spec_get(d))));
            }
        }
    }
}

/// One of the six face neighbours of `id`.
pub open spec fn is_neighbor(id: ChunkId, c: ChunkId) -> bool {
    exists|d: Direction| c == #[trigger] id.spec_get(d)
}

/// The chunks whose meshes a change of the block at local position `l` of
/// chunk `c` may alter: `c` itself, and the neighbour across each chunk
/// border that `l` touches.
pub open spec fn touched_by_edit(c: ChunkId, l: BlockId, x: ChunkId) -> bool {
    ||| x == c
    ||| l.x == 0 && x == c.spec_get(Direction::Left)
    ||| l.x == 15 && x == c.spec_get(Direction::Right)
    ||| l.y == 0 && x == c.spec_get(Direction::Down)
    ||| l.y == 15 && x == c.spec_get(Direction::Up)
    ||| l.z == 0 && x == c.spec_get(Direction::Back)
    ||| l.z == 15 && x == c.spec_get(Direction::Forward)
}

/// Replacing a stored chunk by a well-formed one with the same id keeps a
/// world well formed and every chunk's availability.
pub proof fn lemma_wf_replace(a: MapInternal, b: MapInternal, i: int)
    requires
        a.wf(),
        0 <= i < a.chunks@.len(),
        b.chunks@ == a.chunks@.update(i, b.chunks@[i]),
        b.chunks@[i].wf(),
        b.chunks@[i].id == a.chunks@[i].id,
        a.can_mesh@ == b.can_mesh@,
        a.min_y == b.min_y,
        a.max_y == b.max_y,
        a.to_gen == b.to_gen,
    ensures
        b.wf(),
        forall|c: ChunkId| #[trigger] b.has_chunk(c) == a.has_chunk(c),
        forall|c: ChunkId| #[trigger] b.is_ready(c) == a.is_ready(c),
{
    lemma_same_ids(a, b);
    assert forall|c: ChunkId| #[trigger] b.is_ready(c) == a.is_ready(c) by {
        if a.is_ready(c) {
            lemma_ready_grows(a, b, c);
        }
        if b.is_ready(c) {
            lemma_ready_grows(b, a, c);
        }
    }
    assert forall|j: int, k: int|
        0 <= j < b.chunks@.len() && 0 <= k < b.chunks@.len() && (#[trigger] b.chunks@[j]).id
            == (#[trigger] b.chunks@[k]).id implies j == k by {
        assert(b.chunks@[j].id == a.chunks@[j].id);
        assert(b.chunks@[k].id == a.chunks@[k].id);
    }
    assert forall|j: int| 0 <= j < b.can_mesh@.len() implies b.is_ready(#[trigger] b.can_mesh@[j]) by {
        assert(a.is_ready(a.can_mesh@[j]));
    }
}

impl MapInternal {
    /// Marks `id` for meshing if it is ready and was requested with a
    /// presentation handle.
    fn mark_if_wanted(&mut self, id: ChunkId)
        requires
            old(self).wf(),
            id.steppable(),
        ensures
            final(self).wf(),
            final(self).seed == old(self).seed,
            final(self).min_y == old(self).min_y,
            final(self).max_y == old(self).max_y,
            final(self).chunks@ == old(self).chunks@,
            final(self).to_gen == old(self).to_gen,
            forall|c: ChunkId|
                #[trigger] final(self).eligible(c) <==> old(self).eligible(c) || (c == id && old(
                    self,
                ).is_ready(id) && old(self).chunk_at(id).entity is Some),
    {
        if self.get_entity(&id).is_some() {
            self.mark_if_ready(id);
        }
    }

    /// Stores `chunk`, with handle `handle` if given, where no chunk is
    /// stored at its position; otherwise gives the stored chunk that handle.
    fn store_chunk(&mut self, chunk: Chunk, handle: Option<u64>)
        requires
            old(self).wf(),
            chunk.wf(),
            old(self).in_limits(chunk.id),
        ensures
            final(self).wf(),
            final(self).seed == old(self).seed,
            final(self).min_y == old(self).min_y,
            final(self).max_y == old(self).max_y,
            final(self).to_gen == old(self).to_gen,
            final(self).can_mesh@ == old(self).can_mesh@,
            forall|c: ChunkId| #[trigger] final(self).has_chunk(c) <==> old(self).has_chunk(c) || c == chunk.id,
            old(self).has_chunk(chunk.id) ==> final(self).chunk_at(chunk.id).blocks@ == old(
                self,
            ).chunk_at(chunk.id).blocks@,
            !old(self).has_chunk(chunk.id) ==> final(self).chunk_at(chunk.id).blocks@
                == chunk.blocks@,
    {
        let id = chunk.id;
        let ghost s1 = *self;
        match self.find(id) {
            Some(i) => {
                proof {
                    self.lemma_chunk_at(i as int);
                }
                if let Some(e) = handle {
                    let mut c = self.chunks.remove(i);
                    c.set_entity(e);
                    self.chunks.insert(i, c);
                    assert(self.chunks@ =~= s1.chunks@.update(i as int, c));
                    proof {
                        lemma_wf_replace(s1, *self, i as int);
                        self.lemma_chunk_at(i as int);
                    }
                }
            },
            None => {
                let mut c = chunk;
                if let Some(e) = handle {
                    c.set_entity(e);
                }
                self.chunks.push(c);
                proof {
                    let n = s1.chunks@.len() as int;
                    assert(self.chunks@[n] == c);
                    assert forall|x: ChunkId| #[trigger] self.has_chunk(x) <==> s1.has_chunk(x) || x == id by {
                        if s1.has_chunk(x) {
                            let j = choose|j: int| 0 <= j < s1.chunks@.len() && #[trigger] s1.chunks@[j].id == x;
                            assert(self.chunks@[j].id == x);
                        }
                        if self.has_chunk(x) && x != id {
                            let j = choose|j: int| 0 <= j < self.chunks@.len() && #[trigger] self.chunks@[j].id == x;
                            assert(s1.chunks@[j].id == x);
                        }
                    }
                    assert forall|j: int, k: int|
                        0 <= j < self.chunks@.len() && 0 <= k < self.chunks@.len() && (#[trigger] self.chunks@[j]).id
                            == (#[trigger] self.chunks@[k]).id implies j == k by {
                        if j < n && k == n {
                            assert(s1.chunks@[j].id == id);
                        }
                        if k < n && j == n {
                            assert(s1.chunks@[k].id == id);
                        }
                    }
                    assert forall|j: int| 0 <= j < self.can_mesh@.len() implies self.is_ready(
                        #[trigger] self.can_mesh@[j],
                    ) by {
                        lemma_ready_grows(s1, *self, self.can_mesh@[j]);
                    }
                    self.lemma_chunk_at(n);
                }
            },
        }
    }

    /// Installs a freshly generated chunk: its position leaves the generation
    /// queue; a chunk already stored there keeps its voxels (only taking the
    /// queued handle); otherwise the chunk is stored with the queued handle.
    /// Then the chunk and each of its face neighbours that is ready and was
    /// requested with a handle is marked for meshing.
    pub fn add_chunk(&mut self, chunk: Chunk)
        requires
            old(self).wf(),
            chunk.wf(),
            old(self).in_limits(chunk.id),
        ensures
            final(self).wf(),
            final(self).seed == old(self).seed,
            final(self).min_y == old(self).min_y,
            final(self).max_y == old(self).max_y,
            final(self).has_chunk(chunk.id),
            forall|c: ChunkId| #[trigger] final(self).has_chunk(c) <==> old(self).has_chunk(c) || c == chunk.id,
            old(self).has_chunk(chunk.id) ==> final(self).chunk_at(chunk.id).blocks@ == old(
                self,
            ).chunk_at(chunk.id).blocks@,
            !old(self).has_chunk(chunk.id) ==> final(self).chunk_at(chunk.id).blocks@
                == chunk.blocks@,
            forall|k: QueueKey| #[trigger]
                has_key(final(self).queued(), k) <==> has_key(old(self).queued(), k) && k != key_of(
                    chunk.id,
                ),
            forall|c: ChunkId| #[trigger] old(self).eligible(c) ==> final(self).eligible(c),
            forall|c: ChunkId| #[trigger]
                final(self).eligible(c) ==> old(self).eligible(c) || c == chunk.id || is_neighbor(
                    chunk.id,
                    c,
                ),
            final(self).is_ready(chunk.id) && final(self).chunk_at(chunk.id).entity is Some
                ==> final(self).eligible(chunk.id),
            forall|d: Direction|
                final(self).is_ready(#[trigger] chunk.id.spec_get(d)) && final(self).chunk_at(
                    chunk.id.spec_get(d),
                ).entity is Some ==> final(self).eligible(chunk.id.spec_get(d)),
    {
        let id = chunk.id;
        let ghost q0 = self.queued();
        let ghost start = *self;
        let entry = queue_shift_remove(&mut self.to_gen, (id.x, id.y, id.z));
        proof {
            lemma_remove_keys(q0, self.queued(), key_of(id));
            lemma_wf_queue_change(start, *self);
        }
        let handle: Option<u64> = match entry {
            Some(Some(e)) => Some(e),
            _ => None,
        };
        let ghost sq = *self;
        self.store_chunk(chunk, handle);
        let ghost s2 = *self;
        self.mark_if_wanted(id);
        let dirs = Direction::all();
        let mut k: usize = 0;
        while k < 6
            invariant
                k <= 6,
                self.wf(),
                id.fits(),
                dirs@ == crate::coords::direction_order(),
                self.chunks@ == s2.chunks@,
                self.to_gen == s2.to_gen,
                self.min_y == s2.min_y,
                self.max_y == s2.max_y,
                self.seed == s2.seed,
                forall|c: ChunkId| #[trigger] s2.eligible(c) ==> self.eligible(c),
                forall|c: ChunkId| #[trigger]
                    self.eligible(c) ==> s2.eligible(c) || c == id || is_neighbor(id, c),
                s2.is_ready(id) && s2.chunk_at(id).entity is Some ==> self.eligible(id),
                forall|j: int|
                    0 <= j < k && s2.is_ready(#[trigger] id.spec_get(dirs@[j])) && s2.chunk_at(
                        id.spec_get(dirs@[j]),
                    ).entity is Some ==> self.eligible(id.spec_get(dirs@[j])),
            decreases 6 - k,
        {
            let ghost before = *self;
            let n = id.get(dirs[k]);
            proof {
                lemma_ready_same_store(before, s2, n);
                assert(is_neighbor(id, n));
            }
            self.mark_if_wanted(n);
            k += 1;
        }
        proof {
            lemma_ready_same_store(*self, s2, id);
            assert forall|c: ChunkId| #[trigger] self.has_chunk(c) <==> old(self).has_chunk(c) || c == id by {
                lemma_ready_same_store(*self, s2, c);
                lemma_ready_same_store(sq, start, c);
            }
            assert(self.chunk_at(id) == s2.chunk_at(id));
            assert(s2.can_mesh@ == start.can_mesh@);
            assert forall|c: ChunkId| #[trigger] old(self).eligible(c) implies self.eligible(c) by {
                assert(s2.eligible(c));
            }
            assert forall|c: ChunkId| #[trigger] self.eligible(c) implies old(self).eligible(c) || c == id
                || is_neighbor(id, c) by {
                if s2.eligible(c) {
                    assert(old(self).eligible(c));
                }
            }
            assert(sq.chunk_at(id) == start.chunk_at(id));
            assert forall|d: Direction|
                self.is_ready(#[trigger] id.spec_get(d)) && self.chunk_at(id.spec_get(d)).entity is Some
                    implies self.eligible(id.spec_get(d)) by {
                lemma_ready_same_store(*self, s2, id.spec_get(d));
                assert(dirs@[crate::coords::spec_ordinal(d)] == d);
            }
        }
    }
}

impl MapInternal {
    /// A stored chunk's position fits the chunk lattice.
    proof fn lemma_stored_fits(&self, id: ChunkId)
        requires
            self.wf(),
            self.has_chunk(id),
        ensures
            id.fits(),
            id.steppable(),
    {
        let i = choose|i: int| 0 <= i < self.chunks@.len() && #[trigger] self.chunks@[i].id == id;
        assert(self.chunks@[i].wf());
    }

    /// Writes `to` at local position `block` of the stored chunk `chunk_id`
    /// (a position outside the chunk changes no voxel), then marks for
    /// meshing, among that chunk and the neighbours across the chunk borders
    /// that `block` touches, those that are ready. Without a stored chunk at
    /// `chunk_id` nothing changes.
    pub fn set_block(&mut self, chunk_id: ChunkId, block: BlockId, to: BlockType)
        requires
            old(self).wf(),
        ensures
            final(self).wf(),
            final(self).seed == old(self).seed,
            final(self).min_y == old(self).min_y,
            final(self).max_y == old(self).max_y,
            final(self).to_gen == old(self).to_gen,
            forall|x: ChunkId| #[trigger] final(self).has_chunk(x) == old(self).has_chunk(x),
            !old(self).has_chunk(chunk_id) ==> final(self).chunks@ == old(self).chunks@
                && final(self).can_mesh@ == old(self).can_mesh@,
            old(self).has_chunk(chunk_id) && block.is_local() ==> final(self).chunk_at(
                chunk_id,
            ).blocks@ == old(self).chunk_at(chunk_id).blocks@.update(
                block_index(block.x as int, block.y as int, block.z as int),
                to,
            ),
            old(self).has_chunk(chunk_id) && !block.is_local() ==> final(self).chunk_at(
                chunk_id,
            ).blocks@ == old(self).chunk_at(chunk_id).blocks@,
            forall|x: ChunkId| #[trigger]
                final(self).eligible(x) <==> old(self).eligible(x) || (old(self).has_chunk(chunk_id)
                    && touched_by_edit(chunk_id, block, x) && old(self).is_ready(x)),
            old(self).has_chunk(chunk_id) && block.x == 0 && old(self).is_ready(chunk_id) && old(
                self,
            ).is_ready(chunk_id.spec_get(Direction::Left)) ==> final(self).eligible(chunk_id)
                && final(self).eligible(chunk_id.spec_get(Direction::Left)),
    {
        let i = match self.find(chunk_id) {
            Some(i) => i,
            None => {
                return ;
            },
        };
        let ghost s0 = *self;
        proof {
            self.lemma_chunk_at(i as int);
            self.lemma_stored_fits(chunk_id);
        }
        let mut c = self.chunks.remove(i);
        c.set_block(block, to);
        self.chunks.insert(i, c);
        assert(self.chunks@ =~= s0.chunks@.update(i as int, c));
        proof {
            lemma_wf_replace(s0, *self, i as int);
            self.lemma_chunk_at(i as int);
        }
        let ghost s1 = *self;
        self.mark_if_ready(chunk_id);
        let ghost t1 = *self;
        if block.x == 0 {
            self.mark_if_ready(chunk_id.get(Direction::Left));
        } else if block.x == 15 {
            self.mark_if_ready(chunk_id.get(Direction::Right));
        }
        let ghost t2 = *self;
        if block.y == 0 {
            self.mark_if_ready(chunk_id.get(Direction::Down));
        } else if block.y == 15 {
            self.mark_if_ready(chunk_id.get(Direction::Up));
        }
        let ghost t3 = *self;
        if block.z == 0 {
            self.mark_if_ready(chunk_id.get(Direction::Back));
        } else if block.z == 15 {
            self.mark_if_ready(chunk_id.get(Direction::Forward));
        }
        proof {
            assert(self.chunks@ == s1.chunks@);
            assert(self.chunk_at(chunk_id) == s1.chunk_at(chunk_id));
            assert forall|x: ChunkId| #[trigger] self.has_chunk(x) == old(self).has_chunk(x) by {
                lemma_ready_same_store(*self, s1, x);
            }
            assert forall|x: ChunkId| #[trigger] self.eligible(x) <==> old(self).eligible(x) || (
            old(self).has_chunk(chunk_id) && touched_by_edit(chunk_id, block, x) && old(self).is_ready(x)) by {
                lemma_ready_same_store(s1, t1, x);
                lemma_ready_same_store(s1, t2, x);
                lemma_ready_same_store(s1, t3, x);
                assert(s1.can_mesh@ == s0.can_mesh@);
                assert(s1.eligible(x) == old(self).eligible(x));
            }
        }
    }

    /// Writes `to` at world position `block` (see `set_block`).
    pub fn set_world_block(&mut self, block: BlockId, to: BlockType)
        requires
            old(self).wf(),
        ensures
            final(self).wf(),
            final(self).seed == old(self).seed,
            final(self).min_y == old(self).min_y,
            final(self).max_y == old(self).max_y,
            final(self).to_gen == old(self).to_gen,
            forall|x: ChunkId| #[trigger] final(self).has_chunk(x) == old(self).has_chunk(x),
            old(self).has_chunk(block.spec_chunk()) ==> final(self).chunk_at(block.spec_chunk()).blocks@
                == old(self).chunk_at(block.spec_chunk()).blocks@.update(
                block_index(
                    block.spec_local().x as int,
                    block.spec_local().y as int,
                    block.spec_local().z as int,
                ),
                to,
            ),
            forall|x: ChunkId| #[trigger]
                final(self).eligible(x) <==> old(self).eligible(x) || (old(self).has_chunk(
                    block.spec_chunk(),
                ) && touched_by_edit(block.spec_chunk(), block.spec_local(), x) && old(
                    self,
                ).is_ready(x)),
    {
        let c = block.chunk();
        let l = block.as_local();
        self.set_block(c, l, to);
    }

    /// Evicts the chunk at `id`, and withdraws from the mesh-eligible set
    /// every chunk that is no longer ready without it.
    pub fn remove_chunk(&mut self, id: &ChunkId)
        requires
            old(self).wf(),
        ensures
            final(self).wf(),
            final(self).seed == old(self).seed,
            final(self).min_y == old(self).min_y,
            final(self).max_y == old(self).max_y,
            final(self).to_gen == old(self).to_gen,
            forall|x: ChunkId| #[trigger] final(self).has_chunk(x) <==> old(self).has_chunk(x) && x != *id,
            forall|x: ChunkId| #[trigger]
                final(self).eligible(x) <==> old(self).eligible(x) && final(self).is_ready(x),
    {
        let i = match self.find(*id) {
            Some(i) => i,
            None => {
                proof {
                    assert forall|x: ChunkId| #[trigger] self.eligible(x) implies self.is_ready(x) by {
                        let j = choose|j: int| 0 <= j < self.can_mesh@.len() && self.can_mesh@[j] == x;
                    }
                }
                return ;
            },
        };
        let ghost s0 = *self;
        self.chunks.remove(i);
        proof {
            assert forall|x: ChunkId| #[trigger] self.has_chunk(x) <==> s0.has_chunk(x) && x != *id by {
                if s0.has_chunk(x) && x != *id {
                    let j = choose|j: int| 0 <= j < s0.chunks@.len() && #[trigger] s0.chunks@[j].id == x;
                    if j < i {
                        assert(self.chunks@[j].id == x);
                    } else {
                        assert(j != i);
                        assert(self.chunks@[j - 1].id == x);
                    }
                }
                if self.has_chunk(x) {
                    let j = choose|j: int| 0 <= j < self.chunks@.len() && #[trigger] self.chunks@[j].id == x;
                    if j < i {
                        assert(s0.chunks@[j].id == x);
                    } else {
                        assert(s0.chunks@[j + 1].id == x);
                        assert(j + 1 != i);
                    }
                }
            }
            assert forall|a: int, b: int|
                0 <= a < self.chunks@.len() && 0 <= b < self.chunks@.len() && (#[trigger] self.chunks@[a]).id
                    == (#[trigger] self.chunks@[b]).id implies a == b by {
                let a2 = if a < i { a } else { a + 1 };
                let b2 = if b < i { b } else { b + 1 };
                assert(s0.chunks@[a2] == self.chunks@[a]);
                assert(s0.chunks@[b2] == self.chunks@[b]);
            }
            assert forall|a: int| 0 <= a < self.chunks@.len() implies (#[trigger] self.chunks@[a]).wf()
                && self.in_limits(self.chunks@[a].id) by {
                let a2 = if a < i { a } else { a + 1 };
                assert(s0.chunks@[a2] == self.chunks@[a]);
            }
        }
        let mut kept: Vec<ChunkId> = Vec::new();
        let mut j: usize = 0;
        while j < self.can_mesh.len()
            invariant
                j <= self.can_mesh@.len(),
                self.can_mesh@ == s0.can_mesh@,
                forall|a: int| 0 <= a < self.can_mesh@.len() ==> s0.is_ready(#[trigger] self.can_mesh@[a]),
                forall|a: int, b: int|
                    0 <= a < self.can_mesh@.len() && 0 <= b < self.can_mesh@.len() && #[trigger] self.can_mesh@[a]
                        == #[trigger] self.can_mesh@[b] ==> a == b,
                s0.wf(),
                forall|a: int| 0 <= a < kept@.len() ==> self.is_ready(#[trigger] kept@[a]),
                forall|a: int|
                    0 <= a < kept@.len() ==> exists|p: int| 0 <= p < j && #[trigger] kept@[a] == self.can_mesh@[p],
                forall|a: int, b: int|
                    0 <= a < kept@.len() && 0 <= b < kept@.len() && #[trigger] kept@[a]
                        == #[trigger] kept@[b] ==> a == b,
                forall|p: int|
                    0 <= p < j && self.is_ready(#[trigger] self.can_mesh@[p]) ==> kept@.contains(
                        self.can_mesh@[p],
                    ),
            decreases self.can_mesh@.len() - j,
        {
            let e = self.can_mesh[j];
            proof {
                s0.lemma_stored_fits(e);
            }
            if self.is_mesh_ready(e) {
                let ghost k0 = kept@;
                kept.push(e);
                proof {
                    assert forall|a: int, b: int|
                        0 <= a < kept@.len() && 0 <= b < kept@.len() && #[trigger] kept@[a]
                            == #[trigger] kept@[b] implies a == b by {
                        if a < k0.len() && b == k0.len() {
                            let p = choose|p: int| 0 <= p < j && #[trigger] k0[a] == self.can_mesh@[p];
                        }
                        if b < k0.len() && a == k0.len() {
                            let p = choose|p: int| 0 <= p < j && #[trigger] k0[b] == self.can_mesh@[p];
                        }
                    }
                    assert forall|a: int| 0 <= a < kept@.len() implies exists|p: int|
                        0 <= p < j + 1 && #[trigger] kept@[a] == self.can_mesh@[p] by {
                        if a < k0.len() {
                            let p = choose|p: int| 0 <= p < j && #[trigger] k0[a] == self.can_mesh@[p];
                            assert(kept@[a] == self.can_mesh@[p]);
                        } else {
                            assert(kept@[a] == self.can_mesh@[j as int]);
                        }
                    }
                    assert forall|p: int|
                        0 <= p < j + 1 && self.is_ready(#[trigger] self.can_mesh@[p]) implies kept@.contains(
                        self.can_mesh@[p],
                    ) by {
                        if p < j {
                            assert(k0.contains(self.can_mesh@[p]));
                            let a = choose|a: int| 0 <= a < k0.len() && k0[a] == self.can_mesh@[p];
                            assert(kept@[a] == self.can_mesh@[p]);
                        } else {
                            assert(kept@[k0.len() as int] == self.can_mesh@[p]);
                        }
                    }
                }
            }
            j += 1;
        }
        let ghost s_mid = *self;
        self.can_mesh = kept;
        proof {
            assert forall|x: ChunkId| #[trigger] self.eligible(x) <==> old(self).eligible(x) && self.is_ready(x) by {
                lemma_ready_same_store(*self, s_mid, x);
                if self.eligible(x) {
                    let a = choose|a: int| 0 <= a < kept@.len() && kept@[a] == x;
                    let p = choose|p: int| 0 <= p < j && #[trigger] kept@[a] == s_mid.can_mesh@[p];
                    assert(s0.can_mesh@[p] == x);
                }
                if old(self).eligible(x) && self.is_ready(x) {
                    let p = choose|p: int| 0 <= p < s0.can_mesh@.len() && s0.can_mesh@[p] == x;
                    assert(s_mid.can_mesh@[p] == x);
                }
            }
            assert forall|a: int| 0 <= a < self.can_mesh@.len() implies self.is_ready(#[trigger] self.can_mesh@[a]) by {
                lemma_ready_same_store(*self, s_mid, self.can_mesh@[a]);
            }
            assert forall|x: ChunkId| #[trigger] self.has_chunk(x) <==> old(self).has_chunk(x) && x != *id by {
                lemma_ready_same_store(*self, s_mid, x);
            }
        }
    }
}

/// Only ready chunks are ever marked for meshing: a chunk with a face
/// neighbour inside the build limits that is not generated is never in the
/// mesh-eligible set of a well-formed world.
pub proof fn lemma_eligible_only_when_ready(m: MapInternal, id: ChunkId, d: Direction)
    requires
        m.wf(),
        m.in_limits(id.spec_get(d)),
        !m.has_chunk(id.spec_get(d)),
    ensures
        !m.eligible(id),
{
    if m.eligible(id) {
        let j = choose|j: int| 0 <= j < m.can_mesh@.len() && m.can_mesh@[j] == id;
        assert(m.is_ready(m.can_mesh@[j]));
        assert(m.resolved(id.spec_get(d)));
    }
}

/// Everything built for one chunk: its opaque mesh, its liquid mesh and its
/// collision shape.
#[derive(Debug)]
pub struct ChunkGenData {
    pub main_mesh: MeshData,
    pub water_mesh: Option<MeshData>,
    pub collider: Option<ColliderShape>,
}

/// The world block at height `y` of column `(x, z)`.
pub open spec fn column_block(m: MapInternal, x: i32, y: int, z: i32) -> BlockType {
    world_block(m, BlockId { x, y: y as i32, z })
}

impl ChunkGenData {
    /// The meshes and collision shape of the snapshot's centre chunk.
    pub open spec fn built_from(&self, nb: Neighborhood) -> bool {
        &&& self.main_mesh.faces@ == crate::mesh::pass_faces(nb, false)
        &&& self.main_mesh.buffers_match()
        &&& (self.water_mesh is None <==> crate::mesh::pass_faces(nb, true).len() == 0)
        &&& (self.water_mesh matches Some(w) ==> w.faces@ == crate::mesh::pass_faces(nb, true)
            && w.buffers_match())
        &&& (self.collider is None <==> crate::collider::none_solid(nb.center))
        &&& (crate::collider::all_solid(nb.center) <==> self.collider matches Some(
            ColliderShape::Cuboid { .. },
        ))
        &&& (self.collider matches Some(ColliderShape::TriMesh { quads, vertices, triangles })
            ==> crate::collider::tiles_exposed_faces(nb.center, quads@)
            && crate::collider::quad_vertices_match(quads@, vertices@)
            && crate::collider::quad_triangles_match(quads@, triangles@))
    }

    /// Builds the opaque mesh, the liquid mesh and the collision shape of a
    /// snapshot's centre chunk.
    pub fn build(nb: &Neighborhood) -> (r: ChunkGenData)
        requires
            nb.wf(),
        ensures
            r.built_from(*nb),
    {
        let main_mesh = nb.gen_mesh();
        let water_mesh = nb.gen_water_mesh();
        let collider = nb.center.gen_collider();
        ChunkGenData { main_mesh, water_mesh, collider }
    }
}

impl MapInternal {
    /// A copy of the chunk at `id` and of its six face neighbours, `None`
    /// where a neighbour is not stored.
    pub fn neighborhood(&self, id: ChunkId) -> (r: Result<Neighborhood, MeshError>)
        requires
            self.wf(),
        ensures
            r is Err <==> !self.has_chunk(id),
            r matches Err(e) ==> e == MeshError::ChunkNotResolved(id),
            r matches Ok(nb) ==> {
                &&& nb.wf()
                &&& nb.center.id == id
                &&& nb.center.blocks@ == self.chunk_at(id).blocks@
                &&& forall|k: int|
                    0 <= k < 6 ==> {
                        let n = id.spec_get(crate::coords::direction_order()[k]);
                        &&& (self.has_chunk(n) <==> #[trigger] nb.sides@[k] is Some)
                        &&& nb.sides@[k] matches Some(c) ==> c.blocks@ == self.chunk_at(n).blocks@
                    }
            },
    {
        let center = match self.get_chunk(&id) {
            Some(c) => c.snapshot(),
            None => {
                return Err(MeshError::ChunkNotResolved(id));
            },
        };
        proof {
            self.lemma_stored_fits(id);
        }
        let dirs = Direction::all();
        let mut sides: Vec<Option<Chunk>> = Vec::new();
        let mut k: usize = 0;
        while k < 6
            invariant
                k <= 6,
                self.wf(),
                id.steppable(),
                center.wf(),
                center.id == id,
                dirs@ == crate::coords::direction_order(),
                sides@.len() == k,
                forall|j: int|
                    0 <= j < k ==> {
                        let n = id.spec_get(crate::coords::direction_order()[j]);
                        &&& (self.has_chunk(n) <==> #[trigger] sides@[j] is Some)
                        &&& sides@[j] matches Some(c) ==> c.wf() && c.id == n && c.blocks@
                            == self.chunk_at(n).blocks@
                    },
            decreases 6 - k,
        {
            let n = id.get(dirs[k]);
            let side = match self.get_chunk(&n) {
                Some(c) => {
                    proof {
                        let i = choose|i: int| 0 <= i < self.chunks@.len() && #[trigger] self.chunks@[i].id == n;
                        self.lemma_chunk_at(i);
                    }
                    Some(c.snapshot())
                },
                None => None,
            };
            sides.push(side);
            k += 1;
        }
        Ok(Neighborhood { center, sides })
    }

    /// Builds the meshes and the collision shape of the chunk at `id` from a
    /// snapshot of it and its neighbours; fails when the chunk is not stored.
    pub fn make_mesh(&self, id: ChunkId) -> (r: Result<ChunkGenData, MeshError>)
        requires
            self.wf(),
        ensures
            r is Err <==> !self.has_chunk(id),
            r matches Err(e) ==> e == MeshError::ChunkNotResolved(id),
            r matches Ok(data) ==> exists|nb: Neighborhood|
                {
                    &&& nb.wf()
                    &&& nb.center.id == id
                    &&& nb.center.blocks@ == self.chunk_at(id).blocks@
                    &&& data.built_from(nb)
                },
    {
        let nb = self.neighborhood(id)?;
        Ok(ChunkGenData::build(&nb))
    }

    /// World height of the topmost block of column `(x, z)` that is not
    /// air; the bottom of the build limits when the column holds only air.
    pub fn get_max_height(&self, x: i32, z: i32) -> (r: i32)
        requires
            self.wf(),
            -134217728 <= self.min_y <= self.max_y <= 134217727,
        ensures
            (exists|y: int|
                self.min_y * 16 <= y < self.max_y * 16 && #[trigger] column_block(*self, x, y, z)
                    != BlockType::Air) ==> column_block(*self, x, r as int, z) != BlockType::Air,
            forall|y: int|
                r < y < self.max_y * 16 ==> #[trigger] column_block(*self, x, y, z) == BlockType::Air,
            (forall|y: int|
                self.min_y * 16 <= y < self.max_y * 16 ==> #[trigger] column_block(*self, x, y, z)
                    == BlockType::Air) ==> r == self.min_y * 16,
            self.min_y * 16 <= r,
            r < self.max_y * 16 || r == self.min_y * 16,
    {
        let bottom = self.min_y * 16;
        let mut y: i32 = self.max_y * 16;
        while y > bottom
            invariant
                self.wf(),
                -134217728 <= self.min_y <= self.max_y <= 134217727,
                bottom == self.min_y * 16,
                bottom <= y <= self.max_y * 16,
                forall|y2: int| y <= y2 < self.max_y * 16 ==> #[trigger] column_block(*self, x, y2, z)
                    == BlockType::Air,
            decreases y - bottom,
        {
            let b = self.get_block(BlockId { x, y: y - 1, z });
            assert(b == column_block(*self, x, y - 1, z));
            if b != BlockType::Air {
                return y - 1;
            }
            y -= 1;
        }
        bottom
    }
}

/// What to do with a loaded chunk at a flat distance from the viewer.
#[derive(Clone, Copy, Debug, PartialEq, Eq, Structural)]
pub enum ViewAction {
    /// Far beyond the view distance: remove it from the world.
    Evict,
    /// Beyond the view distance: keep it but do not draw it.
    Hide,
    /// Within the view distance.
    Show,
}

pub open spec fn spec_view_action(distance: int, view_distance: int) -> ViewAction {
    if distance > 2 * view_distance + 5 {
        ViewAction::Evict
    } else if distance > 2 * view_distance {
        ViewAction::Hide
    } else {
        ViewAction::Show
    }
}

/// A chunk more than twice the view distance plus five chunks away is
/// evicted, one more than twice the view distance away is hidden, any other
/// is shown.
pub fn view_action(distance: i32, view_distance: i32) -> (r: ViewAction)
    ensures
        r == spec_view_action(distance as int, view_distance as int),
{
    let d = distance as i64;
    let v = view_distance as i64;
    if d > 2 * v + 5 {
        ViewAction::Evict
    } else if d > 2 * v {
        ViewAction::Hide
    } else {
        ViewAction::Show
    }
}

/// The layer-0 chunk of column `(x, z)` is neither stored with a
/// presentation handle nor queued.
pub open spec fn column_open(m: MapInternal, x: int, z: int) -> bool {
    let id = ChunkId { x: x as i32, y: 0, z: z as i32 };
    !(m.has_chunk(id) && m.chunk_at(id).entity is Some) && !has_key(m.queued(), key_of(id))
}

impl MapInternal {
    /// Columns `(x, z)` in the square of half-side `view_distance` around
    /// `center` (`center.x - view_distance <= x < center.x + view_distance`,
    /// likewise for `z`) whose chunk in layer 0 is neither stored with a
    /// presentation handle nor queued, scanned row by row, at most
    /// `max_columns` of them; all of them when there are fewer.
    pub fn columns_to_request(&self, center: ChunkId, view_distance: i32, max_columns: usize) -> (r: Vec<(i32, i32)>)
        requires
            self.wf(),
            0 <= view_distance,
            i32::MIN <= center.x - view_distance,
            center.x + view_distance <= i32::MAX,
            i32::MIN <= center.z - view_distance,
            center.z + view_distance <= i32::MAX,
        ensures
            r@.len() <= max_columns,
            forall|k: int|
                0 <= k < r@.len() ==> {
                    let (x, z) = #[trigger] r@[k];
                    let id = ChunkId { x, y: 0, z };
                    &&& center.x - view_distance <= x < center.x + view_distance
                    &&& center.z - view_distance <= z < center.z + view_distance
                    &&& !(self.has_chunk(id) && self.chunk_at(id).entity is Some)
                    &&& !has_key(self.queued(), key_of(id))
                },
            r@.len() < max_columns ==> forall|x: int, z: int|
                center.x - view_distance <= x < center.x + view_distance && center.z - view_distance
                    <= z < center.z + view_distance && #[trigger] column_open(*self, x, z)
                    ==> r@.contains((x as i32, z as i32)),
    {
        let mut out: Vec<(i32, i32)> = Vec::new();
        let mut dz: i32 = -view_distance;
        while dz < view_distance
            invariant
                self.wf(),
                0 <= view_distance,
                i32::MIN <= center.x - view_distance,
                center.x + view_distance <= i32::MAX,
                i32::MIN <= center.z - view_distance,
                center.z + view_distance <= i32::MAX,
                -view_distance <= dz <= view_distance,
                out@.len() <= max_columns,
                forall|k: int|
                    0 <= k < out@.len() ==> {
                        let (x, z) = #[trigger] out@[k];
                        let id = ChunkId { x, y: 0, z };
                        &&& center.x - view_distance <= x < center.x + view_distance
                        &&& center.z - view_distance <= z < center.z + view_distance
                        &&& !(self.has_chunk(id) && self.chunk_at(id).entity is Some)
                        &&& !has_key(self.queued(), key_of(id))
                    },
                out@.len() < max_columns ==> forall|x: int, z: int|
                    center.x - view_distance <= x < center.x + view_distance && center.z
                        - view_distance <= z < center.z + dz && #[trigger] column_open(*self, x, z)
                        ==> out@.contains((x as i32, z as i32)),
            decreases view_distance - dz,
        {
            let mut dx: i32 = -view_distance;
            while dx < view_distance
                invariant
                    self.wf(),
                    0 <= view_distance,
                    i32::MIN <= center.x - view_distance,
                    center.x + view_distance <= i32::MAX,
                    i32::MIN <= center.z - view_distance,
                    center.z + view_distance <= i32::MAX,
                    -view_distance <= dz < view_distance,
                    -view_distance <= dx <= view_distance,
                    out@.len() <= max_columns,
                    forall|k: int|
                        0 <= k < out@.len() ==> {
                            let (x, z) = #[trigger] out@[k];
                            let id = ChunkId { x, y: 0, z };
                            &&& center.x - view_distance <= x < center.x + view_distance
                            &&& center.z - view_distance <= z < center.z + view_distance
                            &&& !(self.has_chunk(id) && self.chunk_at(id).entity is Some)
                            &&& !has_key(self.queued(), key_of(id))
                        },
                    out@.len() < max_columns ==> forall|x: int, z: int|
                        center.x - view_distance <= x < center.x + view_distance && center.z
                            - view_distance <= z < center.z + view_distance && (z < center.z + dz || (z
                            == center.z + dz && x < center.x + dx)) && #[trigger] column_open(*self, x, z)
                            ==> out@.contains((x as i32, z as i32)),
                decreases view_distance - dx,
            {
                let pos = ChunkId::new(center.x + dx, 0, center.z + dz);
                if self.get_entity(&pos).is_none() && !self.is_queued(&pos) {
                    if out.len() >= max_columns {
                        return out;
                    }
                    let ghost before = out@;
                    out.push((pos.x, pos.z));
                    proof {
                        assert(out@[before.len() as int] == (pos.x, pos.z));
                        assert forall|x: int, z: int|
                            center.x - view_distance <= x < center.x + view_distance && center.z
                                - view_distance <= z < center.z + view_distance && (z < center.z + dz
                                || (z == center.z + dz && x < center.x + dx + 1)) && #[trigger] column_open(
                                *self,
                                x,
                                z,
                            ) && out@.len() < max_columns implies out@.contains((x as i32, z as i32)) by {
                            if z < center.z + dz || x < center.x + dx {
                                let k = choose|k: int| 0 <= k < before.len() && before[k] == (x as i32, z as i32);
                                assert(out@[k] == before[k]);
                            }
                        }
                    }
                } else {
                    assert(!column_open(*self, (center.x + dx) as int, (center.z + dz) as int));
                }
                dx += 1;
            }
            dz += 1;
        }
        out
    }
}

} // verus!
