//! Chunk and block coordinates, the six face directions, and the
//! conversions between world, chunk and local positions.
use vstd::prelude::*;

use vstd::math::abs;

use crate::CHUNK_SIZE;

verus! {

/// One of the six face directions of a cube.
#[derive(Clone, Copy, Debug, PartialEq, Eq, Hash, Structural)]
pub enum Direction {
    Up,
    Down,
    Left,
    Right,
    Forward,
    Back,
}

/// A coordinate axis.
#[derive(Clone, Copy, Debug, PartialEq, Eq, Hash, Structural)]
pub enum Axis {
    X,
    Y,
    Z,
}

/// Unit step of a direction along x.
pub open spec fn dir_dx(d: Direction) -> int {
    match d {
        Direction::Left => -1,
        Direction::Right => 1,
        _ => 0,
    }
}

/// Unit step of a direction along y.
pub open spec fn dir_dy(d: Direction) -> int {
    match d {
        Direction::Up => 1,
        Direction::Down => -1,
        _ => 0,
    }
}

/// Unit step of a direction along z.
pub open spec fn dir_dz(d: Direction) -> int {
    match d {
        Direction::Forward => 1,
        Direction::Back => -1,
        _ => 0,
    }
}

/// The direction opposite to `d`.
pub open spec fn spec_reverse(d: Direction) -> Direction {
    match d {
        Direction::Up => Direction::Down,
        Direction::Down => Direction::Up,
        Direction::Left => Direction::Right,
        Direction::Right => Direction::Left,
        Direction::Forward => Direction::Back,
        Direction::Back => Direction::Forward,
    }
}

/// The axis a direction points along.
pub open spec fn spec_axis(d: Direction) -> Axis {
    match d {
        Direction::Up | Direction::Down => Axis::Y,
        Direction::Left | Direction::Right => Axis::X,
        Direction::Forward | Direction::Back => Axis::Z,
    }
}

/// The two in-plane axes of a face facing `d`: the first is the axis along
/// which greedy strips grow in length, the second the one along which they
/// grow in width.
pub open spec fn spec_perpendicular(d: Direction) -> (Axis, Axis) {
    match spec_axis(d) {
        Axis::X => (Axis::Z, Axis::Y),
        Axis::Y => (Axis::Z, Axis::X),
        Axis::Z => (Axis::X, Axis::Y),
    }
}

/// Position of a direction in the sweep order.
pub open spec fn spec_ordinal(d: Direction) -> int {
    match d {
        Direction::Up => 0,
        Direction::Down => 1,
        Direction::Left => 2,
        Direction::Right => 3,
        Direction::Forward => 4,
        Direction::Back => 5,
    }
}

/// The six directions in the fixed order used by every sweep of the library.
pub open spec fn direction_order() -> Seq<Direction> {
    seq![
        Direction::Up,
        Direction::Down,
        Direction::Left,
        Direction::Right,
        Direction::Forward,
        Direction::Back,
    ]
}

impl Direction {
    /// The six directions in sweep order.
    pub fn all() -> (r: [Direction; 6])
        ensures
            r@ == direction_order(),
    {
        let r = [
            Direction::Up,
            Direction::Down,
            Direction::Left,
            Direction::Right,
            Direction::Forward,
            Direction::Back,
        ];
        assert(r@ =~= direction_order());
        r
    }

    /// Position of this direction in the sweep order.
    pub fn ordinal(&self) -> (r: usize)
        ensures
            r < 6,
            r == spec_ordinal(*self),
            direction_order()[r as int] == *self,
    {
        match self {
            Direction::Up => 0,
            Direction::Down => 1,
            Direction::Left => 2,
            Direction::Right => 3,
            Direction::Forward => 4,
            Direction::Back => 5,
        }
    }

    /// The opposite direction.
    pub fn reverse(&self) -> (r: Direction)
        ensures
            r == spec_reverse(*self),
    {
        match self {
            Direction::Up => Direction::Down,
            Direction::Down => Direction::Up,
            Direction::Left => Direction::Right,
            Direction::Right => Direction::Left,
            Direction::Forward => Direction::Back,
            Direction::Back => Direction::Forward,
        }
    }

    /// The axis this direction points along.
    pub fn axis(&self) -> (r: Axis)
        ensures
            r == spec_axis(*self),
    {
        match self {
            Direction::Up | Direction::Down => Axis::Y,
            Direction::Left | Direction::Right => Axis::X,
            Direction::Forward | Direction::Back => Axis::Z,
        }
    }

    /// The (length, width) axes of a face facing this direction.
    pub fn perpendicular(&self) -> (r: (Axis, Axis))
        ensures
            r == spec_perpendicular(*self),
    {
        match self.axis() {
            Axis::X => (Axis::Z, Axis::Y),
            Axis::Y => (Axis::Z, Axis::X),
            Axis::Z => (Axis::X, Axis::Y),
        }
    }

    /// Unit step along x, y and z.
    pub fn offset(&self) -> (r: (i32, i32, i32))
        ensures
            r.0 == dir_dx(*self),
            r.1 == dir_dy(*self),
            r.2 == dir_dz(*self),
    {
        match self {
            Direction::Up => (0, 1, 0),
            Direction::Down => (0, -1, 0),
            Direction::Left => (-1, 0, 0),
            Direction::Right => (1, 0, 0),
            Direction::Forward => (0, 0, 1),
            Direction::Back => (0, 0, -1),
        }
    }
}

/// Floor division by the chunk size: the chunk index of a world coordinate.
pub open spec fn chunk_of(v: int) -> int {
    v / (CHUNK_SIZE as int)
}

/// The position of a world coordinate inside its chunk, in `[0, CHUNK_SIZE)`.
pub open spec fn local_of(v: int) -> int {
    v % (CHUNK_SIZE as int)
}

/// Chunk indices whose blocks all have coordinates that fit in an `i32`.
pub open spec fn chunk_index_fits(v: int) -> bool {
    -134217728 <= v < 134217728
}

/// Integers that can be stepped by one in either direction without overflow.
pub open spec fn steppable(v: int) -> bool {
    i32::MIN < v < i32::MAX
}

/// Position of a chunk in the chunk lattice.
#[derive(Clone, Copy, Debug, PartialEq, Eq, Hash, Structural)]
pub struct ChunkId {
    pub x: i32,
    pub y: i32,
    pub z: i32,
}

/// Position of a single block, either in world space or inside a chunk.
#[derive(Clone, Copy, Debug, PartialEq, Eq, Hash, Structural)]
pub struct BlockId {
    pub x: i32,
    pub y: i32,
    pub z: i32,
}

impl ChunkId {
    /// Every block of this chunk has world coordinates that fit in an `i32`.
    pub open spec fn fits(self) -> bool {
        chunk_index_fits(self.x as int) && chunk_index_fits(self.y as int) && chunk_index_fits(
            self.z as int,
        )
    }

    /// The chunk may be stepped to any of its neighbours without overflow.
    pub open spec fn steppable(self) -> bool {
        steppable(self.x as int) && steppable(self.y as int) && steppable(self.z as int)
    }

    /// The neighbour of this chunk in direction `d`.
    pub open spec fn spec_get(self, d: Direction) -> ChunkId {
        ChunkId {
            x: (self.x + dir_dx(d)) as i32,
            y: (self.y + dir_dy(d)) as i32,
            z: (self.z + dir_dz(d)) as i32,
        }
    }

    /// The six face neighbours, in sweep order.
    pub open spec fn spec_neighbors(self) -> Seq<ChunkId> {
        direction_order().map_values(|d: Direction| self.spec_get(d))
    }

    /// World coordinates of the block at local position `local` of this chunk.
    pub open spec fn spec_globalize(self, local: BlockId) -> BlockId {
        BlockId {
            x: (self.x * CHUNK_SIZE + local.x) as i32,
            y: (self.y * CHUNK_SIZE + local.y) as i32,
            z: (self.z * CHUNK_SIZE + local.z) as i32,
        }
    }

    pub open spec fn spec_sqr_distance(self, other: ChunkId) -> int {
        (self.x - other.x) * (self.x - other.x) + (self.y - other.y) * (self.y - other.y) + (
        self.z - other.z) * (self.z - other.z)
    }

    pub open spec fn spec_flat_distance(self, other: ChunkId) -> int {
        (abs(self.x - other.x) + abs(self.z - other.z)) as int
    }

    pub fn new(x: i32, y: i32, z: i32) -> (r: ChunkId)
        ensures
            r == (ChunkId { x, y, z }),
    {
        ChunkId { x, y, z }
    }

    pub fn x(&self) -> (r: i32)
        ensures
            r == self.x,
    {
        self.x
    }

    pub fn y(&self) -> (r: i32)
        ensures
            r == self.y,
    {
        self.y
    }

    pub fn z(&self) -> (r: i32)
        ensures
            r == self.z,
    {
        self.z
    }

    /// The neighbouring chunk in direction `direction`.
    pub fn get(&self, direction: Direction) -> (r: ChunkId)
        requires
            self.steppable(),
        ensures
            r == self.spec_get(direction),
            r.x == self.x + dir_dx(direction),
            r.y == self.y + dir_dy(direction),
            r.z == self.z + dir_dz(direction),
    {
        match direction {
            Direction::Up => ChunkId::new(self.x, self.y + 1, self.z),
            Direction::Down => ChunkId::new(self.x, self.y - 1, self.z),
            Direction::Left => ChunkId::new(self.x - 1, self.y, self.z),
            Direction::Right => ChunkId::new(self.x + 1, self.y, self.z),
            Direction::Forward => ChunkId::new(self.x, self.y, self.z + 1),
            Direction::Back => ChunkId::new(self.x, self.y, self.z - 1),
        }
    }

    /// The six face neighbours, in sweep order.
    pub fn neighbors(&self) -> (r: [ChunkId; 6])
        requires
            self.steppable(),
        ensures
            r@ == self.spec_neighbors(),
    {
        let r = [
            self.get(Direction::Up),
            self.get(Direction::Down),
            self.get(Direction::Left),
            self.get(Direction::Right),
            self.get(Direction::Forward),
            self.get(Direction::Back),
        ];
        assert(r@ =~= self.spec_neighbors());
        r
    }

    /// Squared euclidean distance between two chunks, in chunks.
    pub fn sqr_distance(&self, other: ChunkId) -> (r: i32)
        requires
            self.spec_sqr_distance(other) <= i32::MAX,
            i32::MIN <= self.x - other.x <= i32::MAX,
            i32::MIN <= self.y - other.y <= i32::MAX,
            i32::MIN <= self.z - other.z <= i32::MAX,
        ensures
            r == self.spec_sqr_distance(other),
    {
        let dx = self.x as i64 - other.x as i64;
        let dy = self.y as i64 - other.y as i64;
        let dz = self.z as i64 - other.z as i64;
        assert(0 <= dx * dx && 0 <= dy * dy && 0 <= dz * dz) by (nonlinear_arith);
        assert(dx * dx <= i32::MAX && dy * dy <= i32::MAX && dz * dz <= i32::MAX) by {
            assert(self.spec_sqr_distance(other) == dx * dx + dy * dy + dz * dz);
        }
        (dx * dx + dy * dy + dz * dz) as i32
    }

    /// Manhattan distance between two chunks ignoring the vertical axis.
    pub fn flat_distance(&self, other: ChunkId) -> (r: i32)
        requires
            self.spec_flat_distance(other) <= i32::MAX,
        ensures
            r == self.spec_flat_distance(other),
    {
        let dx = self.x as i64 - other.x as i64;
        let dz = self.z as i64 - other.z as i64;
        let ax = if dx < 0 { -dx } else { dx };
        let az = if dz < 0 { -dz } else { dz };
        (ax + az) as i32
    }

    /// World coordinates of the block at local position `local` of this chunk.
    pub fn globalize(&self, local: BlockId) -> (r: BlockId)
        requires
            self.fits(),
            0 <= local.x < CHUNK_SIZE,
            0 <= local.y < CHUNK_SIZE,
            0 <= local.z < CHUNK_SIZE,
        ensures
            r == self.spec_globalize(local),
    {
        BlockId {
            x: self.x * CHUNK_SIZE + local.x,
            y: self.y * CHUNK_SIZE + local.y,
            z: self.z * CHUNK_SIZE + local.z,
        }
    }
}

/// Floor division of a world coordinate by the chunk size.
fn floor_chunk(v: i32) -> (r: i32)
    ensures
        r == chunk_of(v as int),
        chunk_index_fits(r as int),
{
    if v >= 0 {
        v / CHUNK_SIZE
    } else {
        let m: i32 = -(v + 1);
        let q: i32 = m / CHUNK_SIZE;
        assert(q == (-(v + 1)) / 16);
        assert(-q - 1 == v / 16) by {
            let k = (-(v + 1)) % 16;
            assert(-(v + 1) == 16 * q + k);
            assert(v == 16 * (-q - 1) + (15 - k));
            assert(0 <= 15 - k < 16);
            vstd::arithmetic::div_mod::lemma_fundamental_div_mod_converse(
                v as int,
                16,
                -q - 1,
                15 - k,
            );
        }
        -q - 1
    }
}

impl BlockId {
    pub open spec fn spec_get(self, d: Direction) -> BlockId {
        BlockId {
            x: (self.x + dir_dx(d)) as i32,
            y: (self.y + dir_dy(d)) as i32,
            z: (self.z + dir_dz(d)) as i32,
        }
    }

    /// The chunk this world position belongs to.
    pub open spec fn spec_chunk(self) -> ChunkId {
        ChunkId {
            x: chunk_of(self.x as int) as i32,
            y: chunk_of(self.y as int) as i32,
            z: chunk_of(self.z as int) as i32,
        }
    }

    /// The position of this world position inside its chunk.
    pub open spec fn spec_local(self) -> BlockId {
        BlockId {
            x: local_of(self.x as int) as i32,
            y: local_of(self.y as int) as i32,
            z: local_of(self.z as int) as i32,
        }
    }

    /// A position inside a chunk: every coordinate in `[0, CHUNK_SIZE)`.
    pub open spec fn is_local(self) -> bool {
        0 <= self.x < CHUNK_SIZE && 0 <= self.y < CHUNK_SIZE && 0 <= self.z < CHUNK_SIZE
    }

    pub open spec fn steppable(self) -> bool {
        steppable(self.x as int) && steppable(self.y as int) && steppable(self.z as int)
    }

    pub fn new(x: i32, y: i32, z: i32) -> (r: BlockId)
        ensures
            r == (BlockId { x, y, z }),
    {
        BlockId { x, y, z }
    }

    pub fn x(&self) -> (r: i32)
        ensures
            r == self.x,
    {
        self.x
    }

    pub fn y(&self) -> (r: i32)
        ensures
            r == self.y,
    {
        self.y
    }

    pub fn z(&self) -> (r: i32)
        ensures
            r == self.z,
    {
        self.z
    }

    /// The neighbouring block in direction `direction`.
    pub fn get(&self, direction: Direction) -> (r: BlockId)
        requires
            self.steppable(),
        ensures
            r == self.spec_get(direction),
    {
        match direction {
            Direction::Up => BlockId::new(self.x, self.y + 1, self.z),
            Direction::Down => BlockId::new(self.x, self.y - 1, self.z),
            Direction::Left => BlockId::new(self.x - 1, self.y, self.z),
            Direction::Right => BlockId::new(self.x + 1, self.y, self.z),
            Direction::Forward => BlockId::new(self.x, self.y, self.z + 1),
            Direction::Back => BlockId::new(self.x, self.y, self.z - 1),
        }
    }

    /// The chunk that holds this world position (floor division, also for
    /// negative coordinates).
    pub fn chunk(&self) -> (r: ChunkId)
        ensures
            r == self.spec_chunk(),
            r.fits(),
    {
        ChunkId { x: floor_chunk(self.x), y: floor_chunk(self.y), z: floor_chunk(self.z) }
    }

    /// This world position relative to its own chunk.
    pub fn as_local(&self) -> (r: BlockId)
        ensures
            r == self.spec_local(),
            r.is_local(),
    {
        let c = self.chunk();
        self.localize(c)
    }

    /// This world position relative to chunk `chunk`.
    pub fn localize(&self, chunk: ChunkId) -> (r: BlockId)
        requires
            i32::MIN <= self.x - chunk.x * CHUNK_SIZE <= i32::MAX,
            i32::MIN <= self.y - chunk.y * CHUNK_SIZE <= i32::MAX,
            i32::MIN <= self.z - chunk.z * CHUNK_SIZE <= i32::MAX,
        ensures
            r.x == self.x - chunk.x * CHUNK_SIZE,
            r.y == self.y - chunk.y * CHUNK_SIZE,
            r.z == self.z - chunk.z * CHUNK_SIZE,
            chunk == self.spec_chunk() ==> r == self.spec_local(),
    {
        let x = (self.x as i64 - chunk.x as i64 * 16) as i32;
        let y = (self.y as i64 - chunk.y as i64 * 16) as i32;
        let z = (self.z as i64 - chunk.z as i64 * 16) as i32;
        BlockId { x, y, z }
    }
}

impl vstd::std_specs::convert::FromSpecImpl<BlockId> for ChunkId {
    open spec fn obeys_from_spec() -> bool {
        true
    }

    open spec fn from_spec(v: BlockId) -> ChunkId {
        v.spec_chunk()
    }
}

impl From<BlockId> for ChunkId {
    /// The chunk that holds a world position.
    fn from(value: BlockId) -> (r: ChunkId) {
        value.chunk()
    }
}

/// Converting a world position to its chunk and its position inside that
/// chunk, then rebuilding the world position as `chunk * CHUNK_SIZE + local`,
/// gives back the position, for negative coordinates too; the local position
/// lies inside the chunk.
pub proof fn lemma_block_round_trip(b: BlockId)
    ensures
        b.spec_chunk().fits(),
        b.spec_local().is_local(),
        b.spec_chunk().spec_globalize(b.spec_local()) == b,
{
    vstd::arithmetic::div_mod::lemma_fundamental_div_mod(b.x as int, 16);
    vstd::arithmetic::div_mod::lemma_fundamental_div_mod(b.y as int, 16);
    vstd::arithmetic::div_mod::lemma_fundamental_div_mod(b.z as int, 16);
}

/// Stepping to a neighbouring chunk and back in the opposite direction
/// returns to the starting chunk.
pub proof fn lemma_neighbor_symmetry(c: ChunkId, d: Direction)
    requires
        c.steppable(),
    ensures
        c.spec_get(d).spec_get(spec_reverse(d)) == c,
{
}

} // verus!
