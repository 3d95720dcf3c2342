//! Collision shapes: a single cuboid for a fully solid chunk, nothing for a
//! chunk without solid blocks, and otherwise a triangle mesh whose quads are
//! greedy merges of the exposed unit faces.
use vstd::prelude::*;

use crate::chunk::{
    block_index, index_x, index_y, index_z, lemma_coords_index, lemma_index_coords, local_position,
    Chunk,
};
use crate::coords::{
    dir_dx, dir_dy, dir_dz, direction_order, spec_axis, spec_ordinal, spec_perpendicular, Axis,
    BlockId, Direction,
};
use crate::voxel::spec_solid;
use crate::{CHUNK_SIZE, UNITS_PER_BLOCK};

verus! {

/// Coordinate of flat index `i` along axis `a`.
pub open spec fn cell_axis(i: int, a: Axis) -> int {
    match a {
        Axis::X => index_x(i),
        Axis::Y => index_y(i),
        Axis::Z => index_z(i),
    }
}

/// Coordinate of a block position along axis `a`.
pub open spec fn block_axis(b: BlockId, a: Axis) -> int {
    match a {
        Axis::X => b.x as int,
        Axis::Y => b.y as int,
        Axis::Z => b.z as int,
    }
}

/// `b` moved by `n` along axis `a`.
pub open spec fn spec_shift(b: BlockId, a: Axis, n: int) -> BlockId {
    match a {
        Axis::X => BlockId { x: (b.x + n) as i32, y: b.y, z: b.z },
        Axis::Y => BlockId { x: b.x, y: (b.y + n) as i32, z: b.z },
        Axis::Z => BlockId { x: b.x, y: b.y, z: (b.z + n) as i32 },
    }
}

/// Flat index of a local block position.
pub open spec fn cell_of(b: BlockId) -> int {
    block_index(b.x as int, b.y as int, b.z as int)
}

/// The face of flat cell `i` that looks in direction `d` is exposed: the cell
/// is solid and the cell beyond the face is not (outside the chunk counts as
/// not solid).
pub open spec fn face_exposed(c: Chunk, d: Direction, i: int) -> bool {
    let x = index_x(i);
    let y = index_y(i);
    let z = index_z(i);
    spec_solid(c.voxel(x, y, z)) && !spec_solid(c.voxel(x + dir_dx(d), y + dir_dy(d), z + dir_dz(d)))
}

/// Position of face `(d, i)` in the per-call scratch mask.
pub open spec fn mask_index(d: Direction, i: int) -> int {
    spec_ordinal(d) * 4096 + i
}

/// A rectangle of unit faces, all looking in `direction`, starting at block
/// `origin` and spanning `length` blocks along the first perpendicular axis of
/// the direction and `width` blocks along the second.
#[derive(Clone, Copy, Debug, PartialEq, Eq, Structural)]
pub struct Quad {
    pub direction: Direction,
    pub origin: BlockId,
    pub length: i32,
    pub width: i32,
}

impl Quad {
    /// Lies within the chunk and is not empty.
    pub open spec fn valid(self) -> bool {
        let (l, w) = spec_perpendicular(self.direction);
        &&& self.origin.is_local()
        &&& 1 <= self.length
        &&& block_axis(self.origin, l) + self.length <= 16
        &&& 1 <= self.width
        &&& block_axis(self.origin, w) + self.width <= 16
    }

    /// The face of cell `i` looking in direction `d` is part of this quad.
    pub open spec fn covers(self, d: Direction, i: int) -> bool {
        let (l, w) = spec_perpendicular(self.direction);
        let n = spec_axis(self.direction);
        &&& d == self.direction
        &&& cell_axis(i, n) == block_axis(self.origin, n)
        &&& block_axis(self.origin, l) <= cell_axis(i, l) < block_axis(self.origin, l)
            + self.length
        &&& block_axis(self.origin, w) <= cell_axis(i, w) < block_axis(self.origin, w)
            + self.width
    }
}

/// Some quad of `quads` holds face `(d, i)`.
pub open spec fn covered_by(quads: Seq<Quad>, d: Direction, i: int) -> bool {
    exists|j: int| 0 <= j < quads.len() && #[trigger] quads[j].covers(d, i)
}

/// No face belongs to two quads.
pub open spec fn pairwise_disjoint(quads: Seq<Quad>) -> bool {
    forall|j: int, k: int, d: Direction, i: int|
        0 <= j < k < quads.len() && 0 <= i < 4096 && #[trigger] quads[j].covers(d, i) ==> !#[trigger] quads[k].covers(
            d,
            i,
        )
}

/// The quads tile exactly the exposed faces of `c`: each is valid, none
/// overlaps another, and a face is exposed if and only if a quad holds it.
pub open spec fn tiles_exposed_faces(c: Chunk, quads: Seq<Quad>) -> bool {
    &&& forall|j: int| 0 <= j < quads.len() ==> #[trigger] quads[j].valid()
    &&& pairwise_disjoint(quads)
    &&& forall|d: Direction, i: int|
        0 <= i < 4096 ==> (#[trigger] face_exposed(c, d, i) <==> covered_by(quads, d, i))
}

/// `b` moved by `n` along axis `a`.
fn shift(b: BlockId, a: Axis, n: i32) -> (r: BlockId)
    requires
        b.is_local(),
        0 <= block_axis(b, a) + n < 16,
    ensures
        r == spec_shift(b, a, n as int),
        r.is_local(),
        block_axis(r, a) == block_axis(b, a) + n,
        forall|o: Axis| o != a ==> #[trigger] block_axis(r, o) == block_axis(b, o),
{
    match a {
        Axis::X => BlockId { x: b.x + n, y: b.y, z: b.z },
        Axis::Y => BlockId { x: b.x, y: b.y + n, z: b.z },
        Axis::Z => BlockId { x: b.x, y: b.y, z: b.z + n },
    }
}

/// Coordinate of `b` along `a`.
fn axis_value(b: BlockId, a: Axis) -> (r: i32)
    ensures
        r == block_axis(b, a),
{
    match a {
        Axis::X => b.x,
        Axis::Y => b.y,
        Axis::Z => b.z,
    }
}

/// Flat index of a local position, with its coordinates along each axis.
fn cell(b: BlockId) -> (r: usize)
    requires
        b.is_local(),
    ensures
        r == cell_of(b),
        r < 4096,
        forall|a: Axis| #[trigger] cell_axis(r as int, a) == block_axis(b, a),
{
    proof {
        lemma_coords_index(b.x as int, b.y as int, b.z as int);
    }
    Chunk::index(b.x, b.y, b.z)
}

/// Two cells that agree on every axis are the same cell.
proof fn lemma_cell_determined(i: int, j: int)
    requires
        0 <= i < 4096,
        0 <= j < 4096,
        cell_axis(i, Axis::X) == cell_axis(j, Axis::X),
        cell_axis(i, Axis::Y) == cell_axis(j, Axis::Y),
        cell_axis(i, Axis::Z) == cell_axis(j, Axis::Z),
    ensures
        i == j,
{
    lemma_index_coords(i);
    lemma_index_coords(j);
}

/// The scratch mask of exposed faces.
fn exposure_mask(c: &Chunk) -> (mask: Vec<bool>)
    requires
        c.wf(),
    ensures
        mask@.len() == 24576,
        forall|d: Direction, i: int|
            0 <= i < 4096 ==> #[trigger] mask@[mask_index(d, i)] == face_exposed(*c, d, i),
{
    let dirs = Direction::all();
    let mut mask: Vec<bool> = Vec::new();
    let mut k: usize = 0;
    while k < 6
        invariant
            k <= 6,
            c.wf(),
            dirs@ == direction_order(),
            mask@.len() == k * 4096,
            forall|d: Direction, i: int|
                0 <= i < 4096 && mask_index(d, i) < k * 4096 ==> #[trigger] mask@[mask_index(d, i)]
                    == face_exposed(*c, d, i),
        decreases 6 - k,
    {
        let d = dirs[k];
        let (dx, dy, dz) = d.offset();
        let mut i: usize = 0;
        while i < 4096
            invariant
                k < 6,
                i <= 4096,
                c.wf(),
                d == direction_order()[k as int],
                spec_ordinal(d) == k,
                dx == dir_dx(d),
                dy == dir_dy(d),
                dz == dir_dz(d),
                mask@.len() == k * 4096 + i,
                forall|d2: Direction, i2: int|
                    0 <= i2 < 4096 && mask_index(d2, i2) < k * 4096 + i ==> #[trigger] mask@[mask_index(
                        d2,
                        i2,
                    )] == face_exposed(*c, d2, i2),
            decreases 4096 - i,
        {
            let p = local_position(i);
            let here = c.block_at(p.x, p.y, p.z);
            let beyond = c.get_block(BlockId { x: p.x + dx, y: p.y + dy, z: p.z + dz });
            let exposed = here.is_solid() && !beyond.is_solid();
            assert(exposed == face_exposed(*c, d, i as int));
            mask.push(exposed);
            i += 1;
        }
        k += 1;
    }
    mask
}

/// The cell at offset `a` along `l` and `b` along `w` from `origin`.
pub open spec fn rect_cell(origin: BlockId, l: Axis, a: int, w: Axis, b: int) -> int {
    cell_of(spec_shift(spec_shift(origin, l, a), w, b))
}

/// A face held by a valid quad is the face of the rectangle cell at its
/// offsets from the quad's origin.
proof fn lemma_covered_cell(q: Quad, d: Direction, i: int)
    requires
        q.valid(),
        0 <= i < 4096,
        q.covers(d, i),
    ensures
        ({
            let (l, w) = spec_perpendicular(q.direction);
            i == rect_cell(
                q.origin,
                l,
                cell_axis(i, l) - block_axis(q.origin, l),
                w,
                cell_axis(i, w) - block_axis(q.origin, w),
            )
        }),
{
    lemma_index_coords(i);
    let (l, w) = spec_perpendicular(q.direction);
    let s = spec_shift(
        spec_shift(q.origin, l, cell_axis(i, l) - block_axis(q.origin, l)),
        w,
        cell_axis(i, w) - block_axis(q.origin, w),
    );
    assert(s.x == index_x(i) && s.y == index_y(i) && s.z == index_z(i));
}

/// Grows a quad from `origin`: first along the length axis while faces are
/// still set, then row by row along the width axis while a whole row of the
/// same length is set.
fn grow_quad(mask: &Vec<bool>, d: Direction, origin: BlockId) -> (q: Quad)
    requires
        mask@.len() == 24576,
        origin.is_local(),
        mask@[mask_index(d, cell_of(origin))],
    ensures
        q.direction == d,
        q.origin == origin,
        q.valid(),
        forall|i: int| 0 <= i < 4096 && #[trigger] q.covers(d, i) ==> mask@[mask_index(d, i)],
{
    let (l, w) = d.perpendicular();
    let base = d.ordinal() * 4096;
    let ol = axis_value(origin, l);
    let ow = axis_value(origin, w);
    assert(0 <= ol && 0 <= ow);
    assert(l != w);
    assert(spec_shift(origin, l, 0) == origin);
    assert(spec_shift(spec_shift(origin, l, 0), w, 0) == origin);
    let mut length: i32 = 1;
    while ol + length < CHUNK_SIZE && mask[base + cell(shift(origin, l, length))]
        invariant
            mask@.len() == 24576,
            origin.is_local(),
            base == spec_ordinal(d) * 4096,
            (l, w) == spec_perpendicular(d),
            l != w,
            ol == block_axis(origin, l),
            ow == block_axis(origin, w),
            1 <= length,
            ol + length <= 16,
            forall|a: int|
                0 <= a < length ==> #[trigger] mask@[mask_index(d, rect_cell(origin, l, a, w, 0))],
        decreases 16 - length,
    {
        proof {
            let s = spec_shift(origin, l, length as int);
            assert(spec_shift(s, w, 0) == s);
        }
        length += 1;
    }
    let mut width: i32 = 1;
    while ow + width < CHUNK_SIZE
        invariant
            mask@.len() == 24576,
            origin.is_local(),
            base == spec_ordinal(d) * 4096,
            (l, w) == spec_perpendicular(d),
            l != w,
            ol == block_axis(origin, l),
            ow == block_axis(origin, w),
            1 <= length,
            ol + length <= 16,
            1 <= width,
            ow + width <= 16,
            forall|a: int, b: int|
                0 <= a < length && 0 <= b < width ==> #[trigger] mask@[mask_index(
                    d,
                    rect_cell(origin, l, a, w, b),
                )],
        decreases 16 - width,
    {
        let mut a: i32 = 0;
        while a < length
            invariant
                mask@.len() == 24576,
                origin.is_local(),
                base == spec_ordinal(d) * 4096,
                (l, w) == spec_perpendicular(d),
                l != w,
            l != w,
                ol == block_axis(origin, l),
                ow == block_axis(origin, w),
                0 <= ol,
                0 <= ow,
                ol + length <= 16,
                1 <= width,
                ow + width < 16,
                0 <= a <= length,
                forall|a2: int|
                    0 <= a2 < a ==> #[trigger] mask@[mask_index(
                        d,
                        rect_cell(origin, l, a2, w, width as int),
                    )],
            decreases length - a,
        {
            let s = shift(origin, l, a);
            assert(block_axis(s, w) == ow);
            if !mask[base + cell(shift(s, w, width))] {
                break;
            }
            a += 1;
        }
        if a < length {
            break;
        }
        width += 1;
    }
    let q = Quad { direction: d, origin, length, width };
    assert forall|i: int| 0 <= i < 4096 && #[trigger] q.covers(d, i) implies mask@[mask_index(d, i)] by {
        lemma_covered_cell(q, d, i);
        assert(mask@[mask_index(
            d,
            rect_cell(
                origin,
                l,
                cell_axis(i, l) - block_axis(origin, l),
                w,
                cell_axis(i, w) - block_axis(origin, w),
            ),
        )]);
    }
    q
}

/// Clears from the mask every face that quad `q` holds, and nothing else.
fn clear_quad(mask: &mut Vec<bool>, q: Quad)
    requires
        old(mask)@.len() == 24576,
        q.valid(),
    ensures
        final(mask)@.len() == 24576,
        forall|d: Direction, i: int|
            0 <= i < 4096 ==> #[trigger] final(mask)@[mask_index(d, i)] == (old(mask)@[mask_index(
                d,
                i,
            )] && !q.covers(d, i)),
{
    let ghost start = mask@;
    let (l, w) = q.direction.perpendicular();
    let base = q.direction.ordinal() * 4096;
    let ol = axis_value(q.origin, l);
    let ow = axis_value(q.origin, w);
    assert(l != w);
    let mut b: i32 = 0;
    while b < q.width
        invariant
            mask@.len() == 24576,
            q.valid(),
            base == spec_ordinal(q.direction) * 4096,
            (l, w) == spec_perpendicular(q.direction),
            l != w,
            ol == block_axis(q.origin, l),
            ow == block_axis(q.origin, w),
            0 <= b <= q.width,
            forall|d: Direction, i: int|
                0 <= i < 4096 ==> #[trigger] mask@[mask_index(d, i)] == (start[mask_index(d, i)]
                    && !(q.covers(d, i) && cell_axis(i, w) < ow + b)),
        decreases q.width - b,
    {
        let mut a: i32 = 0;
        while a < q.length
            invariant
                mask@.len() == 24576,
                q.valid(),
                base == spec_ordinal(q.direction) * 4096,
                (l, w) == spec_perpendicular(q.direction),
                l != w,
                ol == block_axis(q.origin, l),
                ow == block_axis(q.origin, w),
                0 <= b < q.width,
                0 <= a <= q.length,
                forall|d: Direction, i: int|
                    0 <= i < 4096 ==> #[trigger] mask@[mask_index(d, i)] == (start[mask_index(d, i)]
                        && !(q.covers(d, i) && (cell_axis(i, w) < ow + b || (cell_axis(i, w) == ow
                        + b && cell_axis(i, l) < ol + a)))),
            decreases q.length - a,
        {
            let s = shift(q.origin, l, a);
            let t = shift(s, w, b);
            let c = cell(t);
            let ghost before = mask@;
            mask.set(base + c, false);
            proof {
                let n = spec_axis(q.direction);
                assert(n != l && n != w);
                assert(block_axis(t, n) == block_axis(q.origin, n));
                assert(q.covers(q.direction, c as int));
                assert forall|d: Direction, i: int| 0 <= i < 4096 implies #[trigger] mask@[mask_index(d, i)] == (
                start[mask_index(d, i)] && !(q.covers(d, i) && (cell_axis(i, w) < ow + b || (
                cell_axis(i, w) == ow + b && cell_axis(i, l) < ol + a + 1)))) by {
                    if d == q.direction && cell_axis(i, w) == ow + b && cell_axis(i, l) == ol + a
                        && cell_axis(i, n) == block_axis(q.origin, n) {
                        assert(cell_axis(i, Axis::X) == cell_axis(c as int, Axis::X));
                        assert(cell_axis(i, Axis::Y) == cell_axis(c as int, Axis::Y));
                        assert(cell_axis(i, Axis::Z) == cell_axis(c as int, Axis::Z));
                        lemma_cell_determined(i, c as int);
                    } else if mask_index(d, i) == base + c {
                        assert(d == q.direction && i == c);
                    }
                }
            }
            a += 1;
        }
        b += 1;
    }
}

/// Greedy merge of the exposed faces of `c` into quads, sweeping the
/// directions in order and the cells of each direction by flat index.
pub fn merge_exposed_faces(c: &Chunk) -> (quads: Vec<Quad>)
    requires
        c.wf(),
    ensures
        tiles_exposed_faces(*c, quads@),
        quads@.len() <= 24576,
{
    let mut mask = exposure_mask(c);
    let dirs = Direction::all();
    let mut quads: Vec<Quad> = Vec::new();
    let mut k: usize = 0;
    while k < 6
        invariant
            k <= 6,
            dirs@ == direction_order(),
            mask@.len() == 24576,
            forall|d: Direction, i: int|
                0 <= i < 4096 ==> (#[trigger] mask@[mask_index(d, i)] ==> face_exposed(*c, d, i)),
            forall|d: Direction, i: int|
                0 <= i < 4096 ==> (#[trigger] face_exposed(*c, d, i) ==> mask@[mask_index(d, i)]
                    || covered_by(quads@, d, i)),
            forall|j: int, d: Direction, i: int|
                0 <= j < quads@.len() && 0 <= i < 4096 && #[trigger] quads@[j].covers(d, i) ==> (
                !mask@[mask_index(d, i)] && face_exposed(*c, d, i)),
            forall|d: Direction, i: int|
                0 <= i < 4096 && mask_index(d, i) < k * 4096 ==> !#[trigger] mask@[mask_index(d, i)],
            forall|j: int| 0 <= j < quads@.len() ==> #[trigger] quads@[j].valid(),
            pairwise_disjoint(quads@),
            quads@.len() <= k * 4096,
        decreases 6 - k,
    {
        let d = dirs[k];
        let base = d.ordinal() * 4096;
        let mut i: usize = 0;
        while i < 4096
            invariant
                k < 6,
                i <= 4096,
                d == direction_order()[k as int],
                spec_ordinal(d) == k,
                base == k * 4096,
                mask@.len() == 24576,
                forall|d2: Direction, i2: int|
                    0 <= i2 < 4096 ==> (#[trigger] mask@[mask_index(d2, i2)] ==> face_exposed(
                        *c,
                        d2,
                        i2,
                    )),
                forall|d2: Direction, i2: int|
                    0 <= i2 < 4096 ==> (#[trigger] face_exposed(*c, d2, i2) ==> mask@[mask_index(
                        d2,
                        i2,
                    )] || covered_by(quads@, d2, i2)),
                forall|j: int, d2: Direction, i2: int|
                    0 <= j < quads@.len() && 0 <= i2 < 4096 && #[trigger] quads@[j].covers(d2, i2)
                        ==> (!mask@[mask_index(d2, i2)] && face_exposed(*c, d2, i2)),
                forall|d2: Direction, i2: int|
                    0 <= i2 < 4096 && mask_index(d2, i2) < k * 4096 + i ==> !#[trigger] mask@[mask_index(
                        d2,
                        i2,
                    )],
                forall|j: int| 0 <= j < quads@.len() ==> #[trigger] quads@[j].valid(),
                pairwise_disjoint(quads@),
                quads@.len() <= k * 4096 + i,
            decreases 4096 - i,
        {
            if mask[base + i] {
                let origin = local_position(i);
                let q = grow_quad(&mask, d, origin);
                let ghost before = mask@;
                let ghost old_quads = quads@;
                clear_quad(&mut mask, q);
                quads.push(q);
                proof {
                    lemma_index_coords(i as int);
                    assert(q.covers(d, i as int));
                    let n = quads@.len() - 1;
                    assert(quads@[n] == q);
                    assert forall|d2: Direction, i2: int|
                        0 <= i2 < 4096 && #[trigger] face_exposed(*c, d2, i2) implies mask@[mask_index(
                        d2,
                        i2,
                    )] || covered_by(quads@, d2, i2) by {
                        if covered_by(old_quads, d2, i2) {
                            let j = choose|j: int| 0 <= j < old_quads.len() && #[trigger] old_quads[j].covers(d2, i2);
                            assert(quads@[j] == old_quads[j]);
                        } else if q.covers(d2, i2) {
                            assert(quads@[n].covers(d2, i2));
                        }
                    }
                    assert forall|j: int, d2: Direction, i2: int|
                        0 <= j < quads@.len() && 0 <= i2 < 4096 && #[trigger] quads@[j].covers(d2, i2)
                        implies (!mask@[mask_index(d2, i2)] && face_exposed(*c, d2, i2)) by {
                        if j < n {
                            assert(old_quads[j] == quads@[j]);
                        }
                    }
                    assert forall|j: int, m: int, d2: Direction, i2: int|
                        0 <= j < m < quads@.len() && 0 <= i2 < 4096 && #[trigger] quads@[j].covers(d2, i2) implies !#[trigger] quads@[m].covers(d2, i2) by {
                        assert(quads@[j] == old_quads[j]);
                        if m < n {
                            assert(quads@[m] == old_quads[m]);
                        } else {
                            assert(m == n);
                            if q.covers(d2, i2) {
                                assert(before[mask_index(d2, i2)]);
                            }
                        }
                    }
                }
            }
            i += 1;
        }
        k += 1;
    }
    proof {
        assert forall|d: Direction, i: int|
            0 <= i < 4096 implies (#[trigger] face_exposed(*c, d, i) <==> covered_by(quads@, d, i)) by {
            assert(mask_index(d, i) < 6 * 4096);
            if covered_by(quads@, d, i) {
                let j = choose|j: int| 0 <= j < quads@.len() && #[trigger] quads@[j].covers(d, i);
            }
        }
    }
    quads
}

/// +1 for the directions that point along an axis, -1 for the others.
pub open spec fn dir_sign(d: Direction) -> int {
    dir_dx(d) + dir_dy(d) + dir_dz(d)
}

/// The value along axis `a` of the point that has `nv` on `n`, `lv` on `l`
/// and `wv` on the remaining axis.
pub open spec fn pick_axis(a: Axis, n: Axis, nv: int, l: Axis, lv: int, wv: int) -> int {
    if a == n {
        nv
    } else if a == l {
        lv
    } else {
        wv
    }
}

/// Corner `c` (0 to 3, counter-clockwise from the origin corner) of quad `q`,
/// in eighths of a block relative to the centre of block (0, 0, 0).
pub open spec fn quad_corner(q: Quad, c: int) -> (i32, i32, i32) {
    let (l, w) = spec_perpendicular(q.direction);
    let n = spec_axis(q.direction);
    let nv = 8 * block_axis(q.origin, n) + 4 * dir_sign(q.direction);
    let l0 = 8 * block_axis(q.origin, l) - 4;
    let w0 = 8 * block_axis(q.origin, w) - 4;
    let lv = if c == 1 || c == 2 {
        l0 + 8 * q.length
    } else {
        l0
    };
    let wv = if c == 2 || c == 3 {
        w0 + 8 * q.width
    } else {
        w0
    };
    (
        pick_axis(Axis::X, n, nv, l, lv, wv) as i32,
        pick_axis(Axis::Y, n, nv, l, lv, wv) as i32,
        pick_axis(Axis::Z, n, nv, l, lv, wv) as i32,
    )
}

/// Vertex buffer of a list of quads: four corners per quad, in quad order.
pub open spec fn quad_vertices_match(quads: Seq<Quad>, vertices: Seq<(i32, i32, i32)>) -> bool {
    &&& vertices.len() == 4 * quads.len()
    &&& forall|j: int, c: int|
        0 <= j < quads.len() && 0 <= c < 4 ==> #[trigger] vertices[4 * j + c] == quad_corner(
            #[trigger] quads[j],
            c,
        )
}

/// Triangle list of a list of quads: two triangles per quad, offset by the
/// quad's first vertex.
pub open spec fn quad_triangles_match(quads: Seq<Quad>, triangles: Seq<(u32, u32, u32)>) -> bool {
    &&& triangles.len() == 2 * quads.len()
    &&& forall|j: int|
        0 <= j < quads.len() ==> #[trigger] triangles[2 * j] == ((4 * j + 2) as u32, (4 * j
            + 3) as u32, (4 * j) as u32) && triangles[2 * j + 1] == ((4 * j) as u32, (4 * j
            + 1) as u32, (4 * j + 2) as u32)
}

fn pick(a: Axis, n: Axis, nv: i32, l: Axis, lv: i32, wv: i32) -> (r: i32)
    ensures
        r == pick_axis(a, n, nv as int, l, lv as int, wv as int),
{
    if a == n {
        nv
    } else if a == l {
        lv
    } else {
        wv
    }
}

fn corner(q: Quad, c: u8) -> (r: (i32, i32, i32))
    requires
        q.valid(),
        c < 4,
    ensures
        r == quad_corner(q, c as int),
{
    let (l, w) = q.direction.perpendicular();
    let n = q.direction.axis();
    let (dx, dy, dz) = q.direction.offset();
    let nv = 8 * axis_value(q.origin, n) + 4 * (dx + dy + dz);
    let l0 = 8 * axis_value(q.origin, l) - 4;
    let w0 = 8 * axis_value(q.origin, w) - 4;
    let lv = if c == 1 || c == 2 {
        l0 + 8 * q.length
    } else {
        l0
    };
    let wv = if c == 2 || c == 3 {
        w0 + 8 * q.width
    } else {
        w0
    };
    (pick(Axis::X, n, nv, l, lv, wv), pick(Axis::Y, n, nv, l, lv, wv), pick(Axis::Z, n, nv, l, lv, wv))
}

/// Vertex and triangle buffers of a list of quads.
pub fn quad_geometry(quads: &Vec<Quad>) -> (r: (Vec<(i32, i32, i32)>, Vec<(u32, u32, u32)>))
    requires
        quads@.len() <= 24576,
        forall|j: int| 0 <= j < quads@.len() ==> #[trigger] quads@[j].valid(),
    ensures
        quad_vertices_match(quads@, r.0@),
        quad_triangles_match(quads@, r.1@),
{
    let mut vertices: Vec<(i32, i32, i32)> = Vec::new();
    let mut triangles: Vec<(u32, u32, u32)> = Vec::new();
    let mut j: usize = 0;
    while j < quads.len()
        invariant
            j <= quads@.len(),
            quads@.len() <= 24576,
            forall|j2: int| 0 <= j2 < quads@.len() ==> #[trigger] quads@[j2].valid(),
            vertices@.len() == 4 * j,
            triangles@.len() == 2 * j,
            forall|j2: int, c: int|
                0 <= j2 < j && 0 <= c < 4 ==> #[trigger] vertices@[4 * j2 + c] == quad_corner(
                    #[trigger] quads@[j2],
                    c,
                ),
            forall|j2: int|
                0 <= j2 < j ==> #[trigger] triangles@[2 * j2] == ((4 * j2 + 2) as u32, (4 * j2
                    + 3) as u32, (4 * j2) as u32) && triangles@[2 * j2 + 1] == ((4 * j2) as u32, (4
                    * j2 + 1) as u32, (4 * j2 + 2) as u32),
        decreases quads@.len() - j,
    {
        let q = quads[j];
        let base = (4 * j) as u32;
        let mut c: u8 = 0;
        while c < 4
            invariant
                j < quads@.len(),
                q == quads@[j as int],
                q.valid(),
                0 <= c <= 4,
                vertices@.len() == 4 * j + c,
                forall|j2: int, c2: int|
                    0 <= j2 < j && 0 <= c2 < 4 ==> #[trigger] vertices@[4 * j2 + c2] == quad_corner(
                        #[trigger] quads@[j2],
                        c2,
                    ),
                forall|c2: int| 0 <= c2 < c ==> #[trigger] vertices@[4 * j + c2] == quad_corner(q, c2),
            decreases 4 - c,
        {
            vertices.push(corner(q, c));
            c += 1;
        }
        triangles.push((base + 2, base + 3, base));
        triangles.push((base, base + 1, base + 2));
        proof {
            assert forall|j2: int, c2: int|
                0 <= j2 < j + 1 && 0 <= c2 < 4 implies #[trigger] vertices@[4 * j2 + c2] == quad_corner(
                #[trigger] quads@[j2],
                c2,
            ) by {
                if j2 == j {
                    assert(vertices@[4 * j + c2] == quad_corner(q, c2));
                }
            }
        }
        j += 1;
    }
    (vertices, triangles)
}

/// Collision shape of a chunk.
#[derive(Debug)]
pub enum ColliderShape {
    /// An axis-aligned box, in eighths of a block relative to the centre of
    /// block (0, 0, 0).
    Cuboid { center: (i32, i32, i32), half_extent: i32 },
    /// Merged quads and the triangle mesh built from them.
    TriMesh {
        quads: Vec<Quad>,
        vertices: Vec<(i32, i32, i32)>,
        triangles: Vec<(u32, u32, u32)>,
    },
}

/// Every voxel of `c` is solid.
pub open spec fn all_solid(c: Chunk) -> bool {
    forall|i: int| 0 <= i < 4096 ==> #[trigger] spec_solid(c.blocks@[i])
}

/// No voxel of `c` is solid.
pub open spec fn none_solid(c: Chunk) -> bool {
    forall|i: int| 0 <= i < 4096 ==> !#[trigger] spec_solid(c.blocks@[i])
}

/// The cuboid that fills a whole chunk.
pub open spec fn chunk_cuboid() -> (i32, i32, i32) {
    (60, 60, 60)
}

impl Chunk {
    /// The collision shape of this chunk: `None` when no block is solid, one
    /// chunk-sized cuboid when every block is, and otherwise the merged quads
    /// of the exposed faces with their triangle mesh.
    pub fn gen_collider(&self) -> (r: Option<ColliderShape>)
        requires
            self.wf(),
        ensures
            r is None <==> none_solid(*self),
            all_solid(*self) <==> r matches Some(ColliderShape::Cuboid { .. }),
            r matches Some(ColliderShape::Cuboid { center, half_extent }) ==> center
                == chunk_cuboid() && half_extent == 8 * UNITS_PER_BLOCK,
            r matches Some(ColliderShape::TriMesh { quads, vertices, triangles }) ==> {
                &&& tiles_exposed_faces(*self, quads@)
                &&& quad_vertices_match(quads@, vertices@)
                &&& quad_triangles_match(quads@, triangles@)
            },
    {
        let mut any = false;
        let mut every = true;
        let mut i: usize = 0;
        while i < 4096
            invariant
                self.wf(),
                i <= 4096,
                any <==> exists|j: int| 0 <= j < i && #[trigger] spec_solid(self.blocks@[j]),
                every <==> forall|j: int| 0 <= j < i ==> #[trigger] spec_solid(self.blocks@[j]),
            decreases 4096 - i,
        {
            let solid = self.blocks[i].is_solid();
            if solid {
                any = true;
            } else {
                every = false;
            }
            i += 1;
        }
        if !any {
            assert(!spec_solid(self.blocks@[0]));
            return None;
        }
        if every {
            assert(spec_solid(self.blocks@[0]));
            return Some(ColliderShape::Cuboid { center: (60, 60, 60), half_extent: 8 * UNITS_PER_BLOCK });
        }
        let quads = merge_exposed_faces(self);
        let (vertices, triangles) = quad_geometry(&quads);
        Some(ColliderShape::TriMesh { quads, vertices, triangles })
    }
}

} // verus!
