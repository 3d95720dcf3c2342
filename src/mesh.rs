//! Render geometry: one quad per visible unit face, for the opaque pass and
//! for the liquid pass, read across chunk borders through a snapshot of the
//! six neighbouring chunks.
use vstd::prelude::*;

use crate::chunk::{
    block_index, in_chunk, index_x, index_y, index_z, lemma_coords_index, lemma_index_coords,
    local_position, Chunk,
};
use crate::coords::{
    dir_dx, dir_dy, dir_dz, direction_order, spec_ordinal, spec_reverse, BlockId, Direction,
};
use crate::voxel::{spec_opaque_drawn, spec_solid, spec_transparent, BlockType};

verus! {

/// A chunk together with copies of its six face neighbours (in sweep
/// order), `None` where a neighbour is not available.
#[derive(Debug)]
pub struct Neighborhood {
    pub center: Chunk,
    pub sides: Vec<Option<Chunk>>,
}

impl Neighborhood {
    pub open spec fn wf(&self) -> bool {
        &&& self.center.wf()
        &&& self.sides@.len() == 6
        &&& forall|k: int|
            0 <= k < 6 ==> (#[trigger] self.sides@[k] matches Some(c) ==> c.wf() && c.id
                == self.center.id.spec_get(direction_order()[k]))
    }
}

/// The side of the chunk through which a position at most one step outside
/// it has left, if any.
pub open spec fn side_of(x: int, y: int, z: int) -> Option<Direction> {
    if y >= 16 {
        Some(Direction::Up)
    } else if y < 0 {
        Some(Direction::Down)
    } else if x < 0 {
        Some(Direction::Left)
    } else if x >= 16 {
        Some(Direction::Right)
    } else if z >= 16 {
        Some(Direction::Forward)
    } else if z < 0 {
        Some(Direction::Back)
    } else {
        None
    }
}

/// The block at local position `(x, y, z)` of the centre chunk, reading a
/// position just outside it from the neighbour on that side (wrapped to the
/// neighbour's opposite edge) and air where that neighbour is missing.
pub open spec fn nb_block(nb: Neighborhood, x: int, y: int, z: int) -> BlockType {
    match side_of(x, y, z) {
        None => nb.center.voxel(x, y, z),
        Some(d) => match nb.sides@[spec_ordinal(d)] {
            Some(c) => c.voxel(x % 16, y % 16, z % 16),
            None => BlockType::Air,
        },
    }
}

/// The block beyond the face of cell `i` that looks in direction `d`.
pub open spec fn facing_block(nb: Neighborhood, i: int, d: Direction) -> BlockType {
    nb_block(nb, index_x(i) + dir_dx(d), index_y(i) + dir_dy(d), index_z(i) + dir_dz(d))
}

/// One visible unit face. `surface` and `against_solid` shape liquid faces:
/// a liquid block with air above has its top lowered, and its side faces
/// follow the lowered top unless they face a solid block.
#[derive(Clone, Copy, Debug, PartialEq, Eq, Structural)]
pub struct Face {
    pub pos: BlockId,
    pub direction: Direction,
    pub block: BlockType,
    pub surface: bool,
    pub against_solid: bool,
}

/// The opaque-pass face of cell `i` in direction `d`, if it is drawn: the
/// cell is neither air nor liquid and the block beyond is transparent.
pub open spec fn opaque_face(nb: Neighborhood, i: int, d: Direction) -> Option<Face> {
    let b = nb.center.blocks@[i];
    if spec_opaque_drawn(b) && spec_transparent(facing_block(nb, i, d)) {
        Some(
            Face {
                pos: BlockId { x: index_x(i) as i32, y: index_y(i) as i32, z: index_z(i) as i32 },
                direction: d,
                block: b,
                surface: false,
                against_solid: false,
            },
        )
    } else {
        None
    }
}

/// The liquid-pass face of cell `i` in direction `d`, if it is drawn: the
/// cell is liquid and the block beyond is not.
pub open spec fn liquid_face(nb: Neighborhood, i: int, d: Direction) -> Option<Face> {
    let b = nb.center.blocks@[i];
    let beyond = facing_block(nb, i, d);
    if b == BlockType::Water && beyond != BlockType::Water {
        Some(
            Face {
                pos: BlockId { x: index_x(i) as i32, y: index_y(i) as i32, z: index_z(i) as i32 },
                direction: d,
                block: b,
                surface: facing_block(nb, i, Direction::Up) == BlockType::Air,
                against_solid: spec_solid(beyond),
            },
        )
    } else {
        None
    }
}

pub open spec fn face_at(nb: Neighborhood, liquid: bool, i: int, d: Direction) -> Option<Face> {
    if liquid {
        liquid_face(nb, i, d)
    } else {
        opaque_face(nb, i, d)
    }
}

/// The faces of the first `k` candidates, a candidate being a cell and a
/// direction, cells by flat index and directions in sweep order.
pub open spec fn faces_upto(nb: Neighborhood, liquid: bool, k: nat) -> Seq<Face>
    decreases k,
{
    if k == 0 {
        seq![]
    } else {
        let prev = faces_upto(nb, liquid, (k - 1) as nat);
        match face_at(nb, liquid, (k - 1) / 6, direction_order()[(k - 1) % 6]) {
            Some(f) => prev.push(f),
            None => prev,
        }
    }
}

/// Every face of a pass, in sweep order.
pub open spec fn pass_faces(nb: Neighborhood, liquid: bool) -> Seq<Face> {
    faces_upto(nb, liquid, 24576)
}

/// Offset, in eighths of a block, of corner `c` of the unit face looking in
/// direction `d`, from the centre of its block.
pub open spec fn corner_offset(d: Direction, c: int) -> (int, int, int) {
    match d {
        Direction::Forward => if c == 0 { (-4, -4, 4) } else if c == 1 { (4, -4, 4) } else if c == 2 { (4, 4, 4) } else { (-4, 4, 4) },
        Direction::Back => if c == 0 { (4, -4, -4) } else if c == 1 { (-4, -4, -4) } else if c == 2 { (-4, 4, -4) } else { (4, 4, -4) },
        Direction::Left => if c == 0 { (-4, -4, -4) } else if c == 1 { (-4, -4, 4) } else if c == 2 { (-4, 4, 4) } else { (-4, 4, -4) },
        Direction::Right => if c == 0 { (4, -4, 4) } else if c == 1 { (4, -4, -4) } else if c == 2 { (4, 4, -4) } else { (4, 4, 4) },
        Direction::Up => if c == 0 { (4, 4, 4) } else if c == 1 { (4, 4, -4) } else if c == 2 { (-4, 4, -4) } else { (-4, 4, 4) },
        Direction::Down => if c == 0 { (-4, -4, -4) } else if c == 1 { (4, -4, -4) } else if c == 2 { (4, -4, 4) } else { (-4, -4, 4) },
    }
}

/// The face's top edge sits one eighth below the top of its block.
pub open spec fn lowered(f: Face) -> bool {
    f.surface && (f.direction == Direction::Up || !f.against_solid)
}

/// Corner `c` of face `f`, in eighths of a block relative to the centre of
/// block (0, 0, 0) of the chunk.
pub open spec fn face_corner(f: Face, c: int) -> (i32, i32, i32) {
    let o = corner_offset(f.direction, c);
    let oy = if o.1 == 4 && lowered(f) {
        3
    } else {
        o.1
    };
    ((8 * f.pos.x + o.0) as i32, (8 * f.pos.y + oy) as i32, (8 * f.pos.z + o.2) as i32)
}

/// Index pattern of the two triangles of a face.
pub open spec fn face_index(t: int) -> int {
    if t == 0 {
        0
    } else if t == 1 {
        1
    } else if t == 2 {
        2
    } else if t == 3 {
        2
    } else if t == 4 {
        3
    } else {
        0
    }
}

/// Render buffers: the faces, four positions per face and six indices per
/// face, each index offset by the number of vertices before its face.
#[derive(Debug)]
pub struct MeshData {
    pub faces: Vec<Face>,
    pub positions: Vec<(i32, i32, i32)>,
    pub indices: Vec<u32>,
}

impl MeshData {
    /// The buffers are those of `faces`.
    pub open spec fn buffers_match(&self) -> bool {
        &&& self.positions@.len() == 4 * self.faces@.len()
        &&& self.indices@.len() == 6 * self.faces@.len()
        &&& forall|j: int, c: int|
            0 <= j < self.faces@.len() && 0 <= c < 4 ==> #[trigger] self.positions@[4 * j + c]
                == face_corner(#[trigger] self.faces@[j], c)
        &&& forall|j: int, t: int|
            0 <= j < self.faces@.len() && 0 <= t < 6 ==> #[trigger] self.indices@[6 * j + t] == 4
                * j + face_index(t)
    }
}

/// `v` wrapped onto the opposite edge of the chunk when it lies one step
/// outside.
fn wrap(v: i32) -> (r: i32)
    requires
        -1 <= v <= 16,
    ensures
        r == v % 16,
        0 <= r < 16,
{
    if v < 0 {
        v + 16
    } else if v >= 16 {
        v - 16
    } else {
        v
    }
}

impl Neighborhood {
    /// The block beyond the face of local cell `(x, y, z)` that looks in
    /// direction `d`.
    pub fn block_beyond(&self, x: i32, y: i32, z: i32, d: Direction) -> (r: BlockType)
        requires
            self.wf(),
            in_chunk(x as int, y as int, z as int),
        ensures
            r == nb_block(*self, x + dir_dx(d), y + dir_dy(d), z + dir_dz(d)),
    {
        let (dx, dy, dz) = d.offset();
        let nx = x + dx;
        let ny = y + dy;
        let nz = z + dz;
        if 0 <= nx && nx < 16 && 0 <= ny && ny < 16 && 0 <= nz && nz < 16 {
            return self.center.block_at(nx, ny, nz);
        }
        assert(side_of(nx as int, ny as int, nz as int) == Some(d));
        match &self.sides[d.ordinal()] {
            Some(c) => c.block_at(wrap(nx), wrap(ny), wrap(nz)),
            None => BlockType::Air,
        }
    }

    /// The render buffers of one pass: the opaque pass when `liquid` is
    /// false, the liquid pass otherwise.
    fn build_pass(&self, liquid: bool) -> (r: MeshData)
        requires
            self.wf(),
        ensures
            r.faces@ == pass_faces(*self, liquid),
            r.buffers_match(),
    {
        let dirs = Direction::all();
        let mut out = MeshData { faces: Vec::new(), positions: Vec::new(), indices: Vec::new() };
        let mut i: usize = 0;
        while i < 4096
            invariant
                self.wf(),
                i <= 4096,
                dirs@ == direction_order(),
                out.faces@ == faces_upto(*self, liquid, (6 * i) as nat),
                out.faces@.len() <= 6 * i,
                out.buffers_match(),
            decreases 4096 - i,
        {
            let p = local_position(i);
            let b = self.center.blocks[i];
            let mut k: usize = 0;
            while k < 6
                invariant
                    self.wf(),
                    i < 4096,
                    k <= 6,
                    dirs@ == direction_order(),
                    p.is_local(),
                    p.x == index_x(i as int),
                    p.y == index_y(i as int),
                    p.z == index_z(i as int),
                    b == self.center.blocks@[i as int],
                    out.faces@ == faces_upto(*self, liquid, (6 * i + k) as nat),
                    out.faces@.len() <= 6 * i + k,
                    out.buffers_match(),
                decreases 6 - k,
            {
                let d = dirs[k];
                let ghost n = (6 * i + k) as nat;
                assert(n / 6 == i && n % 6 == k) by {
                    vstd::arithmetic::div_mod::lemma_fundamental_div_mod_converse(
                        n as int,
                        6,
                        i as int,
                        k as int,
                    );
                }
                let beyond = self.block_beyond(p.x, p.y, p.z, d);
                let face = if liquid {
                    if b == BlockType::Water && beyond != BlockType::Water {
                        let above = self.block_beyond(p.x, p.y, p.z, Direction::Up);
                        Some(
                            Face {
                                pos: p,
                                direction: d,
                                block: b,
                                surface: above == BlockType::Air,
                                against_solid: beyond.is_solid(),
                            },
                        )
                    } else {
                        None
                    }
                } else {
                    if b != BlockType::Air && b != BlockType::Water && beyond.is_transparent() {
                        Some(
                            Face {
                                pos: p,
                                direction: d,
                                block: b,
                                surface: false,
                                against_solid: false,
                            },
                        )
                    } else {
                        None
                    }
                };
                assert(face == face_at(*self, liquid, i as int, d));
                if let Some(f) = face {
                    let j = out.faces.len();
                    let base = (4 * j) as u32;
                    let ghost old_out = out;
                    let mut c: u8 = 0;
                    while c < 4
                        invariant
                            c <= 4,
                            f.pos.is_local(),
                            j == old_out.faces@.len(),
                            j <= 24576,
                            out.faces@ == old_out.faces@,
                            out.indices@ == old_out.indices@,
                            out.positions@.len() == 4 * j + c,
                            forall|m: int| 0 <= m < 4 * j ==> #[trigger] out.positions@[m]
                                == old_out.positions@[m],
                            forall|c2: int| 0 <= c2 < c ==> #[trigger] out.positions@[4 * j + c2]
                                == face_corner(f, c2),
                        decreases 4 - c,
                    {
                        out.positions.push(face_corner_of(f, c));
                        c += 1;
                    }
                    out.indices.push(base);
                    out.indices.push(base + 1);
                    out.indices.push(base + 2);
                    out.indices.push(base + 2);
                    out.indices.push(base + 3);
                    out.indices.push(base);
                    out.faces.push(f);
                    proof {
                        assert forall|j2: int, c2: int|
                            0 <= j2 < out.faces@.len() && 0 <= c2 < 4 implies #[trigger] out.positions@[4 * j2 + c2]
                            == face_corner(#[trigger] out.faces@[j2], c2) by {
                            if j2 < j {
                                assert(out.positions@[4 * j2 + c2] == old_out.positions@[4 * j2 + c2]);
                                assert(out.faces@[j2] == old_out.faces@[j2]);
                            }
                        }
                        assert forall|j2: int, t: int|
                            0 <= j2 < out.faces@.len() && 0 <= t < 6 implies #[trigger] out.indices@[6 * j2 + t]
                            == 4 * j2 + face_index(t) by {
                            if j2 < j {
                                assert(out.indices@[6 * j2 + t] == old_out.indices@[6 * j2 + t]);
                            }
                        }
                    }
                }
                k += 1;
            }
            i += 1;
        }
        out
    }

    /// Opaque geometry: a face for every side of a non-air, non-liquid block
    /// whose neighbouring block is transparent.
    pub fn gen_mesh(&self) -> (r: MeshData)
        requires
            self.wf(),
        ensures
            r.faces@ == pass_faces(*self, false),
            r.buffers_match(),
    {
        self.build_pass(false)
    }

    /// Liquid geometry: a face for every side of a liquid block whose
    /// neighbouring block is not liquid; `None` when there is none.
    pub fn gen_water_mesh(&self) -> (r: Option<MeshData>)
        requires
            self.wf(),
        ensures
            r is None <==> pass_faces(*self, true).len() == 0,
            r matches Some(m) ==> m.faces@ == pass_faces(*self, true) && m.buffers_match(),
    {
        let m = self.build_pass(true);
        if m.faces.len() == 0 {
            None
        } else {
            Some(m)
        }
    }
}

/// Corner `c` of face `f`.
fn face_corner_of(f: Face, c: u8) -> (r: (i32, i32, i32))
    requires
        f.pos.is_local(),
        c < 4,
    ensures
        r == face_corner(f, c as int),
{
    let (ox, oy, oz): (i32, i32, i32) = match f.direction {
        Direction::Forward => if c == 0 { (-4, -4, 4) } else if c == 1 { (4, -4, 4) } else if c == 2 { (4, 4, 4) } else { (-4, 4, 4) },
        Direction::Back => if c == 0 { (4, -4, -4) } else if c == 1 { (-4, -4, -4) } else if c == 2 { (-4, 4, -4) } else { (4, 4, -4) },
        Direction::Left => if c == 0 { (-4, -4, -4) } else if c == 1 { (-4, -4, 4) } else if c == 2 { (-4, 4, 4) } else { (-4, 4, -4) },
        Direction::Right => if c == 0 { (4, -4, 4) } else if c == 1 { (4, -4, -4) } else if c == 2 { (4, 4, -4) } else { (4, 4, 4) },
        Direction::Up => if c == 0 { (4, 4, 4) } else if c == 1 { (4, 4, -4) } else if c == 2 { (-4, 4, -4) } else { (-4, 4, 4) },
        Direction::Down => if c == 0 { (-4, -4, -4) } else if c == 1 { (4, -4, -4) } else if c == 2 { (4, -4, 4) } else { (-4, -4, 4) },
    };
    let low = f.surface && (f.direction == Direction::Up || !f.against_solid);
    let y = if oy == 4 && low {
        3
    } else {
        oy
    };
    (8 * f.pos.x + ox, 8 * f.pos.y + y, 8 * f.pos.z + oz)
}

/// The face that candidate `c` (cell `c / 6`, direction `c % 6` in sweep
/// order) contributes to a pass, if any.
pub open spec fn candidate_face(nb: Neighborhood, liquid: bool, c: int) -> Option<Face> {
    face_at(nb, liquid, c / 6, direction_order()[c % 6])
}

/// A pass draws a face at local position `p` looking in direction `d`.
pub open spec fn has_face(nb: Neighborhood, liquid: bool, p: BlockId, d: Direction) -> bool {
    exists|m: int|
        0 <= m < pass_faces(nb, liquid).len() && #[trigger] pass_faces(nb, liquid)[m].pos == p
            && pass_faces(nb, liquid)[m].direction == d
}

/// The faces of the first `k` candidates are exactly the faces those
/// candidates contribute.
proof fn lemma_faces_upto_members(nb: Neighborhood, liquid: bool, k: nat)
    ensures
        forall|m: int|
            0 <= m < faces_upto(nb, liquid, k).len() ==> exists|c: int|
                0 <= c < k && candidate_face(nb, liquid, c) == Some(
                    #[trigger] faces_upto(nb, liquid, k)[m],
                ),
        forall|c: int|
            0 <= c < k && (#[trigger] candidate_face(nb, liquid, c)) is Some ==> exists|m: int|
                0 <= m < faces_upto(nb, liquid, k).len() && faces_upto(nb, liquid, k)[m]
                    == candidate_face(nb, liquid, c)->0,
    decreases k,
{
    if k > 0 {
        let k1 = (k - 1) as nat;
        lemma_faces_upto_members(nb, liquid, k1);
        let prev = faces_upto(nb, liquid, k1);
        let cur = faces_upto(nb, liquid, k);
        assert forall|m: int| 0 <= m < cur.len() implies exists|c: int|
            0 <= c < k && candidate_face(nb, liquid, c) == Some(#[trigger] cur[m]) by {
            if m < prev.len() {
                assert(cur[m] == prev[m]);
                let c = choose|c: int| 0 <= c < k1 && candidate_face(nb, liquid, c) == Some(prev[m]);
                assert(candidate_face(nb, liquid, c) == Some(cur[m]));
            } else {
                assert(candidate_face(nb, liquid, k1 as int) == Some(cur[m]));
            }
        }
        assert forall|c: int|
            0 <= c < k && (#[trigger] candidate_face(nb, liquid, c)) is Some implies exists|m: int|
            0 <= m < cur.len() && cur[m] == candidate_face(nb, liquid, c)->0 by {
            if c < k1 {
                let m = choose|m: int| 0 <= m < prev.len() && prev[m] == candidate_face(nb, liquid, c)->0;
                assert(cur[m] == prev[m]);
            } else {
                assert(cur[prev.len() as int] == candidate_face(nb, liquid, c)->0);
            }
        }
    }
}

/// Whether a pass draws the face of cell `i` looking in direction `d` is
/// decided by that cell and direction alone.
pub proof fn lemma_has_face_iff(nb: Neighborhood, liquid: bool, i: int, d: Direction)
    requires
        0 <= i < 4096,
    ensures
        has_face(
            nb,
            liquid,
            BlockId { x: index_x(i) as i32, y: index_y(i) as i32, z: index_z(i) as i32 },
            d,
        ) <==> face_at(nb, liquid, i, d) is Some,
{
    let p = BlockId { x: index_x(i) as i32, y: index_y(i) as i32, z: index_z(i) as i32 };
    let c0 = 6 * i + spec_ordinal(d);
    lemma_index_coords(i);
    lemma_faces_upto_members(nb, liquid, 24576);
    let faces = pass_faces(nb, liquid);
    assert(c0 / 6 == i && c0 % 6 == spec_ordinal(d)) by {
        vstd::arithmetic::div_mod::lemma_fundamental_div_mod_converse(c0, 6, i, spec_ordinal(d));
    }
    assert(direction_order()[spec_ordinal(d)] == d);
    if face_at(nb, liquid, i, d) is Some {
        assert(candidate_face(nb, liquid, c0) is Some);
        let m = choose|m: int| 0 <= m < faces.len() && faces[m] == candidate_face(nb, liquid, c0)->0;
        assert(faces[m].pos == p && faces[m].direction == d);
    }
    if has_face(nb, liquid, p, d) {
        let m = choose|m: int| 0 <= m < faces.len() && #[trigger] faces[m].pos == p && faces[m].direction == d;
        let c = choose|c: int| 0 <= c < 24576 && candidate_face(nb, liquid, c) == Some(faces[m]);
        lemma_candidate_cell(nb, liquid, c, i, d);
    }
}

/// A candidate whose face sits at cell `i` and looks in direction `d` is
/// the candidate of that cell and direction.
proof fn lemma_candidate_cell(nb: Neighborhood, liquid: bool, c: int, i: int, d: Direction)
    requires
        0 <= c < 24576,
        0 <= i < 4096,
        candidate_face(nb, liquid, c) matches Some(f) && f.pos == (BlockId {
            x: index_x(i) as i32,
            y: index_y(i) as i32,
            z: index_z(i) as i32,
        }) && f.direction == d,
    ensures
        face_at(nb, liquid, i, d) is Some,
{
    let i2 = c / 6;
    let k2 = c % 6;
    assert(0 <= i2 < 4096 && 0 <= k2 < 6);
    lemma_index_coords(i2);
    lemma_index_coords(i);
    assert(index_x(i2) == index_x(i) && index_y(i2) == index_y(i) && index_z(i2) == index_z(i));
    assert(i2 == i);
}

/// A chunk holding only air draws no face in either pass.
pub proof fn lemma_air_chunk_has_no_faces(nb: Neighborhood)
    requires
        forall|i: int| 0 <= i < 4096 ==> #[trigger] nb.center.blocks@[i] == BlockType::Air,
    ensures
        pass_faces(nb, false).len() == 0,
        pass_faces(nb, true).len() == 0,
{
    lemma_faces_upto_members(nb, false, 24576);
    lemma_faces_upto_members(nb, true, 24576);
    if pass_faces(nb, false).len() > 0 {
        let c = choose|c: int| 0 <= c < 24576 && candidate_face(nb, false, c) == Some(
            pass_faces(nb, false)[0],
        );
        assert(nb.center.blocks@[c / 6] == BlockType::Air);
    }
    if pass_faces(nb, true).len() > 0 {
        let c = choose|c: int| 0 <= c < 24576 && candidate_face(nb, true, c) == Some(
            pass_faces(nb, true)[0],
        );
        assert(nb.center.blocks@[c / 6] == BlockType::Air);
    }
}

/// Face culling inside a chunk, for cell `i` and its neighbour `j` in
/// direction `d`: between two solid blocks neither of the two faces is
/// drawn; between a solid block and air the solid block's face toward the
/// air is drawn and the air draws none.
pub proof fn lemma_face_culling(nb: Neighborhood, i: int, d: Direction)
    requires
        0 <= i < 4096,
        in_chunk(index_x(i) + dir_dx(d), index_y(i) + dir_dy(d), index_z(i) + dir_dz(d)),
    ensures
        ({
            let j = block_index(
                index_x(i) + dir_dx(d),
                index_y(i) + dir_dy(d),
                index_z(i) + dir_dz(d),
            );
            let pi = BlockId { x: index_x(i) as i32, y: index_y(i) as i32, z: index_z(i) as i32 };
            let pj = BlockId { x: index_x(j) as i32, y: index_y(j) as i32, z: index_z(j) as i32 };
            &&& spec_solid(nb.center.blocks@[i]) && spec_solid(nb.center.blocks@[j]) ==> !has_face(
                nb,
                false,
                pi,
                d,
            ) && !has_face(nb, false, pj, spec_reverse(d))
            &&& spec_solid(nb.center.blocks@[i]) && nb.center.blocks@[j] == BlockType::Air
                ==> has_face(nb, false, pi, d) && !has_face(nb, false, pj, spec_reverse(d))
        }),
{
    let x = index_x(i) + dir_dx(d);
    let y = index_y(i) + dir_dy(d);
    let z = index_z(i) + dir_dz(d);
    let j = block_index(x, y, z);
    lemma_index_coords(i);
    lemma_coords_index(x, y, z);
    lemma_has_face_iff(nb, false, i, d);
    lemma_has_face_iff(nb, false, j, spec_reverse(d));
    assert(facing_block(nb, i, d) == nb.center.blocks@[j]);
    assert(facing_block(nb, j, spec_reverse(d)) == nb.center.blocks@[i]);
}

/// The render buffers of a chunk holding only air are empty: no opaque
/// vertex or index, and no liquid face.
pub proof fn lemma_air_chunk_mesh_is_empty(nb: Neighborhood, m: MeshData)
    requires
        forall|i: int| 0 <= i < 4096 ==> #[trigger] nb.center.blocks@[i] == BlockType::Air,
        m.faces@ == pass_faces(nb, false),
        m.buffers_match(),
    ensures
        m.indices@.len() == 0,
        m.positions@.len() == 0,
        pass_faces(nb, true).len() == 0,
{
    lemma_air_chunk_has_no_faces(nb);
}

} // verus!
