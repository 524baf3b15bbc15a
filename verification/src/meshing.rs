use vstd::prelude::*;

use crate::chunk::{ChunkData, CHUNK_HEIGHT, CHUNK_SIZE, TOTAL_BLOCKS, in_chunk, spec_get};
use crate::voxel::{BlockType, spec_is_transparent};

verus! {

/// The six sides of a block.
#[derive(Clone, Copy, PartialEq, Eq, Structural, Debug)]
pub enum Face {
    Top,
    Bottom,
    North,
    South,
    East,
    West,
}

/// Outward unit normal of a face: top is +y, north is -z, east is +x.
pub open spec fn spec_normal(f: Face) -> (i32, i32, i32) {
    match f {
        Face::Top => (0, 1, 0),
        Face::Bottom => (0, -1i32, 0),
        Face::North => (0, 0, -1i32),
        Face::South => (0, 0, 1),
        Face::East => (1, 0, 0),
        Face::West => (-1i32, 0, 0),
    }
}

impl Face {
    /// Outward unit normal of the face.
    pub fn normal(&self) -> (n: (i32, i32, i32))
        ensures
            n == spec_normal(*self),
    {
        match self {
            Face::Top => (0, 1, 0),
            Face::Bottom => (0, -1i32, 0),
            Face::North => (0, 0, -1i32),
            Face::South => (0, 0, 1),
            Face::East => (1, 0, 0),
            Face::West => (-1i32, 0, 0),
        }
    }
}

/// One visible block face: the block's local cell, the side, and the block.
#[derive(Clone, Copy, PartialEq, Eq, Structural, Debug)]
pub struct Quad {
    pub x: u32,
    pub y: u32,
    pub z: u32,
    pub face: Face,
    pub block: BlockType,
}

/// A chunk's surface as quads: four corners per quad with the face's normal,
/// the block kind (from which a renderer picks the colour) and the face, plus
/// two triangles per quad in the index list.
pub struct ChunkMesh {
    pub positions: Vec<(u32, u32, u32)>,
    pub normals: Vec<(i32, i32, i32)>,
    pub faces: Vec<Face>,
    pub blocks: Vec<BlockType>,
    pub indices: Vec<u32>,
}

/// The `j`-th corner of a face of the unit cube at (x, y, z), wound
/// counter-clockwise seen from outside, so that each face points outward.
pub open spec fn corner(q: Quad, j: int) -> (u32, u32, u32) {
    let x = q.x;
    let y = q.y;
    let z = q.z;
    let x1 = (q.x + 1) as u32;
    let y1 = (q.y + 1) as u32;
    let z1 = (q.z + 1) as u32;
    match q.face {
        Face::Top => if j == 0 { (x, y1, z) } else if j == 1 { (x, y1, z1) } else if j == 2 { (x1, y1, z1) } else { (x1, y1, z) },
        Face::Bottom => if j == 0 { (x, y, z) } else if j == 1 { (x1, y, z) } else if j == 2 { (x1, y, z1) } else { (x, y, z1) },
        Face::North => if j == 0 { (x1, y, z) } else if j == 1 { (x, y, z) } else if j == 2 { (x, y1, z) } else { (x1, y1, z) },
        Face::South => if j == 0 { (x, y, z1) } else if j == 1 { (x1, y, z1) } else if j == 2 { (x1, y1, z1) } else { (x, y1, z1) },
        Face::East => if j == 0 { (x1, y, z1) } else if j == 1 { (x1, y, z) } else if j == 2 { (x1, y1, z) } else { (x1, y1, z1) },
        Face::West => if j == 0 { (x, y, z) } else if j == 1 { (x, y, z1) } else if j == 2 { (x, y1, z1) } else { (x, y1, z) },
    }
}

/// Cross product of the edges from corner 0 to corners 1 and 2 of a quad.
pub open spec fn winding_normal(q: Quad) -> (int, int, int) {
    let (a0, a1, a2) = corner(q, 0);
    let (b0, b1, b2) = corner(q, 1);
    let (c0, c1, c2) = corner(q, 2);
    let (u0, u1, u2) = (b0 - a0, b1 - a1, b2 - a2);
    let (v0, v1, v2) = (c0 - a0, c1 - a1, c2 - a2);
    (u1 * v2 - u2 * v1, u2 * v0 - u0 * v2, u0 * v1 - u1 * v0)
}

/// Every quad is wound counter-clockwise seen from outside: the cross product
/// of its first two edges is the face's outward normal.
pub proof fn lemma_corners_face_outward(q: Quad)
    requires
        q.x < CHUNK_SIZE,
        q.y < CHUNK_HEIGHT,
        q.z < CHUNK_SIZE,
    ensures
        winding_normal(q) == ((spec_normal(q.face).0 as int), (spec_normal(q.face).1 as int), (spec_normal(q.face).2 as int)),
{
    let x = q.x as int;
    let y = q.y as int;
    let z = q.z as int;
    assert((q.x + 1) as u32 == x + 1 && (q.y + 1) as u32 == y + 1 && (q.z + 1) as u32 == z + 1);
    let (a0, a1, a2) = corner(q, 0);
    let (b0, b1, b2) = corner(q, 1);
    let (c0, c1, c2) = corner(q, 2);
    let (u0, u1, u2) = (b0 - a0, b1 - a1, b2 - a2);
    let (v0, v1, v2) = (c0 - a0, c1 - a1, c2 - a2);
    assert(winding_normal(q) == (u1 * v2 - u2 * v1, u2 * v0 - u0 * v2, u0 * v1 - u1 * v0));
    match q.face {
        Face::Top => {
            assert(u1 * v2 - u2 * v1 == 0 && u2 * v0 - u0 * v2 == 1 && u0 * v1 - u1 * v0 == 0) by (nonlinear_arith)
                requires
                    u0 == 0, u1 == 0, u2 == 1, v0 == 1, v1 == 0, v2 == 1,
            ;
        },
        Face::Bottom => {
            assert(u1 * v2 - u2 * v1 == 0 && u2 * v0 - u0 * v2 == -1 && u0 * v1 - u1 * v0 == 0) by (nonlinear_arith)
                requires
                    u0 == 1, u1 == 0, u2 == 0, v0 == 1, v1 == 0, v2 == 1,
            ;
        },
        Face::North => {
            assert(u1 * v2 - u2 * v1 == 0 && u2 * v0 - u0 * v2 == 0 && u0 * v1 - u1 * v0 == -1) by (nonlinear_arith)
                requires
                    u0 == -1, u1 == 0, u2 == 0, v0 == -1, v1 == 1, v2 == 0,
            ;
        },
        Face::South => {
            assert(u1 * v2 - u2 * v1 == 0 && u2 * v0 - u0 * v2 == 0 && u0 * v1 - u1 * v0 == 1) by (nonlinear_arith)
                requires
                    u0 == 1, u1 == 0, u2 == 0, v0 == 1, v1 == 1, v2 == 0,
            ;
        },
        Face::East => {
            assert(u1 * v2 - u2 * v1 == 1 && u2 * v0 - u0 * v2 == 0 && u0 * v1 - u1 * v0 == 0) by (nonlinear_arith)
                requires
                    u0 == 0, u1 == 0, u2 == -1, v0 == 0, v1 == 1, v2 == -1,
            ;
        },
        Face::West => {
            assert(u1 * v2 - u2 * v1 == -1 && u2 * v0 - u0 * v2 == 0 && u0 * v1 - u1 * v0 == 0) by (nonlinear_arith)
                requires
                    u0 == 0, u1 == 0, u2 == 1, v0 == 0, v1 == 1, v2 == 1,
            ;
        },
    }
}

/// Offset, within a quad's four corners, of the `m`-th index of its two
/// triangles (0, 1, 2 and 0, 2, 3).
pub open spec fn tri_offset(m: int) -> int {
    if m == 0 { 0 } else if m == 1 { 1 } else if m == 2 { 2 } else if m == 3 { 0 } else if m == 4 { 2 } else { 3 }
}

/// The mesh arrays hold exactly the quads `q`, in order.
pub open spec fn mesh_holds(m: &ChunkMesh, q: Seq<Quad>) -> bool {
    &&& m.positions@.len() == 4 * q.len()
    &&& m.normals@.len() == 4 * q.len()
    &&& m.faces@.len() == 4 * q.len()
    &&& m.blocks@.len() == 4 * q.len()
    &&& m.indices@.len() == 6 * q.len()
    &&& forall|k: int, j: int| 0 <= k < q.len() && 0 <= j < 4 ==> #[trigger] m.positions@[4 * k + j] == corner(q[k], j)
    &&& forall|k: int, j: int| 0 <= k < q.len() && 0 <= j < 4 ==> #[trigger] m.normals@[4 * k + j] == spec_normal(q[k].face)
    &&& forall|k: int, j: int| 0 <= k < q.len() && 0 <= j < 4 ==> #[trigger] m.faces@[4 * k + j] == q[k].face
    &&& forall|k: int, j: int| 0 <= k < q.len() && 0 <= j < 4 ==> #[trigger] m.blocks@[4 * k + j] == q[k].block
    &&& forall|k: int, t: int| 0 <= k < q.len() && 0 <= t < 6 ==>
        #[trigger] m.indices@[6 * k + t] == 4 * k + tri_offset(t)
}

/// Whether a block's face towards `neighbour` shows: the neighbour must be
/// transparent and a different kind of block (water next to water, or leaves
/// next to leaves, hide their shared face).
pub open spec fn shows_against(block: BlockType, neighbour: BlockType) -> bool {
    spec_is_transparent(neighbour) && neighbour != block
}

/// The cell next to (x, y, z) across face `f`.
pub open spec fn neighbour_of(c: Seq<BlockType>, x: int, y: int, z: int, f: Face) -> BlockType {
    match f {
        Face::Top => spec_get(c, x, y + 1, z),
        Face::Bottom => spec_get(c, x, y - 1, z),
        Face::North => spec_get(c, x, y, z - 1),
        Face::South => spec_get(c, x, y, z + 1),
        Face::East => spec_get(c, x + 1, y, z),
        Face::West => spec_get(c, x - 1, y, z),
    }
}

/// Whether face `f` of the block at (x, y, z) is visible: the neighbour on
/// that side (air outside the chunk) is transparent and differs from the block.
pub open spec fn face_visible(c: Seq<BlockType>, x: int, y: int, z: int, f: Face) -> bool {
    shows_against(spec_get(c, x, y, z), neighbour_of(c, x, y, z, f))
}

/// The quad for face `f` of the block at (x, y, z), if that face is drawn.
pub open spec fn face_quad(c: Seq<BlockType>, x: int, y: int, z: int, f: Face) -> Seq<Quad> {
    if face_visible(c, x, y, z, f) {
        seq![Quad { x: x as u32, y: y as u32, z: z as u32, face: f, block: spec_get(c, x, y, z) }]
    } else {
        seq![]
    }
}

/// Drawn faces of the block at (x, y, z), in the order top, bottom, north,
/// south, east, west; air has none.
pub open spec fn block_quads(c: Seq<BlockType>, x: int, y: int, z: int) -> Seq<Quad> {
    if spec_get(c, x, y, z) == BlockType::Air {
        seq![]
    } else {
        face_quad(c, x, y, z, Face::Top) + face_quad(c, x, y, z, Face::Bottom) + face_quad(c, x, y, z, Face::North)
            + face_quad(c, x, y, z, Face::South) + face_quad(c, x, y, z, Face::East) + face_quad(c, x, y, z, Face::West)
    }
}

/// Drawn faces of the first `n` cells in cell order (x fastest, then z, then y).
pub open spec fn chunk_quads(c: Seq<BlockType>, n: nat) -> Seq<Quad>
    decreases n,
{
    if n == 0 {
        seq![]
    } else {
        let i = (n - 1) as int;
        chunk_quads(c, (n - 1) as nat) + block_quads(c, i % 16, i / 256, (i / 16) % 16)
    }
}

/// A chunk never yields more than six quads per cell.
pub proof fn lemma_chunk_quads_len(c: Seq<BlockType>, n: nat)
    ensures
        chunk_quads(c, n).len() <= 6 * n,
    decreases n,
{
    if n > 0 {
        lemma_chunk_quads_len(c, (n - 1) as nat);
    }
}

impl ChunkMesh {
    fn new() -> (m: ChunkMesh)
        ensures
            mesh_holds(&m, seq![]),
    {
        ChunkMesh {
            positions: Vec::new(),
            normals: Vec::new(),
            faces: Vec::new(),
            blocks: Vec::new(),
            indices: Vec::new(),
        }
    }
}

/// Append the four corners and two triangles of one face of the block at
/// (x, y, z).
fn add_face(mesh: &mut ChunkMesh, x: u32, y: u32, z: u32, face: Face, block: BlockType, Ghost(q): Ghost<Seq<Quad>>)
    requires
        mesh_holds(old(mesh), q),
        x < CHUNK_SIZE,
        y < CHUNK_HEIGHT,
        z < CHUNK_SIZE,
        4 * q.len() + 4 < u32::MAX,
    ensures
        mesh_holds(final(mesh), q.push(Quad { x, y, z, face, block })),
{
    let ghost quad = Quad { x, y, z, face, block };
    let base = mesh.positions.len() as u32;
    let n = face.normal();
    let x1 = x + 1;
    let y1 = y + 1;
    let z1 = z + 1;
    let (v0, v1, v2, v3) = match face {
        Face::Top => ((x, y1, z), (x, y1, z1), (x1, y1, z1), (x1, y1, z)),
        Face::Bottom => ((x, y, z), (x1, y, z), (x1, y, z1), (x, y, z1)),
        Face::North => ((x1, y, z), (x, y, z), (x, y1, z), (x1, y1, z)),
        Face::South => ((x, y, z1), (x1, y, z1), (x1, y1, z1), (x, y1, z1)),
        Face::East => ((x1, y, z1), (x1, y, z), (x1, y1, z), (x1, y1, z1)),
        Face::West => ((x, y, z), (x, y, z1), (x, y1, z1), (x, y1, z)),
    };
    mesh.positions.push(v0);
    mesh.positions.push(v1);
    mesh.positions.push(v2);
    mesh.positions.push(v3);
    let mut j: usize = 0;
    while j < 4
        invariant
            0 <= j <= 4,
            mesh.normals@ == old(mesh).normals@ + Seq::new(j as nat, |t: int| n),
            mesh.faces@ == old(mesh).faces@ + Seq::new(j as nat, |t: int| face),
            mesh.blocks@ == old(mesh).blocks@ + Seq::new(j as nat, |t: int| block),
            mesh.positions@ == old(mesh).positions@ + seq![v0, v1, v2, v3],
            mesh.indices@ == old(mesh).indices@,
        decreases 4 - j,
    {
        let ghost pn = mesh.normals@;
        let ghost pf = mesh.faces@;
        let ghost pb = mesh.blocks@;
        mesh.normals.push(n);
        mesh.faces.push(face);
        mesh.blocks.push(block);
        assert(mesh.normals@ =~= old(mesh).normals@ + Seq::new((j + 1) as nat, |t: int| n));
        assert(mesh.faces@ =~= old(mesh).faces@ + Seq::new((j + 1) as nat, |t: int| face));
        assert(mesh.blocks@ =~= old(mesh).blocks@ + Seq::new((j + 1) as nat, |t: int| block));
        j += 1;
    }
    mesh.indices.push(base);
    mesh.indices.push(base + 1);
    mesh.indices.push(base + 2);
    mesh.indices.push(base);
    mesh.indices.push(base + 2);
    mesh.indices.push(base + 3);
    proof {
        let nq = q.push(quad);
        assert(corner(quad, 0) == v0 && corner(quad, 1) == v1 && corner(quad, 2) == v2 && corner(quad, 3) == v3);
        assert(mesh.positions@.len() == 4 * nq.len());
        assert(mesh.indices@.len() == 6 * nq.len());
        assert(mesh.normals@.len() == 4 * nq.len());
        assert forall|k: int, jj: int| 0 <= k < nq.len() && 0 <= jj < 4 implies
            #[trigger] mesh.positions@[4 * k + jj] == corner(nq[k], jj) by {
            if k < q.len() {
                assert(old(mesh).positions@[4 * k + jj] == corner(q[k], jj));
            } else {
                assert(nq[k] == quad);
            }
        }
        assert forall|k: int, jj: int| 0 <= k < nq.len() && 0 <= jj < 4 implies
            #[trigger] mesh.normals@[4 * k + jj] == spec_normal(nq[k].face) by {
            if k < q.len() {
                assert(old(mesh).normals@[4 * k + jj] == spec_normal(q[k].face));
            } else {
                assert(nq[k] == quad);
            }
        }
        assert forall|k: int, jj: int| 0 <= k < nq.len() && 0 <= jj < 4 implies
            #[trigger] mesh.faces@[4 * k + jj] == nq[k].face by {
            if k < q.len() {
                assert(old(mesh).faces@[4 * k + jj] == q[k].face);
            } else {
                assert(nq[k] == quad);
            }
        }
        assert forall|k: int, jj: int| 0 <= k < nq.len() && 0 <= jj < 4 implies
            #[trigger] mesh.blocks@[4 * k + jj] == nq[k].block by {
            if k < q.len() {
                assert(old(mesh).blocks@[4 * k + jj] == q[k].block);
            } else {
                assert(nq[k] == quad);
            }
        }
        assert forall|k: int, t: int| 0 <= k < nq.len() && 0 <= t < 6 implies
            #[trigger] mesh.indices@[6 * k + t] == 4 * k + tri_offset(t) by {
            if k < q.len() {
                assert(old(mesh).indices@[6 * k + t] == 4 * k + tri_offset(t));
                assert(mesh.indices@[6 * k + t] == old(mesh).indices@[6 * k + t]);
            } else {
                assert(k == q.len());
            }
        }
        assert(mesh_holds(mesh, nq));
    }
}

/// Whether face `face` of the block at local cell (x, y, z) is drawn.
fn face_is_visible(chunk: &ChunkData, x: usize, y: usize, z: usize, face: Face) -> (r: bool)
    requires
        chunk.wf(),
        x < CHUNK_SIZE,
        y < CHUNK_HEIGHT,
        z < CHUNK_SIZE,
    ensures
        r == face_visible(chunk@, x as int, y as int, z as int, face),
{
    let block = chunk.get(x, y, z);
    let neighbour = match face {
        Face::Top => chunk.get(x, y + 1, z),
        Face::Bottom => if y == 0 { BlockType::Air } else { chunk.get(x, y - 1, z) },
        Face::North => if z == 0 { BlockType::Air } else { chunk.get(x, y, z - 1) },
        Face::South => chunk.get(x, y, z + 1),
        Face::East => chunk.get(x + 1, y, z),
        Face::West => if x == 0 { BlockType::Air } else { chunk.get(x - 1, y, z) },
    };
    neighbour.is_transparent() && neighbour != block
}

/// Append face `face` of the block at (x, y, z) when it is drawn.
fn add_face_if_visible(
    chunk: &ChunkData,
    mesh: &mut ChunkMesh,
    x: usize,
    y: usize,
    z: usize,
    face: Face,
    Ghost(q): Ghost<Seq<Quad>>,
)
    requires
        chunk.wf(),
        mesh_holds(old(mesh), q),
        x < CHUNK_SIZE,
        y < CHUNK_HEIGHT,
        z < CHUNK_SIZE,
        q.len() <= 6 * TOTAL_BLOCKS + 6,
    ensures
        mesh_holds(final(mesh), q + face_quad(chunk@, x as int, y as int, z as int, face)),
{
    if face_is_visible(chunk, x, y, z, face) {
        let block = chunk.get(x, y, z);
        add_face(mesh, x as u32, y as u32, z as u32, face, block, Ghost(q));
        assert(q.push(Quad { x: x as u32, y: y as u32, z: z as u32, face, block })
            =~= q + face_quad(chunk@, x as int, y as int, z as int, face));
    } else {
        assert(q + face_quad(chunk@, x as int, y as int, z as int, face) =~= q);
    }
}

/// Append the drawn faces of the block at local cell (x, y, z), in the order
/// top, bottom, north, south, east, west.
fn add_block_faces(chunk: &ChunkData, mesh: &mut ChunkMesh, x: usize, y: usize, z: usize, Ghost(q): Ghost<Seq<Quad>>)
    requires
        chunk.wf(),
        mesh_holds(old(mesh), q),
        x < CHUNK_SIZE,
        y < CHUNK_HEIGHT,
        z < CHUNK_SIZE,
        q.len() <= 6 * TOTAL_BLOCKS,
    ensures
        mesh_holds(final(mesh), q + block_quads(chunk@, x as int, y as int, z as int)),
{
    let ghost c = chunk@;
    let ghost xi = x as int;
    let ghost yi = y as int;
    let ghost zi = z as int;
    if chunk.get(x, y, z) == BlockType::Air {
        assert(q + block_quads(c, xi, yi, zi) =~= q);
        return;
    }
    let ghost a0 = q;
    add_face_if_visible(chunk, mesh, x, y, z, Face::Top, Ghost(a0));
    let ghost a1 = a0 + face_quad(c, xi, yi, zi, Face::Top);
    add_face_if_visible(chunk, mesh, x, y, z, Face::Bottom, Ghost(a1));
    let ghost a2 = a1 + face_quad(c, xi, yi, zi, Face::Bottom);
    add_face_if_visible(chunk, mesh, x, y, z, Face::North, Ghost(a2));
    let ghost a3 = a2 + face_quad(c, xi, yi, zi, Face::North);
    add_face_if_visible(chunk, mesh, x, y, z, Face::South, Ghost(a3));
    let ghost a4 = a3 + face_quad(c, xi, yi, zi, Face::South);
    add_face_if_visible(chunk, mesh, x, y, z, Face::East, Ghost(a4));
    let ghost a5 = a4 + face_quad(c, xi, yi, zi, Face::East);
    add_face_if_visible(chunk, mesh, x, y, z, Face::West, Ghost(a5));
    assert(a5 + face_quad(c, xi, yi, zi, Face::West) =~= q + block_quads(c, xi, yi, zi));
}

/// The block one step from (x, y, z) along the outward normal of face `f`
/// (air outside the chunk).
pub open spec fn across(c: Seq<BlockType>, x: int, y: int, z: int, f: Face) -> BlockType {
    let n = spec_normal(f);
    spec_get(c, x + n.0 as int, y + n.1 as int, z + n.2 as int)
}

/// Whether face `f` of the block at (x, y, z) faces open space: the block one
/// step along its normal is transparent and of another kind.
pub open spec fn faces_open(c: Seq<BlockType>, x: int, y: int, z: int, f: Face) -> bool {
    let b = spec_get(c, x, y, z);
    let nb = across(c, x, y, z, f);
    spec_is_transparent(nb) && nb != b
}

/// Whether quad `q` is face `f` of the block at (x, y, z) of the chunk.
pub open spec fn quad_at(c: Seq<BlockType>, x: int, y: int, z: int, q: Quad) -> bool {
    &&& q.x == x
    &&& q.y == y
    &&& q.z == z
    &&& q.block == spec_get(c, x, y, z)
}

/// 1 when the face faces open space, else 0.
pub open spec fn open_count(c: Seq<BlockType>, x: int, y: int, z: int, f: Face) -> nat {
    if faces_open(c, x, y, z, f) { 1 } else { 0 }
}

/// A face is culled against the cell one step along its outward normal: it
/// is drawn exactly when that cell is transparent and of another kind.
pub proof fn lemma_face_culled_along_normal(c: Seq<BlockType>, x: int, y: int, z: int, f: Face)
    ensures
        face_visible(c, x, y, z, f) == faces_open(c, x, y, z, f),
{
}

proof fn lemma_all_quads_at_concat(c: Seq<BlockType>, x: int, y: int, z: int, a: Seq<Quad>, b: Seq<Quad>)
    requires
        forall|k: int| 0 <= k < a.len() ==> quad_at(c, x, y, z, #[trigger] a[k]) && faces_open(c, x, y, z, a[k].face),
        forall|k: int| 0 <= k < b.len() ==> quad_at(c, x, y, z, #[trigger] b[k]) && faces_open(c, x, y, z, b[k].face),
    ensures
        forall|k: int| 0 <= k < (a + b).len() ==> quad_at(c, x, y, z, #[trigger] (a + b)[k]) && faces_open(c, x, y, z, (a + b)[k].face),
{
    assert forall|k: int| 0 <= k < (a + b).len() implies quad_at(c, x, y, z, #[trigger] (a + b)[k])
        && faces_open(c, x, y, z, (a + b)[k].face) by {
        if k < a.len() {
            assert((a + b)[k] == a[k]);
        } else {
            assert((a + b)[k] == b[k - a.len()]);
        }
    }
}

proof fn lemma_face_quad_shape(c: Seq<BlockType>, x: int, y: int, z: int, f: Face)
    requires
        in_chunk(x, y, z),
    ensures
        face_quad(c, x, y, z, f).len() == open_count(c, x, y, z, f),
        face_quad(c, x, y, z, f).len() == 1 ==> face_quad(c, x, y, z, f)[0].face == f,
        forall|k: int| 0 <= k < face_quad(c, x, y, z, f).len() ==>
            quad_at(c, x, y, z, #[trigger] face_quad(c, x, y, z, f)[k]) && faces_open(c, x, y, z, face_quad(c, x, y, z, f)[k].face),
{
    lemma_face_culled_along_normal(c, x, y, z, f);
}

/// The quads of one block are exactly its faces that face open space: every
/// quad sits at the block, carries its kind and faces open space; every face
/// of a non-air block that faces open space has a quad; there is one quad
/// per such face; and air has none.
pub proof fn lemma_block_faces(c: Seq<BlockType>, x: int, y: int, z: int)
    requires
        in_chunk(x, y, z),
    ensures
        ({
            let qs = block_quads(c, x, y, z);
            let b = spec_get(c, x, y, z);
            &&& b == BlockType::Air ==> qs.len() == 0
            &&& b != BlockType::Air ==> qs.len() == open_count(c, x, y, z, Face::Top) + open_count(c, x, y, z, Face::Bottom)
                + open_count(c, x, y, z, Face::North) + open_count(c, x, y, z, Face::South)
                + open_count(c, x, y, z, Face::East) + open_count(c, x, y, z, Face::West)
            &&& forall|k: int| 0 <= k < qs.len() ==> quad_at(c, x, y, z, #[trigger] qs[k]) && faces_open(c, x, y, z, qs[k].face)
            &&& forall|f: Face| b != BlockType::Air && #[trigger] faces_open(c, x, y, z, f)
                ==> exists|k: int| 0 <= k < qs.len() && (#[trigger] qs[k]).face == f
        }),
{
    let b = spec_get(c, x, y, z);
    if b == BlockType::Air {
        return;
    }
    let s0 = face_quad(c, x, y, z, Face::Top);
    let s1 = face_quad(c, x, y, z, Face::Bottom);
    let s2 = face_quad(c, x, y, z, Face::North);
    let s3 = face_quad(c, x, y, z, Face::South);
    let s4 = face_quad(c, x, y, z, Face::East);
    let s5 = face_quad(c, x, y, z, Face::West);
    lemma_face_quad_shape(c, x, y, z, Face::Top);
    lemma_face_quad_shape(c, x, y, z, Face::Bottom);
    lemma_face_quad_shape(c, x, y, z, Face::North);
    lemma_face_quad_shape(c, x, y, z, Face::South);
    lemma_face_quad_shape(c, x, y, z, Face::East);
    lemma_face_quad_shape(c, x, y, z, Face::West);
    let p1 = s0 + s1;
    let p2 = p1 + s2;
    let p3 = p2 + s3;
    let p4 = p3 + s4;
    let qs = p4 + s5;
    assert(qs == block_quads(c, x, y, z));
    lemma_all_quads_at_concat(c, x, y, z, s0, s1);
    lemma_all_quads_at_concat(c, x, y, z, p1, s2);
    lemma_all_quads_at_concat(c, x, y, z, p2, s3);
    lemma_all_quads_at_concat(c, x, y, z, p3, s4);
    lemma_all_quads_at_concat(c, x, y, z, p4, s5);
    assert forall|f: Face| #[trigger] faces_open(c, x, y, z, f) implies exists|k: int| 0 <= k < qs.len() && (#[trigger] qs[k]).face == f by {
        match f {
            Face::Top => {
                assert(qs[0] == s0[0]);
            },
            Face::Bottom => {
                let k = s0.len() as int;
                assert(qs[k] == s1[0]);
            },
            Face::North => {
                let k = p1.len() as int;
                assert(qs[k] == s2[0]);
            },
            Face::South => {
                let k = p2.len() as int;
                assert(qs[k] == s3[0]);
            },
            Face::East => {
                let k = p3.len() as int;
                assert(qs[k] == s4[0]);
            },
            Face::West => {
                let k = p4.len() as int;
                assert(qs[k] == s5[0]);
            },
        }
    }
}

/// Build the surface of a chunk: every drawn face of every non-air block, in
/// cell order, as quads with their corners, normals and triangles.
pub fn build_chunk_mesh(chunk: &ChunkData) -> (mesh: ChunkMesh)
    requires
        chunk.wf(),
    ensures
        mesh_holds(&mesh, chunk_quads(chunk@, TOTAL_BLOCKS as nat)),
{
    let mut mesh = ChunkMesh::new();
    let mut i: usize = 0;
    while i < TOTAL_BLOCKS
        invariant
            chunk.wf(),
            i <= TOTAL_BLOCKS,
            mesh_holds(&mesh, chunk_quads(chunk@, i as nat)),
        decreases TOTAL_BLOCKS - i,
    {
        let x = i % CHUNK_SIZE;
        let z = (i / CHUNK_SIZE) % CHUNK_SIZE;
        let y = i / (CHUNK_SIZE * CHUNK_SIZE);
        assert(y < CHUNK_HEIGHT) by (nonlinear_arith)
            requires
                y == i / 256,
                i < 32768,
        ;
        proof {
            lemma_chunk_quads_len(chunk@, i as nat);
        }
        add_block_faces(chunk, &mut mesh, x, y, z, Ghost(chunk_quads(chunk@, i as nat)));
        i += 1;
    }
    mesh
}

/// A block whose six neighbours are all opaque shows no face, and a block
/// (opaque or not) with only air around it shows all six.
pub proof fn lemma_hidden_and_exposed(c: Seq<BlockType>, x: int, y: int, z: int)
    ensures
        spec_get(c, x, y, z) != BlockType::Air && !spec_is_transparent(spec_get(c, x, y + 1, z))
            && !spec_is_transparent(spec_get(c, x, y - 1, z)) && !spec_is_transparent(spec_get(c, x, y, z - 1))
            && !spec_is_transparent(spec_get(c, x, y, z + 1)) && !spec_is_transparent(spec_get(c, x + 1, y, z))
            && !spec_is_transparent(spec_get(c, x - 1, y, z)) ==> block_quads(c, x, y, z).len() == 0,
        spec_get(c, x, y, z) != BlockType::Air && spec_get(c, x, y + 1, z) == BlockType::Air
            && spec_get(c, x, y - 1, z) == BlockType::Air && spec_get(c, x, y, z - 1) == BlockType::Air
            && spec_get(c, x, y, z + 1) == BlockType::Air && spec_get(c, x + 1, y, z) == BlockType::Air
            && spec_get(c, x - 1, y, z) == BlockType::Air ==> block_quads(c, x, y, z).len() == 6,
{
}

} // verus!
