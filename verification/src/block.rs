//! A single block and the quads of its visible faces.

use crate::face::Direction;
use crate::face::Face;
use crate::mesh_data::lemma_inserted_indices_in_range;
use crate::mesh_data::MeshData;
use crate::mesh_data::MeshDataInsert;
use crate::mesh_data::MeshDataView;
use crate::mesh_data::Normal;
use crate::mesh_data::Position;
use crate::mesh_data::PrimitiveTopology;
use crate::mesh_data::Uv;
use crate::mesh_data::Vertex;
use vstd::prelude::*;

verus! {

/// The smallest unit of terrain: solid or air, with the set of its faces
/// that are to be drawn.
#[derive(Clone, Copy, Debug, PartialEq, Eq, Structural)]
pub struct Block {
    /// Draw the block's faces as outlines.
    pub wireframe: bool,
    /// Solid if true, air if false.
    pub activated: bool,
    /// The faces that are to be drawn.
    pub activated_faces: Face,
}

/// The lattice point with the given coordinates.
pub open spec fn position(x: int, y: int, z: int) -> Position {
    (x as i64, y as i64, z as i64)
}

/// The vector with the given components.
pub open spec fn normal(x: int, y: int, z: int) -> Normal {
    (x as i8, y as i8, z as i8)
}

/// The outward unit normal of the face in direction `d`.
pub open spec fn face_normal(d: Direction) -> Normal {
    match d {
        Direction::Front => normal(0, 0, 1),
        Direction::Back => normal(0, 0, -1),
        Direction::Right => normal(1, 0, 0),
        Direction::Left => normal(-1, 0, 0),
        Direction::Top => normal(0, 1, 0),
        Direction::Bottom => normal(0, -1, 0),
    }
}

/// The four corners of the face in direction `d` of a block centred at the
/// origin, in the order in which the quad is drawn.
pub open spec fn face_corners(d: Direction) -> Seq<Position> {
    match d {
        Direction::Front => seq![position(-1, -1, 1), position(1, -1, 1), position(1, 1, 1), position(-1, 1, 1)],
        Direction::Back => seq![position(-1, 1, -1), position(1, 1, -1), position(1, -1, -1), position(-1, -1, -1)],
        Direction::Right => seq![position(1, -1, -1), position(1, 1, -1), position(1, 1, 1), position(1, -1, 1)],
        Direction::Left => seq![position(-1, -1, 1), position(-1, 1, 1), position(-1, 1, -1), position(-1, -1, -1)],
        Direction::Top => seq![position(1, 1, -1), position(-1, 1, -1), position(-1, 1, 1), position(1, 1, 1)],
        Direction::Bottom => seq![position(1, -1, 1), position(-1, -1, 1), position(-1, -1, -1), position(1, -1, -1)],
    }
}

/// The texture coordinates of the four corners of the face in direction `d`.
pub open spec fn face_uvs(d: Direction) -> Seq<Uv> {
    match d {
        Direction::Front | Direction::Right | Direction::Bottom => seq![
            (0, 0),
            (1, 0),
            (1, 1),
            (0, 1),
        ],
        Direction::Back | Direction::Left | Direction::Top => seq![(1, 0), (0, 0), (0, 1), (1, 1)],
    }
}

/// The quad of the face in direction `d` of a block centred at the origin:
/// four vertices that share the face's normal.
pub open spec fn face_quad(d: Direction) -> Seq<Vertex> {
    Seq::new(4, |i: int| (face_corners(d)[i], face_normal(d), face_uvs(d)[i]))
}

/// The indices of a quad's corners, counted from its first vertex.
pub open spec fn quad_indices() -> Seq<u32> {
    seq![0u32, 1u32, 2u32, 3u32]
}

/// The mesh `mesh` with the quad of direction `d` appended if `faces` holds
/// that direction, and unchanged if not.
pub open spec fn with_face(mesh: MeshDataView, faces: Face, d: Direction) -> MeshDataView {
    if faces.spec_contains(d) {
        mesh.inserted(face_quad(d), quad_indices(), MeshDataInsert::spec_all())
    } else {
        mesh
    }
}

/// How many of the six faces `faces` holds.
pub open spec fn face_count(faces: Face) -> nat {
    let one = |d: Direction| if faces.spec_contains(d) { 1nat } else { 0nat };
    one(Direction::Front) + one(Direction::Back) + one(Direction::Right) + one(Direction::Left)
        + one(Direction::Top) + one(Direction::Bottom)
}

/// The quad of a face lies on that face of the block. Every corner of it
/// lies half a block from the centre along each axis, on the side of the
/// face along the face's axis; all four corners share the normal, which is
/// the unit vector in the face's direction; and the four corners differ, as
/// do their texture coordinates, which are the corners of the unit square.
pub proof fn lemma_quad_geometry(d: Direction, i: int, j: int)
    requires
        0 <= i < 4,
        0 <= j < 4,
    ensures
        face_quad(d).len() == 4,
        ({
            let (p, n, uv) = face_quad(d)[i];
            &&& n == face_normal(d)
            &&& (n.0 as int, n.1 as int, n.2 as int) == d.step()
            &&& (p.0 == 1 || p.0 == -1) && (p.1 == 1 || p.1 == -1) && (p.2 == 1 || p.2 == -1)
            &&& p.0 * n.0 + p.1 * n.1 + p.2 * n.2 == 1
            &&& uv.0 <= 1 && uv.1 <= 1
            &&& i != j ==> p != face_quad(d)[j].0 && uv != face_quad(d)[j].2
        }),
{
}

/// The mesh of a block holds four vertices for each of its quads, in all
/// three attributes, and for each quad the indices of two triangles or, in
/// wireframe, of four lines. Every index names a vertex of the mesh.
pub proof fn lemma_block_mesh_size(block: Block)
    ensures
        block.spec_mesh_data().primitive_topology == block.spec_topology(),
        block.spec_mesh_data().in_sync(),
        block.spec_mesh_data().indices_in_range(),
        block.spec_mesh_data().vertex_positions.len() == 4 * block.spec_quad_count(),
        block.spec_mesh_data().indices.len() == (if block.wireframe {
            8 * block.spec_quad_count()
        } else {
            6 * block.spec_quad_count()
        }),
        block.spec_quad_count() <= 6,
{
    reveal(Block::spec_mesh_data);
    if block.activated {
        let f = block.activated_faces;
        let m0 = MeshDataView::empty(block.spec_topology());
        let m1 = with_face(m0, f, Direction::Front);
        lemma_with_face_size(m0, f, Direction::Front);
        let m2 = with_face(m1, f, Direction::Back);
        lemma_with_face_size(m1, f, Direction::Back);
        let m3 = with_face(m2, f, Direction::Right);
        lemma_with_face_size(m2, f, Direction::Right);
        let m4 = with_face(m3, f, Direction::Left);
        lemma_with_face_size(m3, f, Direction::Left);
        let m5 = with_face(m4, f, Direction::Top);
        lemma_with_face_size(m4, f, Direction::Top);
        lemma_with_face_size(m5, f, Direction::Bottom);
    }
}

/// Appending the quad of a face that is to be drawn adds four vertices and
/// the indices of the quad's primitives, and keeps the mesh in order.
proof fn lemma_with_face_size(mesh: MeshDataView, faces: Face, d: Direction)
    requires
        mesh.in_sync(),
        mesh.indices_in_range(),
        mesh.vertex_positions.len() <= 20,
    ensures
        with_face(mesh, faces, d).primitive_topology == mesh.primitive_topology,
        with_face(mesh, faces, d).in_sync(),
        with_face(mesh, faces, d).indices_in_range(),
        with_face(mesh, faces, d).vertex_positions.len() == mesh.vertex_positions.len() + (if faces.spec_contains(
            d,
        ) {
            4int
        } else {
            0int
        }),
        with_face(mesh, faces, d).indices.len() == mesh.indices.len() + (if faces.spec_contains(d) {
            if mesh.primitive_topology == PrimitiveTopology::LineList {
                8int
            } else {
                6int
            }
        } else {
            0int
        }),
{
    if faces.spec_contains(d) {
        lemma_inserted_indices_in_range(
            mesh,
            face_quad(d),
            quad_indices(),
            MeshDataInsert::spec_all(),
        );
    }
}

/// Whether every coordinate of `p` lies at most one unit from the origin.
pub open spec fn within_block(p: Position) -> bool {
    -1 <= p.0 <= 1 && -1 <= p.1 <= 1 && -1 <= p.2 <= 1
}

/// Whether every position of `mesh` lies at most one unit from the origin
/// along each axis.
pub open spec fn all_within_block(mesh: MeshDataView) -> bool {
    forall|k: int|
        0 <= k < mesh.vertex_positions.len() ==> within_block(#[trigger] mesh.vertex_positions[k])
}

/// The quad of the face in direction `d` of a block centred at the origin.
pub fn face_vertices(d: Direction) -> (quad: Vec<Vertex>)
    ensures
        quad@ == face_quad(d),
{
    let quad: Vec<Vertex> = match d {
        Direction::Front => vec![
            ((-1, -1, 1), (0, 0, 1), (0, 0)),
            ((1, -1, 1), (0, 0, 1), (1, 0)),
            ((1, 1, 1), (0, 0, 1), (1, 1)),
            ((-1, 1, 1), (0, 0, 1), (0, 1)),
        ],
        Direction::Back => vec![
            ((-1, 1, -1), (0, 0, -1), (1, 0)),
            ((1, 1, -1), (0, 0, -1), (0, 0)),
            ((1, -1, -1), (0, 0, -1), (0, 1)),
            ((-1, -1, -1), (0, 0, -1), (1, 1)),
        ],
        Direction::Right => vec![
            ((1, -1, -1), (1, 0, 0), (0, 0)),
            ((1, 1, -1), (1, 0, 0), (1, 0)),
            ((1, 1, 1), (1, 0, 0), (1, 1)),
            ((1, -1, 1), (1, 0, 0), (0, 1)),
        ],
        Direction::Left => vec![
            ((-1, -1, 1), (-1, 0, 0), (1, 0)),
            ((-1, 1, 1), (-1, 0, 0), (0, 0)),
            ((-1, 1, -1), (-1, 0, 0), (0, 1)),
            ((-1, -1, -1), (-1, 0, 0), (1, 1)),
        ],
        Direction::Top => vec![
            ((1, 1, -1), (0, 1, 0), (1, 0)),
            ((-1, 1, -1), (0, 1, 0), (0, 0)),
            ((-1, 1, 1), (0, 1, 0), (0, 1)),
            ((1, 1, 1), (0, 1, 0), (1, 1)),
        ],
        Direction::Bottom => vec![
            ((1, -1, 1), (0, -1, 0), (0, 0)),
            ((-1, -1, 1), (0, -1, 0), (1, 0)),
            ((-1, -1, -1), (0, -1, 0), (1, 1)),
            ((1, -1, -1), (0, -1, 0), (0, 1)),
        ],
    };
    assert(quad@ =~= face_quad(d));
    quad
}

impl Block {
    /// The topology in which the block's faces are drawn.
    pub open spec fn spec_topology(self) -> PrimitiveTopology {
        if self.wireframe {
            PrimitiveTopology::LineList
        } else {
            PrimitiveTopology::TriangleList
        }
    }

    /// The mesh of the block centred at the origin: for a solid block one
    /// quad for each face that is to be drawn, in the order front, back,
    /// right, left, top, bottom; for air nothing.
    #[verifier::opaque]
    pub open spec fn spec_mesh_data(self) -> MeshDataView {
        let none = MeshDataView::empty(self.spec_topology());
        if self.activated {
            let f = self.activated_faces;
            with_face(
                with_face(
                    with_face(
                        with_face(
                            with_face(with_face(none, f, Direction::Front), f, Direction::Back),
                            f,
                            Direction::Right,
                        ),
                        f,
                        Direction::Left,
                    ),
                    f,
                    Direction::Top,
                ),
                f,
                Direction::Bottom,
            )
        } else {
            none
        }
    }

    /// How many quads the block's mesh holds.
    pub open spec fn spec_quad_count(self) -> nat {
        if self.activated {
            face_count(self.activated_faces)
        } else {
            0
        }
    }

    /// A solid block that is drawn filled, with the given faces to be drawn.
    pub fn new(activated_faces: Face) -> (block: Block)
        ensures
            block == (Block { wireframe: false, activated: true, activated_faces }),
    {
        Block { wireframe: false, activated: true, activated_faces }
    }

    /// Appends the quad of direction `d` to `mesh` if that face is to be drawn.
    fn insert_face(&self, mesh: &mut MeshData, d: Direction)
        requires
            old(mesh)@.in_sync(),
            old(mesh)@.indices_in_range(),
            old(mesh)@.vertex_positions.len() <= 20,
            all_within_block(old(mesh)@),
        ensures
            all_within_block(final(mesh)@),
            final(mesh)@ == with_face(old(mesh)@, self.activated_faces, d),
            final(mesh)@.in_sync(),
            final(mesh)@.indices_in_range(),
            final(mesh)@.vertex_positions.len() == old(mesh)@.vertex_positions.len() + (if self.activated_faces.spec_contains(
                d,
            ) {
                4int
            } else {
                0int
            }),
    {
        if self.activated_faces.contains(d) {
            let indices: Vec<u32> = vec![0, 1, 2, 3];
            assert(indices@ =~= quad_indices());
            mesh.insert(face_vertices(d), indices, MeshDataInsert::all());
        }
    }

    /// The mesh of the block centred at the origin: for a solid block one
    /// quad for each face that is to be drawn, for air nothing. A wireframe
    /// block gives a line list, any other a triangle list.
    pub fn mesh_data(&self) -> (mesh: MeshData)
        ensures
            mesh@ == self.spec_mesh_data(),
            mesh@.in_sync(),
            mesh@.indices_in_range(),
            mesh@.vertex_positions.len() == 4 * self.spec_quad_count(),
            all_within_block(mesh@),
    {
        let mut mesh = MeshData::new(
            if self.wireframe {
                PrimitiveTopology::LineList
            } else {
                PrimitiveTopology::TriangleList
            },
        );
        reveal(Block::spec_mesh_data);
        if self.activated {
            self.insert_face(&mut mesh, Direction::Front);
            self.insert_face(&mut mesh, Direction::Back);
            self.insert_face(&mut mesh, Direction::Right);
            self.insert_face(&mut mesh, Direction::Left);
            self.insert_face(&mut mesh, Direction::Top);
            self.insert_face(&mut mesh, Direction::Bottom);
        }
        mesh
    }
}

} // verus!
