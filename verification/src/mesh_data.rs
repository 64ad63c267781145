//! Vertex and index buffers that a mesh is assembled in.
//!
//! Positions are lattice points: every coordinate counts half block extents,
//! so that a block's corners lie one unit from its centre along each axis.
//! Whoever renders the mesh scales the lattice by half the size of a block.

use vstd::prelude::*;

verus! {

/// A vertex position on the half-block lattice.
pub type Position = (i64, i64, i64);

/// A unit normal along one axis.
pub type Normal = (i8, i8, i8);

/// A texture coordinate: a corner of the unit square.
pub type Uv = (u8, u8);

/// A vertex as it is handed to [`MeshData::insert`]: position, normal and
/// texture coordinate.
pub type Vertex = (Position, Normal, Uv);

/// How the indices of a mesh group its vertices into primitives.
#[derive(Clone, Copy, Debug, PartialEq, Eq, Hash, Structural)]
pub enum PrimitiveTopology {
    /// Every three indices make a triangle.
    TriangleList,
    /// Every two indices make a line.
    LineList,
}

/// What [`MeshData::insert`] does to the indices it is given.
#[derive(Clone, Copy, Debug, PartialEq, Eq, Hash, Structural)]
pub struct MeshDataInsert {
    /// Shift every index by the number of vertices already in the mesh.
    pub indices_offset: bool,
    /// Expand the four indices of a quad into the primitives of the mesh's
    /// topology.
    pub indices_primitive_topology: bool,
}

impl MeshDataInsert {
    /// Neither shifts nor expands: the indices go in as they are.
    pub open spec fn spec_empty() -> MeshDataInsert {
        MeshDataInsert { indices_offset: false, indices_primitive_topology: false }
    }

    /// Shifts the indices and does not expand them.
    pub open spec fn spec_indices_offset() -> MeshDataInsert {
        MeshDataInsert { indices_offset: true, indices_primitive_topology: false }
    }

    /// Expands the indices and does not shift them.
    pub open spec fn spec_indices_primitive_topology() -> MeshDataInsert {
        MeshDataInsert { indices_offset: false, indices_primitive_topology: true }
    }

    /// Both shifts and expands.
    pub open spec fn spec_all() -> MeshDataInsert {
        MeshDataInsert { indices_offset: true, indices_primitive_topology: true }
    }

    /// Neither shifts nor expands: the indices go in as they are.
    #[verifier::when_used_as_spec(spec_empty)]
    pub fn empty() -> (m: MeshDataInsert)
        ensures
            m == MeshDataInsert::spec_empty(),
    {
        MeshDataInsert { indices_offset: false, indices_primitive_topology: false }
    }

    /// Shifts the indices and does not expand them.
    #[verifier::when_used_as_spec(spec_indices_offset)]
    pub fn indices_offset() -> (m: MeshDataInsert)
        ensures
            m == MeshDataInsert::spec_indices_offset(),
    {
        MeshDataInsert { indices_offset: true, indices_primitive_topology: false }
    }

    /// Expands the indices and does not shift them.
    #[verifier::when_used_as_spec(spec_indices_primitive_topology)]
    pub fn indices_primitive_topology() -> (m: MeshDataInsert)
        ensures
            m == MeshDataInsert::spec_indices_primitive_topology(),
    {
        MeshDataInsert { indices_offset: false, indices_primitive_topology: true }
    }

    /// Both shifts and expands.
    #[verifier::when_used_as_spec(spec_all)]
    pub fn all() -> (m: MeshDataInsert)
        ensures
            m == MeshDataInsert::spec_all(),
    {
        MeshDataInsert { indices_offset: true, indices_primitive_topology: true }
    }
}

/// The indices `indices`, each raised by `offset`.
pub open spec fn shifted(indices: Seq<u32>, offset: int) -> Seq<u32> {
    Seq::new(indices.len(), |i: int| (indices[i] + offset) as u32)
}

/// The two triangles `(0, 1, 2)` and `(2, 3, 0)` of the quad whose corners
/// are the four indices of `quad`, each raised by `offset`.
pub open spec fn triangle_fan(quad: Seq<u32>, offset: int) -> Seq<u32> {
    seq![
        (quad[0] + offset) as u32,
        (quad[1] + offset) as u32,
        (quad[2] + offset) as u32,
        (quad[2] + offset) as u32,
        (quad[3] + offset) as u32,
        (quad[0] + offset) as u32,
    ]
}

/// The closed loop of the four lines `(0, 1)`, `(1, 2)`, `(2, 3)` and
/// `(3, 0)` round the quad whose corners are the four indices of `quad`, each
/// raised by `offset`.
pub open spec fn line_loop(quad: Seq<u32>, offset: int) -> Seq<u32> {
    seq![
        (quad[0] + offset) as u32,
        (quad[1] + offset) as u32,
        (quad[1] + offset) as u32,
        (quad[2] + offset) as u32,
        (quad[2] + offset) as u32,
        (quad[3] + offset) as u32,
        (quad[3] + offset) as u32,
        (quad[0] + offset) as u32,
    ]
}

/// The mathematical content of a [`MeshData`].
pub struct MeshDataView {
    pub primitive_topology: PrimitiveTopology,
    pub vertex_positions: Seq<Position>,
    pub vertex_normals: Seq<Normal>,
    pub vertex_uvs: Seq<Uv>,
    pub indices: Seq<u32>,
}

impl MeshDataView {
    /// A mesh of the given topology without vertices or indices.
    pub open spec fn empty(primitive_topology: PrimitiveTopology) -> MeshDataView {
        MeshDataView {
            primitive_topology,
            vertex_positions: Seq::empty(),
            vertex_normals: Seq::empty(),
            vertex_uvs: Seq::empty(),
            indices: Seq::empty(),
        }
    }

    /// Positions, normals and texture coordinates are equally many.
    pub open spec fn in_sync(self) -> bool {
        self.vertex_positions.len() == self.vertex_normals.len() && self.vertex_normals.len()
            == self.vertex_uvs.len()
    }

    /// Every index names a vertex of the mesh.
    pub open spec fn indices_in_range(self) -> bool {
        forall|i: int|
            0 <= i < self.indices.len() ==> (#[trigger] self.indices[i]) < self.vertex_positions.len()
    }

    /// By how much `insert` shifts incoming indices.
    pub open spec fn offset_for(self, insert: MeshDataInsert) -> int {
        if insert.indices_offset {
            self.vertex_positions.len() as int
        } else {
            0
        }
    }

    /// The indices that an insertion appends to the mesh.
    pub open spec fn incoming_indices(self, indices: Seq<u32>, insert: MeshDataInsert) -> Seq<
        u32,
    > {
        if insert.indices_primitive_topology {
            match self.primitive_topology {
                PrimitiveTopology::TriangleList => triangle_fan(indices, self.offset_for(insert)),
                PrimitiveTopology::LineList => line_loop(indices, self.offset_for(insert)),
            }
        } else {
            shifted(indices, self.offset_for(insert))
        }
    }

    /// Whether the mesh can take the indices in the given mode: an expansion
    /// takes the four corners of a quad, and no shifted index may leave the
    /// range of `u32`.
    pub open spec fn accepts(self, indices: Seq<u32>, insert: MeshDataInsert) -> bool {
        &&& insert.indices_primitive_topology ==> indices.len() == 4
        &&& forall|i: int|
            0 <= i < indices.len() ==> (#[trigger] indices[i]) + self.offset_for(insert)
                <= u32::MAX
    }

    /// The mesh after the vertices and indices were inserted in the given mode.
    pub open spec fn inserted(
        self,
        vertices: Seq<Vertex>,
        indices: Seq<u32>,
        insert: MeshDataInsert,
    ) -> MeshDataView {
        MeshDataView {
            primitive_topology: self.primitive_topology,
            vertex_positions: self.vertex_positions + Seq::new(
                vertices.len(),
                |i: int| vertices[i].0,
            ),
            vertex_normals: self.vertex_normals + Seq::new(vertices.len(), |i: int| vertices[i].1),
            vertex_uvs: self.vertex_uvs + Seq::new(vertices.len(), |i: int| vertices[i].2),
            indices: self.indices + self.incoming_indices(indices, insert),
        }
    }
}

/// Every insertion keeps positions, normals and texture coordinates
/// equally many, and adds one of each for every vertex it is given.
pub proof fn lemma_inserted_in_sync(
    mesh: MeshDataView,
    vertices: Seq<Vertex>,
    indices: Seq<u32>,
    insert: MeshDataInsert,
)
    requires
        mesh.in_sync(),
    ensures
        mesh.inserted(vertices, indices, insert).in_sync(),
        mesh.inserted(vertices, indices, insert).vertex_positions.len()
            == mesh.vertex_positions.len() + vertices.len(),
{
}

/// An insertion that shifts its indices keeps every index inside the mesh,
/// provided that the incoming indices name incoming vertices.
pub proof fn lemma_inserted_indices_in_range(
    mesh: MeshDataView,
    vertices: Seq<Vertex>,
    indices: Seq<u32>,
    insert: MeshDataInsert,
)
    requires
        mesh.indices_in_range(),
        mesh.accepts(indices, insert),
        insert.indices_offset,
        forall|k: int| 0 <= k < indices.len() ==> (#[trigger] indices[k]) < vertices.len(),
    ensures
        mesh.inserted(vertices, indices, insert).indices_in_range(),
{
    let after = mesh.inserted(vertices, indices, insert);
    let incoming = mesh.incoming_indices(indices, insert);
    assert forall|i: int| 0 <= i < after.indices.len() implies (#[trigger] after.indices[i])
        < after.vertex_positions.len() by {
        if i >= mesh.indices.len() {
            let j = i - mesh.indices.len();
            assert(after.indices[i] == incoming[j]);
            if insert.indices_primitive_topology {
                assert(indices[0] < vertices.len() && indices[1] < vertices.len() && indices[2]
                    < vertices.len() && indices[3] < vertices.len());
            } else {
                assert(indices[j] < vertices.len());
            }
        } else {
            assert(after.indices[i] == mesh.indices[i]);
        }
    }
}

/// Vertices with their attributes in three parallel sequences, indices into
/// them, and the topology that the indices are read in.
#[derive(Debug, Clone)]
pub struct MeshData {
    pub primitive_topology: PrimitiveTopology,
    pub vertex_positions: Vec<Position>,
    pub vertex_normals: Vec<Normal>,
    pub vertex_uvs: Vec<Uv>,
    pub indices: Vec<u32>,
}

impl View for MeshData {
    type V = MeshDataView;

    open spec fn view(&self) -> MeshDataView {
        MeshDataView {
            primitive_topology: self.primitive_topology,
            vertex_positions: self.vertex_positions@,
            vertex_normals: self.vertex_normals@,
            vertex_uvs: self.vertex_uvs@,
            indices: self.indices@,
        }
    }
}

impl Default for MeshData {
    /// An empty triangle list.
    fn default() -> (m: MeshData)
        ensures
            m@ == MeshDataView::empty(PrimitiveTopology::TriangleList),
    {
        MeshData::new(PrimitiveTopology::TriangleList)
    }
}

impl MeshData {
    /// A mesh of the given topology without vertices or indices.
    pub fn new(primitive_topology: PrimitiveTopology) -> (m: MeshData)
        ensures
            m@ == MeshDataView::empty(primitive_topology),
    {
        MeshData {
            primitive_topology,
            vertex_positions: Vec::new(),
            vertex_normals: Vec::new(),
            vertex_uvs: Vec::new(),
            indices: Vec::new(),
        }
    }

    /// Whether positions, normals and texture coordinates are equally many.
    pub fn is_vertices_in_sync(&self) -> (b: bool)
        ensures
            b == self@.in_sync(),
    {
        self.vertex_positions.len() == self.vertex_normals.len() && self.vertex_normals.len()
            == self.vertex_uvs.len()
    }

    /// Whether [`MeshData::insert`] can take the indices in the given mode.
    pub fn accepts(&self, indices: &Vec<u32>, insert: MeshDataInsert) -> (b: bool)
        ensures
            b == self@.accepts(indices@, insert),
    {
        if insert.indices_primitive_topology && indices.len() != 4 {
            return false;
        }
        if !insert.indices_offset {
            return true;
        }
        let count: usize = self.vertex_positions.len();
        let mut k: usize = 0;
        while k < indices.len()
            invariant
                k <= indices@.len(),
                count == self@.vertex_positions.len(),
                insert.indices_offset,
                forall|i: int| 0 <= i < k ==> (#[trigger] indices@[i]) + count <= u32::MAX,
            decreases indices@.len() - k,
        {
            if count > u32::MAX as usize || indices[k] > u32::MAX - (count as u32) {
                assert(indices@[k as int] + self@.offset_for(insert) > u32::MAX);
                return false;
            }
            k += 1;
        }
        true
    }

    /// Appends the vertices to the three attribute sequences and the indices,
    /// shifted or expanded as `insert` says, to the index sequence.
    ///
    /// With `indices_offset` every incoming index is raised by the number of
    /// vertices that the mesh held before. With `indices_primitive_topology`
    /// the four incoming indices are read as the corners of a quad and
    /// become two triangles in a triangle list, four lines in a line list.
    pub fn insert(&mut self, vertices: Vec<Vertex>, indices: Vec<u32>, insert: MeshDataInsert)
        requires
            old(self)@.in_sync(),
            old(self)@.accepts(indices@, insert),
        ensures
            final(self)@ == old(self)@.inserted(vertices@, indices@, insert),
            final(self)@.in_sync(),
    {
        let indices_offset: u32 = if insert.indices_offset && indices.len() > 0 {
            assert(indices@[0] + self@.offset_for(insert) <= u32::MAX);
            self.vertex_positions.len() as u32
        } else {
            0
        };
        let ghost offset = self@.offset_for(insert);
        let ghost before = self@;
        assert(indices@.len() > 0 ==> indices_offset == offset);
        if insert.indices_primitive_topology {
            match self.primitive_topology {
                PrimitiveTopology::LineList => {
                    self.indices.push(indices[0] + indices_offset);
                    self.indices.push(indices[1] + indices_offset);
                    self.indices.push(indices[1] + indices_offset);
                    self.indices.push(indices[2] + indices_offset);
                    self.indices.push(indices[2] + indices_offset);
                    self.indices.push(indices[3] + indices_offset);
                    self.indices.push(indices[3] + indices_offset);
                    self.indices.push(indices[0] + indices_offset);
                },
                PrimitiveTopology::TriangleList => {
                    self.indices.push(indices[0] + indices_offset);
                    self.indices.push(indices[1] + indices_offset);
                    self.indices.push(indices[2] + indices_offset);
                    self.indices.push(indices[2] + indices_offset);
                    self.indices.push(indices[3] + indices_offset);
                    self.indices.push(indices[0] + indices_offset);
                },
            }
        } else {
            let mut k: usize = 0;
            while k < indices.len()
                invariant
                    k <= indices@.len(),
                    indices@.len() > 0 ==> indices_offset == offset,
                    forall|i: int|
                        0 <= i < indices@.len() ==> (#[trigger] indices@[i]) + offset <= u32::MAX,
                    self.indices@ == before.indices + shifted(indices@, offset).take(k as int),
                    self.primitive_topology == before.primitive_topology,
                    self.vertex_positions@ == before.vertex_positions,
                    self.vertex_normals@ == before.vertex_normals,
                    self.vertex_uvs@ == before.vertex_uvs,
                decreases indices@.len() - k,
            {
                self.indices.push(indices[k] + indices_offset);
                k += 1;
            }
            assert(shifted(indices@, offset).take(k as int) == shifted(indices@, offset));
        }
        assert(self.indices@ == before.indices + before.incoming_indices(indices@, insert));
        let mut k: usize = 0;
        while k < vertices.len()
            invariant
                k <= vertices@.len(),
                self.primitive_topology == before.primitive_topology,
                self.indices@ == before.indices + before.incoming_indices(indices@, insert),
                self.vertex_positions@ == before.vertex_positions + Seq::new(
                    k as nat,
                    |i: int| vertices@[i].0,
                ),
                self.vertex_normals@ == before.vertex_normals + Seq::new(
                    k as nat,
                    |i: int| vertices@[i].1,
                ),
                self.vertex_uvs@ == before.vertex_uvs + Seq::new(k as nat, |i: int| vertices@[i].2),
            decreases vertices@.len() - k,
        {
            let vertex: Vertex = vertices[k];
            self.vertex_positions.push(vertex.0);
            self.vertex_normals.push(vertex.1);
            self.vertex_uvs.push(vertex.2);
            k += 1;
        }
    }
}

} // verus!
