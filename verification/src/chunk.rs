//! A chunk of blocks: its activation grid, the culling of hidden faces
//! against the blocks around each block, and the chunk's mesh.

use crate::block::all_within_block;
use crate::block::lemma_block_mesh_size;
use crate::block::within_block;
use crate::block::Block;
use crate::face::Direction;
use crate::face::lemma_from_flags_contains;
use crate::face::Face;
use crate::mesh_data::lemma_inserted_indices_in_range;
use crate::mesh_data::MeshData;
use crate::mesh_data::MeshDataInsert;
use crate::mesh_data::MeshDataView;
use crate::mesh_data::Position;
use crate::mesh_data::PrimitiveTopology;
use crate::mesh_data::Vertex;
use crate::par::par_map_indices;
use crate::vec3::lemma_index_of_cell;
use crate::vec3::UVec3;
use vstd::prelude::*;

verus! {

/// The mathematical content of a [`Chunk`].
pub struct ChunkView {
    pub size: UVec3,
    pub wireframe: bool,
    pub activated: bool,
    pub blocks: Seq<Block>,
}

/// The mathematical content of a [`ChunkNeighbors`].
pub struct ChunkNeighborsView {
    pub front: Option<ChunkView>,
    pub back: Option<ChunkView>,
    pub right: Option<ChunkView>,
    pub left: Option<ChunkView>,
    pub top: Option<ChunkView>,
    pub bottom: Option<ChunkView>,
}

impl ChunkView {
    /// The chunk holds one block for each cell of its grid.
    pub open spec fn wf(self) -> bool {
        self.blocks.len() == self.size.volume()
    }

    /// The block of the cell `(x, y, z)`, or nothing for a cell outside the
    /// grid.
    pub open spec fn block_at(self, x: int, y: int, z: int) -> Option<Block> {
        if self.size.contains(x, y, z) {
            Some(self.blocks[self.size.index_of(x, y, z)])
        } else {
            None
        }
    }

    /// Whether the cell `(x, y, z)` holds no solid block: it holds air or
    /// lies outside the grid.
    pub open spec fn open_at(self, x: int, y: int, z: int) -> bool {
        match self.block_at(x, y, z) {
            Some(block) => !block.activated,
            None => true,
        }
    }

    /// The cell of this chunk that touches the cell `(x, y, z)` of a chunk
    /// of which this one is the neighbour in direction `d`: the cell with
    /// the same coordinates in the plane of the shared boundary, on this
    /// chunk's first layer along the axis of `d` if `d` looks up that axis,
    /// on its last layer if `d` looks down.
    pub open spec fn mirrored(self, d: Direction, x: int, y: int, z: int) -> (int, int, int) {
        match d {
            Direction::Front => (x, y, 0),
            Direction::Back => (x, y, self.size.z - 1),
            Direction::Right => (0, y, z),
            Direction::Left => (self.size.x - 1, y, z),
            Direction::Top => (x, 0, z),
            Direction::Bottom => (x, self.size.y - 1, z),
        }
    }

    /// Whether the face in direction `d` of the block in cell `(x, y, z)` is
    /// visible: the cell next to it in that direction holds no solid block.
    /// A cell beyond the grid is looked up in the neighbour in that
    /// direction; where there is no such neighbour, the face is visible.
    pub open spec fn face_visible(
        self,
        neighbors: ChunkNeighborsView,
        d: Direction,
        x: int,
        y: int,
        z: int,
    ) -> bool {
        let (dx, dy, dz) = d.step();
        if self.size.contains(x + dx, y + dy, z + dz) {
            self.open_at(x + dx, y + dy, z + dz)
        } else {
            match neighbors.get(d) {
                Some(chunk) => {
                    let (mx, my, mz) = chunk.mirrored(d, x, y, z);
                    chunk.open_at(mx, my, mz)
                },
                None => true,
            }
        }
    }

    /// The set of visible faces of the block in cell `(x, y, z)`.
    pub open spec fn visible_faces(self, neighbors: ChunkNeighborsView, x: int, y: int, z: int)
        -> Face {
        Face::spec_from_flags(
            self.face_visible(neighbors, Direction::Front, x, y, z),
            self.face_visible(neighbors, Direction::Back, x, y, z),
            self.face_visible(neighbors, Direction::Right, x, y, z),
            self.face_visible(neighbors, Direction::Left, x, y, z),
            self.face_visible(neighbors, Direction::Top, x, y, z),
            self.face_visible(neighbors, Direction::Bottom, x, y, z),
        )
    }

    /// The set of visible faces of the block at place `i`.
    pub open spec fn face_mask(self, neighbors: ChunkNeighborsView, i: int) -> Face {
        let (x, y, z) = self.size.coords_of(i);
        self.visible_faces(neighbors, x, y, z)
    }

    /// The chunk after its faces were culled against `neighbors`: every
    /// block takes the chunk's wireframe flag and the set of its visible
    /// faces, and stays solid or air as it was.
    pub open spec fn updated(self, neighbors: ChunkNeighborsView) -> ChunkView {
        ChunkView {
            size: self.size,
            wireframe: self.wireframe,
            activated: self.activated,
            blocks: Seq::new(
                self.blocks.len(),
                |i: int|
                    Block {
                        wireframe: self.wireframe,
                        activated: self.blocks[i].activated,
                        activated_faces: self.face_mask(neighbors, i),
                    },
            ),
        }
    }
}

/// The position `p` of a block centred at the origin, moved to the centre
/// of the cell `(x, y, z)`: two lattice units along an axis for each cell.
pub open spec fn moved_to_cell(p: Position, x: int, y: int, z: int) -> Position {
    ((p.0 + 2 * x) as i64, (p.1 + 2 * y) as i64, (p.2 + 2 * z) as i64)
}

/// The highest number of vertices that the mesh of one block holds: four
/// for each of six faces.
pub const BLOCK_VERTICES: u32 = 24;

impl ChunkView {
    /// The chunk's blocks are few enough for every vertex of its mesh to
    /// have an index of 32 bits.
    pub open spec fn meshable(self) -> bool {
        BLOCK_VERTICES * self.blocks.len() <= u32::MAX
    }

    /// The topology in which the chunk is drawn.
    pub open spec fn topology(self) -> PrimitiveTopology {
        if self.wireframe {
            PrimitiveTopology::LineList
        } else {
            PrimitiveTopology::TriangleList
        }
    }

    /// The vertices of the mesh of the block at place `i`, moved to the
    /// block's cell.
    pub open spec fn block_vertices(self, i: int) -> Seq<Vertex> {
        let mesh = self.blocks[i].spec_mesh_data();
        let (x, y, z) = self.size.coords_of(i);
        Seq::new(
            mesh.vertex_positions.len(),
            |k: int|
                (
                    moved_to_cell(mesh.vertex_positions[k], x, y, z),
                    mesh.vertex_normals[k],
                    mesh.vertex_uvs[k],
                ),
        )
    }

    /// The indices of the mesh of the block at place `i`, counted from the
    /// block's first vertex.
    pub open spec fn block_indices(self, i: int) -> Seq<u32> {
        self.blocks[i].spec_mesh_data().indices
    }

    /// The mesh of the first `n` blocks: the meshes of the blocks, each
    /// moved to its cell, merged in the order of the blocks with shifted
    /// indices.
    pub open spec fn mesh_prefix(self, n: nat) -> MeshDataView
        decreases n,
    {
        if n == 0 {
            MeshDataView::empty(self.topology())
        } else {
            self.mesh_prefix((n - 1) as nat).inserted(
                self.block_vertices(n - 1),
                self.block_indices(n - 1),
                MeshDataInsert::spec_indices_offset(),
            )
        }
    }

    /// How many quads the meshes of the first `n` blocks hold together.
    pub open spec fn quads_before(self, n: nat) -> nat
        decreases n,
    {
        if n == 0 {
            0
        } else {
            self.quads_before((n - 1) as nat) + self.blocks[n - 1].spec_quad_count()
        }
    }

    /// How many quads the chunk's mesh holds: one for each face that is to
    /// be drawn of each solid block, if the chunk is drawn at all.
    pub open spec fn quad_count(self) -> nat {
        if self.activated {
            self.quads_before(self.blocks.len())
        } else {
            0
        }
    }

    /// The chunk's mesh: that of all its blocks if the chunk is drawn, else
    /// an empty one.
    pub open spec fn mesh(self) -> MeshDataView {
        if self.activated {
            self.mesh_prefix(self.blocks.len())
        } else {
            MeshDataView::empty(self.topology())
        }
    }

    /// Whether the block in cell `(x, y, z)` of a chunk generated from the
    /// column heights `heights` is solid: its height in the world, which is
    /// `y` above the chunk's origin at `origin_y`, does not exceed the
    /// height of its column.
    pub open spec fn solid_at(
        heights: Seq<i32>,
        origin_y: int,
        size: UVec3,
        x: int,
        y: int,
        z: int,
    ) -> bool {
        y + origin_y <= heights[x * size.z + z]
    }

    /// The block at place `i` of a freshly generated chunk: solid or air by
    /// the height of its column, drawn filled, with all faces enabled.
    pub open spec fn generated_block(heights: Seq<i32>, origin_y: int, size: UVec3, i: int)
        -> Block {
        let (x, y, z) = size.coords_of(i);
        Block {
            wireframe: false,
            activated: ChunkView::solid_at(heights, origin_y, size, x, y, z),
            activated_faces: Face::spec_all(),
        }
    }

    /// The chunk generated from the column heights `heights`, which holds
    /// the height of the column `(x, z)` at place `x * size.z + z`.
    pub open spec fn generated(heights: Seq<i32>, origin_y: int, size: UVec3) -> ChunkView {
        ChunkView {
            size,
            wireframe: false,
            activated: true,
            blocks: Seq::new(
                size.volume() as nat,
                |i: int| ChunkView::generated_block(heights, origin_y, size, i),
            ),
        }
    }
}

impl ChunkNeighborsView {
    /// The neighbour in direction `d`, if there is one.
    pub open spec fn get(self, d: Direction) -> Option<ChunkView> {
        match d {
            Direction::Front => self.front,
            Direction::Back => self.back,
            Direction::Right => self.right,
            Direction::Left => self.left,
            Direction::Top => self.top,
            Direction::Bottom => self.bottom,
        }
    }

    /// Every neighbour that is there holds one block for each cell of its
    /// grid.
    pub open spec fn wf(self) -> bool {
        forall|d: Direction| (#[trigger] self.get(d)) matches Some(chunk) ==> chunk.wf()
    }
}

/// After culling, the block of a cell holds the face in direction `d`
/// exactly if that face is visible, takes the chunk's wireframe flag, and is
/// solid or air as before.
pub proof fn lemma_updated_block(
    chunk: ChunkView,
    neighbors: ChunkNeighborsView,
    d: Direction,
    x: int,
    y: int,
    z: int,
)
    requires
        chunk.wf(),
        chunk.size.contains(x, y, z),
    ensures
        chunk.updated(neighbors).block_at(x, y, z) matches Some(block) && chunk.block_at(x, y, z)
            matches Some(before) && block.activated == before.activated && block.wireframe
            == chunk.wireframe && block.activated_faces.spec_contains(d) == chunk.face_visible(
            neighbors,
            d,
            x,
            y,
            z,
        ),
{
    lemma_index_of_cell(chunk.size, x, y, z);
    lemma_from_flags_contains(
        d,
        chunk.face_visible(neighbors, Direction::Front, x, y, z),
        chunk.face_visible(neighbors, Direction::Back, x, y, z),
        chunk.face_visible(neighbors, Direction::Right, x, y, z),
        chunk.face_visible(neighbors, Direction::Left, x, y, z),
        chunk.face_visible(neighbors, Direction::Top, x, y, z),
        chunk.face_visible(neighbors, Direction::Bottom, x, y, z),
    );
}

/// Inside a chunk a face is drawn exactly if the block behind it is air:
/// where the cell `(x, y, z)` and the cell next to it in direction `d` both
/// lie in the chunk, culling gives the first the face in direction `d`
/// exactly if the second is not solid. So no face is drawn between two
/// solid blocks, and the face of a solid block towards air is drawn,
/// whatever the neighbours are.
pub proof fn lemma_face_inside_chunk(
    chunk: ChunkView,
    neighbors: ChunkNeighborsView,
    d: Direction,
    x: int,
    y: int,
    z: int,
)
    requires
        chunk.wf(),
        chunk.size.contains(x, y, z),
        chunk.size.contains(x + d.step().0, y + d.step().1, z + d.step().2),
    ensures
        chunk.updated(neighbors).block_at(x, y, z) matches Some(block) && chunk.block_at(
            x + d.step().0,
            y + d.step().1,
            z + d.step().2,
        ) matches Some(next) && block.activated_faces.spec_contains(d) == !next.activated,
{
    lemma_updated_block(chunk, neighbors, d, x, y, z);
}

/// A chunk without a neighbour in direction `d` draws the face in that
/// direction of every block on its boundary in that direction, whichever
/// blocks are solid.
pub proof fn lemma_open_boundary(
    chunk: ChunkView,
    neighbors: ChunkNeighborsView,
    d: Direction,
    x: int,
    y: int,
    z: int,
)
    requires
        chunk.wf(),
        chunk.size.contains(x, y, z),
        !chunk.size.contains(x + d.step().0, y + d.step().1, z + d.step().2),
        neighbors.get(d) is None,
    ensures
        chunk.updated(neighbors).block_at(x, y, z) matches Some(block)
            && block.activated_faces.spec_contains(d),
{
    lemma_updated_block(chunk, neighbors, d, x, y, z);
}

/// Two chunks that are each other's neighbours agree on their shared
/// boundary. Let `b` be the neighbour of `a` in direction `d` and `a` the
/// neighbour of `b` in the opposite direction, let `(x, y, z)` be a cell on
/// the boundary of `a` in direction `d`, and let `b` hold the cell that
/// touches it. Then culling gives the block of `a` the face in direction `d`
/// exactly if the touching block of `b` is not solid, and gives the
/// touching block of `b` the opposite face exactly if the block of `a` is
/// not solid.
pub proof fn lemma_neighbor_symmetry(
    a: ChunkView,
    b: ChunkView,
    neighbors_of_a: ChunkNeighborsView,
    neighbors_of_b: ChunkNeighborsView,
    d: Direction,
    x: int,
    y: int,
    z: int,
)
    requires
        a.wf(),
        b.wf(),
        neighbors_of_a.get(d) == Some(b),
        neighbors_of_b.get(d.spec_opposite()) == Some(a),
        a.size.contains(x, y, z),
        !a.size.contains(x + d.step().0, y + d.step().1, z + d.step().2),
        b.size.contains(b.mirrored(d, x, y, z).0, b.mirrored(d, x, y, z).1, b.mirrored(d, x, y, z).2),
    ensures
        ({
            let (mx, my, mz) = b.mirrored(d, x, y, z);
            &&& a.block_at(x, y, z) matches Some(block_a)
            &&& b.block_at(mx, my, mz) matches Some(block_b)
            &&& a.updated(neighbors_of_a).block_at(x, y, z) matches Some(culled_a)
            &&& b.updated(neighbors_of_b).block_at(mx, my, mz) matches Some(culled_b)
            &&& culled_a.activated_faces.spec_contains(d) == !block_b.activated
            &&& culled_b.activated_faces.spec_contains(d.spec_opposite()) == !block_a.activated
        }),
{
    let (mx, my, mz) = b.mirrored(d, x, y, z);
    lemma_updated_block(a, neighbors_of_a, d, x, y, z);
    lemma_updated_block(b, neighbors_of_b, d.spec_opposite(), mx, my, mz);
    assert(a.mirrored(d.spec_opposite(), mx, my, mz) == (x, y, z));
}

/// The mesh of a chunk's first `n` blocks holds four vertices for each
/// quad of those blocks, in all three attributes, and every index of it
/// names one of its vertices.
pub proof fn lemma_chunk_mesh_size(chunk: ChunkView, n: nat)
    requires
        n <= chunk.blocks.len(),
        chunk.meshable(),
    ensures
        chunk.mesh_prefix(n).primitive_topology == chunk.topology(),
        chunk.mesh_prefix(n).in_sync(),
        chunk.mesh_prefix(n).indices_in_range(),
        chunk.mesh_prefix(n).vertex_positions.len() == 4 * chunk.quads_before(n),
        chunk.quads_before(n) <= 6 * n,
    decreases n,
{
    if n > 0 {
        let before = chunk.mesh_prefix((n - 1) as nat);
        let block = chunk.blocks[n - 1];
        lemma_chunk_mesh_size(chunk, (n - 1) as nat);
        lemma_block_mesh_size(block);
        assert forall|k: int| 0 <= k < chunk.block_indices(n - 1).len() implies (
        #[trigger] chunk.block_indices(n - 1)[k]) < chunk.block_vertices(n - 1).len() by {
            assert(block.spec_mesh_data().indices[k] < block.spec_mesh_data().vertex_positions.len());
        }
        lemma_inserted_indices_in_range(
            before,
            chunk.block_vertices(n - 1),
            chunk.block_indices(n - 1),
            MeshDataInsert::spec_indices_offset(),
        );
    }
}

/// Generation is a function of its inputs: two chunks generated from the
/// same column heights, at the same height in the world and of the same
/// extent, hold the same blocks, solid where the other is solid.
pub proof fn lemma_generation_is_deterministic(
    first: ChunkView,
    second: ChunkView,
    heights: Seq<i32>,
    origin_y: int,
    size: UVec3,
)
    requires
        first == ChunkView::generated(heights, origin_y, size),
        second == ChunkView::generated(heights, origin_y, size),
    ensures
        first.blocks == second.blocks,
        first == second,
        forall|i: int|
            0 <= i < size.volume() ==> (#[trigger] first.blocks[i]).activated
                == second.blocks[i].activated,
{
}

/// A fixed grid of blocks: the unit in which terrain is generated, meshed
/// and streamed.
#[derive(Debug)]
pub struct Chunk {
    /// The extent of the grid in blocks.
    pub size: UVec3,
    /// Draw the chunk as outlines.
    pub wireframe: bool,
    /// The blocks in row-major order: `x` runs slowest, `z` fastest.
    pub blocks: Vec<Block>,
    /// Whether the chunk is drawn at all.
    pub activated: bool,
}

impl View for Chunk {
    type V = ChunkView;

    open spec fn view(&self) -> ChunkView {
        ChunkView {
            size: self.size,
            wireframe: self.wireframe,
            activated: self.activated,
            blocks: self.blocks@,
        }
    }
}

impl Clone for Chunk {
    /// A copy of the chunk, block by block.
    fn clone(&self) -> (chunk: Chunk)
        ensures
            chunk@ == self@,
    {
        let blocks = self.blocks.clone();
        assert(blocks@ =~= self.blocks@);
        Chunk { size: self.size, wireframe: self.wireframe, blocks, activated: self.activated }
    }
}

/// Copies of the chunks next to a chunk in the six directions, taken before
/// its faces are culled.
#[derive(Debug, Clone)]
pub struct ChunkNeighbors {
    pub front: Option<Chunk>,
    pub back: Option<Chunk>,
    pub right: Option<Chunk>,
    pub left: Option<Chunk>,
    pub top: Option<Chunk>,
    pub bottom: Option<Chunk>,
}

/// The view of a chunk that may be missing.
pub open spec fn view_of(chunk: Option<Chunk>) -> Option<ChunkView> {
    match chunk {
        Some(c) => Some(c@),
        None => None,
    }
}

impl View for ChunkNeighbors {
    type V = ChunkNeighborsView;

    open spec fn view(&self) -> ChunkNeighborsView {
        ChunkNeighborsView {
            front: view_of(self.front),
            back: view_of(self.back),
            right: view_of(self.right),
            left: view_of(self.left),
            top: view_of(self.top),
            bottom: view_of(self.bottom),
        }
    }
}

impl Default for ChunkNeighbors {
    /// No neighbour in any direction.
    fn default() -> (n: ChunkNeighbors)
        ensures
            forall|d: Direction| n@.get(d) is None,
            n@.wf(),
    {
        ChunkNeighbors { front: None, back: None, right: None, left: None, top: None, bottom: None }
    }
}

impl ChunkNeighbors {
    /// The neighbour in direction `d`, if there is one.
    pub fn get(&self, d: Direction) -> (chunk: &Option<Chunk>)
        ensures
            view_of(*chunk) == self@.get(d),
    {
        match d {
            Direction::Front => &self.front,
            Direction::Back => &self.back,
            Direction::Right => &self.right,
            Direction::Left => &self.left,
            Direction::Top => &self.top,
            Direction::Bottom => &self.bottom,
        }
    }
}

impl Chunk {
    /// Whether the chunk holds one block for each cell of its grid.
    pub fn is_well_formed(&self) -> (ok: bool)
        ensures
            ok == self@.wf(),
    {
        let count: usize = self.blocks.len();
        match self.size.checked_volume() {
            Some(volume) => count == volume,
            None => false,
        }
    }

    /// Whether the chunk's blocks are few enough for every vertex of its
    /// mesh to have an index of 32 bits.
    pub fn is_meshable(&self) -> (ok: bool)
        ensures
            ok == self@.meshable(),
    {
        self.blocks.len() <= (u32::MAX / BLOCK_VERTICES) as usize
    }

    /// The block of the cell `(x, y, z)`, or nothing for a cell outside the
    /// grid.
    pub fn get_block(&self, x: usize, y: usize, z: usize) -> (block: Option<Block>)
        requires
            self@.wf(),
        ensures
            block == self@.block_at(x as int, y as int, z as int),
    {
        let sx: usize = self.size.x as usize;
        let sy: usize = self.size.y as usize;
        let sz: usize = self.size.z as usize;
        if x >= sx || y >= sy || z >= sz {
            return None;
        }
        proof {
            lemma_index_of_cell(self.size, x as int, y as int, z as int);
            assert(0 <= x * sy <= x * sy * sz && x * sy * sz == x * (sy * sz) && 0 <= y * sz)
                by (nonlinear_arith)
                requires
                    0 <= x,
                    0 <= y,
                    0 <= sy,
                    0 < sz,
            ;
            assert(self.size.index_of(x as int, y as int, z as int) < self.blocks.len());
        }
        Some(self.blocks[x * sy * sz + y * sz + z])
    }

    /// Whether the cell `(x, y, z)` holds no solid block.
    fn is_open(&self, x: usize, y: usize, z: usize) -> (open: bool)
        requires
            self@.wf(),
        ensures
            open == self@.open_at(x as int, y as int, z as int),
    {
        match self.get_block(x, y, z) {
            Some(block) => !block.activated,
            None => true,
        }
    }

    /// Whether the cell of `neighbor` that touches the cell `(x, y, z)` of a
    /// chunk whose neighbour in direction `d` it is holds no solid block.
    /// Without a neighbour the boundary is open.
    fn is_boundary_open(neighbor: &Option<Chunk>, d: Direction, x: usize, y: usize, z: usize) -> (open:
        bool)
        requires
            neighbor matches Some(chunk) ==> chunk@.wf(),
        ensures
            open == match view_of(*neighbor) {
                Some(chunk) => chunk.open_at(
                    chunk.mirrored(d, x as int, y as int, z as int).0,
                    chunk.mirrored(d, x as int, y as int, z as int).1,
                    chunk.mirrored(d, x as int, y as int, z as int).2,
                ),
                None => true,
            },
    {
        match neighbor {
            None => true,
            Some(chunk) => match d {
                Direction::Front => chunk.is_open(x, y, 0),
                Direction::Right => chunk.is_open(0, y, z),
                Direction::Top => chunk.is_open(x, 0, z),
                Direction::Back => chunk.size.z == 0 || chunk.is_open(
                    x,
                    y,
                    chunk.size.z as usize - 1,
                ),
                Direction::Left => chunk.size.x == 0 || chunk.is_open(
                    chunk.size.x as usize - 1,
                    y,
                    z,
                ),
                Direction::Bottom => chunk.size.y == 0 || chunk.is_open(
                    x,
                    chunk.size.y as usize - 1,
                    z,
                ),
            },
        }
    }

    /// Whether the face in direction `d` of the block in cell `(x, y, z)` is
    /// visible.
    fn is_face_visible(
        &self,
        neighbors: &ChunkNeighbors,
        d: Direction,
        x: usize,
        y: usize,
        z: usize,
    ) -> (visible: bool)
        requires
            self@.wf(),
            neighbors@.wf(),
            self@.size.contains(x as int, y as int, z as int),
        ensures
            visible == self@.face_visible(neighbors@, d, x as int, y as int, z as int),
    {
        let neighbor = neighbors.get(d);
        assert(neighbor matches Some(chunk) ==> chunk@.wf()) by {
            assert(neighbors@.get(d) == view_of(*neighbor));
        }
        match d {
            Direction::Front => if z + 1 < self.size.z as usize {
                self.is_open(x, y, z + 1)
            } else {
                Chunk::is_boundary_open(neighbor, d, x, y, z)
            },
            Direction::Back => if z > 0 {
                self.is_open(x, y, z - 1)
            } else {
                Chunk::is_boundary_open(neighbor, d, x, y, z)
            },
            Direction::Right => if x + 1 < self.size.x as usize {
                self.is_open(x + 1, y, z)
            } else {
                Chunk::is_boundary_open(neighbor, d, x, y, z)
            },
            Direction::Left => if x > 0 {
                self.is_open(x - 1, y, z)
            } else {
                Chunk::is_boundary_open(neighbor, d, x, y, z)
            },
            Direction::Top => if y + 1 < self.size.y as usize {
                self.is_open(x, y + 1, z)
            } else {
                Chunk::is_boundary_open(neighbor, d, x, y, z)
            },
            Direction::Bottom => if y > 0 {
                self.is_open(x, y - 1, z)
            } else {
                Chunk::is_boundary_open(neighbor, d, x, y, z)
            },
        }
    }

    /// The set of visible faces of the block at place `i`.
    pub fn face_mask_at(&self, neighbors: &ChunkNeighbors, i: usize) -> (faces: Face)
        requires
            self@.wf(),
            neighbors@.wf(),
            i < self.blocks@.len(),
        ensures
            faces == self@.face_mask(neighbors@, i as int),
    {
        assert(self.size.volume() == self.blocks.len());
        let (x, y, z) = self.size.cell_at(i);
        Face::from_flags(
            self.is_face_visible(neighbors, Direction::Front, x, y, z),
            self.is_face_visible(neighbors, Direction::Back, x, y, z),
            self.is_face_visible(neighbors, Direction::Right, x, y, z),
            self.is_face_visible(neighbors, Direction::Left, x, y, z),
            self.is_face_visible(neighbors, Direction::Top, x, y, z),
            self.is_face_visible(neighbors, Direction::Bottom, x, y, z),
        )
    }
    /// Culls the faces of every block against the blocks around it.
    ///
    /// The face masks of all blocks are computed first, in parallel and from
    /// the chunk as it stands, each block on its own; only then are they
    /// written to the blocks, together with the chunk's wireframe flag.
    /// Which blocks are solid does not change.
    pub fn update(&mut self, chunk_neighbors: &ChunkNeighbors)
        requires
            old(self)@.wf(),
            chunk_neighbors@.wf(),
        ensures
            final(self)@ == old(self)@.updated(chunk_neighbors@),
            final(self)@.wf(),
    {
        let count: usize = self.blocks.len();
        let ghost before = self@;
        let this: &Chunk = &*self;
        let mask_at = |i: usize| -> (mask: Face)
            requires
                i < count,
            ensures
                mask == this@.face_mask(chunk_neighbors@, i as int),
            { this.face_mask_at(chunk_neighbors, i) };
        let faces = par_map_indices(count, mask_at);
        let wireframe: bool = self.wireframe;
        let mut i: usize = 0;
        while i < count
            invariant
                i <= count,
                count == before.blocks.len(),
                faces@.len() == count,
                forall|k: int|
                    0 <= k < count ==> (#[trigger] faces@[k]) == before.face_mask(
                        chunk_neighbors@,
                        k,
                    ),
                wireframe == before.wireframe,
                self.size == before.size,
                self.wireframe == before.wireframe,
                self.activated == before.activated,
                self.blocks@.len() == count,
                forall|k: int|
                    0 <= k < i ==> (#[trigger] self.blocks@[k]) == before.updated(
                        chunk_neighbors@,
                    ).blocks[k],
                forall|k: int| i <= k < count ==> (#[trigger] self.blocks@[k]) == before.blocks[k],
            decreases count - i,
        {
            let mut block: Block = self.blocks[i];
            block.wireframe = wireframe;
            block.activated_faces = faces[i];
            self.blocks.set(i, block);
            i += 1;
        }
        assert(self@.blocks =~= before.updated(chunk_neighbors@).blocks);
    }

    /// The block at place `i` of a chunk generated from the column heights.
    fn generate_block(heights: &Vec<i32>, origin_y: i64, size: UVec3, i: usize) -> (block: Block)
        requires
            heights@.len() == size.x * size.z,
            i < size.volume() <= usize::MAX,
        ensures
            block == ChunkView::generated_block(heights@, origin_y as int, size, i as int),
    {
        let (x, y, z) = size.cell_at(i);
        let sz: usize = size.z as usize;
        assert(heights.len() == size.x * sz);
        assert(0 <= x * sz && x * sz + z < size.x * sz) by (nonlinear_arith)
            requires
                0 <= x < size.x,
                0 <= z < sz,
        ;
        let height: i64 = heights[x * sz + z] as i64;
        let mut block = Block::new(Face::all());
        if !(origin_y <= height - y as i64) {
            block.activated = false;
        }
        block
    }

    /// Generates a chunk of extent `size` from the heights of its columns.
    ///
    /// `heights` holds for each column `(x, z)` of the chunk, at place
    /// `x * size.z + z`, the height of the terrain in blocks. The block in
    /// cell `(x, y, z)` is solid if `y + origin_y` does not exceed that
    /// height, where `origin_y` is the height of the chunk's lowest layer in
    /// the world. Every block starts with all faces enabled; the chunk is
    /// drawn, and drawn filled.
    pub fn new(heights: &Vec<i32>, origin_y: i64, size: UVec3) -> (chunk: Chunk)
        requires
            heights@.len() == size.x * size.z,
            size.volume() <= usize::MAX,
        ensures
            chunk@ == ChunkView::generated(heights@, origin_y as int, size),
            chunk@.wf(),
    {
        let count: usize = match size.checked_volume() {
            Some(n) => n,
            None => 0,
        };
        let block_at = |i: usize| -> (block: Block)
            requires
                i < count,
            ensures
                block == ChunkView::generated_block(heights@, origin_y as int, size, i as int),
            { Chunk::generate_block(heights, origin_y, size, i) };
        let blocks = par_map_indices(count, block_at);
        assert(blocks@ =~= ChunkView::generated(heights@, origin_y as int, size).blocks);
        Chunk { size, wireframe: false, blocks, activated: true }
    }

    /// The vertices and indices of the mesh of the block at place `i`, the
    /// vertices moved to the block's cell.
    fn block_geometry(&self, i: usize) -> (part: (Vec<Vertex>, Vec<u32>))
        requires
            self@.wf(),
            i < self.blocks@.len(),
        ensures
            part.0@ == self@.block_vertices(i as int),
            part.1@ == self@.block_indices(i as int),
            part.0@.len() <= BLOCK_VERTICES,
            forall|k: int| 0 <= k < part.1@.len() ==> (#[trigger] part.1@[k]) < part.0@.len(),
    {
        assert(self.size.volume() == self.blocks.len());
        let (x, y, z) = self.size.cell_at(i);
        let mesh = self.blocks[i].mesh_data();
        let mut vertices: Vec<Vertex> = Vec::new();
        let mut k: usize = 0;
        while k < mesh.vertex_positions.len()
            invariant
                k <= mesh@.vertex_positions.len(),
                i < self@.blocks.len(),
                mesh@ == self@.blocks[i as int].spec_mesh_data(),
                mesh@.in_sync(),
                mesh@.indices_in_range(),
                all_within_block(mesh@),
                (x as int, y as int, z as int) == self.size.coords_of(i as int),
                self.size.contains(x as int, y as int, z as int),
                vertices@.len() == k,
                forall|j: int| 0 <= j < k ==> (#[trigger] vertices@[j]) == self@.block_vertices(i as int)[j],
            decreases mesh@.vertex_positions.len() - k,
        {
            let p: Position = mesh.vertex_positions[k];
            assert(within_block(mesh@.vertex_positions[k as int]));
            vertices.push(
                (
                    (p.0 + 2 * x as i64, p.1 + 2 * y as i64, p.2 + 2 * z as i64),
                    mesh.vertex_normals[k],
                    mesh.vertex_uvs[k],
                ),
            );
            k += 1;
        }
        assert(vertices@ =~= self@.block_vertices(i as int));
        assert forall|k: int| 0 <= k < mesh.indices@.len() implies (#[trigger] mesh.indices@[k])
            < vertices@.len() by {
            assert(mesh@.indices[k] < mesh@.vertex_positions.len());
        }
        (vertices, mesh.indices)
    }

    /// The chunk's mesh: for a chunk that is drawn, the meshes of its
    /// blocks, each moved to its cell, merged in ascending order of the
    /// blocks with shifted indices; for one that is not drawn, nothing. A
    /// wireframe chunk gives a line list, any other a triangle list.
    pub fn mesh_data(&self) -> (mesh: MeshData)
        requires
            self@.wf(),
            self@.meshable(),
        ensures
            mesh@ == self@.mesh(),
            mesh@.in_sync(),
            mesh@.indices_in_range(),
            mesh@.vertex_positions.len() == 4 * self@.quad_count(),
    {
        proof {
            lemma_chunk_mesh_size(self@, self@.blocks.len());
        }
        let mut mesh = MeshData::new(
            if self.wireframe {
                PrimitiveTopology::LineList
            } else {
                PrimitiveTopology::TriangleList
            },
        );
        if self.activated {
            let count: usize = self.blocks.len();
            let geometry_at = |i: usize| -> (part: (Vec<Vertex>, Vec<u32>))
                requires
                    i < count,
                ensures
                    part.0@ == self@.block_vertices(i as int),
                    part.1@ == self@.block_indices(i as int),
                    part.0@.len() <= BLOCK_VERTICES,
                    forall|k: int|
                        0 <= k < part.1@.len() ==> (#[trigger] part.1@[k]) < part.0@.len(),
                { self.block_geometry(i) };
            let parts = par_map_indices(count, geometry_at);
            let ghost merged = parts@;
            for part in iter: parts
                invariant
                    iter.seq() == merged,
                    merged.len() == count,
                    count == self@.blocks.len(),
                    self@.meshable(),
                    forall|j: int|
                        0 <= j < count ==> {
                            &&& (#[trigger] merged[j]).0@ == self@.block_vertices(j)
                            &&& merged[j].1@ == self@.block_indices(j)
                            &&& merged[j].0@.len() <= BLOCK_VERTICES
                            &&& forall|k: int|
                                0 <= k < merged[j].1@.len() ==> (#[trigger] merged[j].1@[k])
                                    < merged[j].0@.len()
                        },
                    mesh@ == self@.mesh_prefix(iter.index() as nat),
                    mesh@.in_sync(),
                    mesh@.indices_in_range(),
                    mesh@.vertex_positions.len() <= BLOCK_VERTICES * iter.index(),
            {
                proof {
                    assert(part == merged[iter.index()]);
                    assert(mesh@.accepts(part.1@, MeshDataInsert::spec_indices_offset()));
                    lemma_inserted_indices_in_range(
                        mesh@,
                        part.0@,
                        part.1@,
                        MeshDataInsert::spec_indices_offset(),
                    );
                }
                mesh.insert(part.0, part.1, MeshDataInsert::indices_offset());
            }
        }
        mesh
    }

}

} // verus!
