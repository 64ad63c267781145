use voxel_engine::mesh_data::MeshData;
use voxel_engine::mesh_data::MeshDataInsert;
use voxel_engine::mesh_data::PrimitiveTopology;
use voxel_engine::mesh_data::Vertex;

fn vertex(n: i64) -> Vertex {
    ((n, n + 1, n + 2), (0, 1, 0), ((n % 2) as u8, 1))
}

fn quad(start: i64) -> Vec<Vertex> {
    vec![vertex(start), vertex(start + 1), vertex(start + 2), vertex(start + 3)]
}

#[test]
fn new_mesh_is_empty() {
    let mesh = MeshData::new(PrimitiveTopology::LineList);
    assert_eq!(mesh.primitive_topology, PrimitiveTopology::LineList);
    assert!(mesh.vertex_positions.is_empty());
    assert!(mesh.vertex_normals.is_empty());
    assert!(mesh.vertex_uvs.is_empty());
    assert!(mesh.indices.is_empty());
    assert!(mesh.is_vertices_in_sync());
}

#[test]
fn default_mesh_is_an_empty_triangle_list() {
    let mesh = MeshData::default();
    assert_eq!(mesh.primitive_topology, PrimitiveTopology::TriangleList);
    assert!(mesh.vertex_positions.is_empty());
    assert!(mesh.indices.is_empty());
}

#[test]
fn insert_modes_are_the_four_combinations() {
    assert_eq!(
        MeshDataInsert::empty(),
        MeshDataInsert { indices_offset: false, indices_primitive_topology: false }
    );
    assert_eq!(
        MeshDataInsert::indices_offset(),
        MeshDataInsert { indices_offset: true, indices_primitive_topology: false }
    );
    assert_eq!(
        MeshDataInsert::indices_primitive_topology(),
        MeshDataInsert { indices_offset: false, indices_primitive_topology: true }
    );
    assert_eq!(
        MeshDataInsert::all(),
        MeshDataInsert { indices_offset: true, indices_primitive_topology: true }
    );
}

#[test]
fn raw_insert_keeps_indices_unshifted() {
    let mut mesh = MeshData::new(PrimitiveTopology::TriangleList);
    mesh.insert(quad(0), vec![0, 1, 2], MeshDataInsert::empty());
    mesh.insert(quad(10), vec![3, 2, 1, 0, 7], MeshDataInsert::empty());
    assert_eq!(mesh.indices, vec![0, 1, 2, 3, 2, 1, 0, 7]);
    assert_eq!(mesh.vertex_positions.len(), 8);
}

#[test]
fn offset_insert_shifts_by_the_vertex_count() {
    let mut mesh = MeshData::new(PrimitiveTopology::TriangleList);
    mesh.insert(quad(0), vec![0, 1, 2], MeshDataInsert::indices_offset());
    mesh.insert(quad(10), vec![0, 1, 2], MeshDataInsert::indices_offset());
    mesh.insert(vec![vertex(20)], vec![0, 0], MeshDataInsert::indices_offset());
    assert_eq!(mesh.indices, vec![0, 1, 2, 4, 5, 6, 8, 8]);
}

#[test]
fn insert_appends_the_three_attributes_in_order() {
    let mut mesh = MeshData::new(PrimitiveTopology::TriangleList);
    mesh.insert(vec![vertex(5), vertex(8)], vec![], MeshDataInsert::empty());
    assert_eq!(mesh.vertex_positions, vec![(5, 6, 7), (8, 9, 10)]);
    assert_eq!(mesh.vertex_normals, vec![(0, 1, 0), (0, 1, 0)]);
    assert_eq!(mesh.vertex_uvs, vec![(1, 1), (0, 1)]);
    assert!(mesh.indices.is_empty());
}

#[test]
fn triangle_list_expands_a_quad_into_two_triangles() {
    let mut mesh = MeshData::new(PrimitiveTopology::TriangleList);
    mesh.insert(quad(0), vec![0, 1, 2, 3], MeshDataInsert::indices_primitive_topology());
    assert_eq!(mesh.indices, vec![0, 1, 2, 2, 3, 0]);
}

#[test]
fn triangle_list_expansion_with_offset() {
    let mut mesh = MeshData::new(PrimitiveTopology::TriangleList);
    mesh.insert(quad(0), vec![0, 1, 2, 3], MeshDataInsert::all());
    mesh.insert(quad(4), vec![0, 1, 2, 3], MeshDataInsert::all());
    assert_eq!(mesh.indices, vec![0, 1, 2, 2, 3, 0, 4, 5, 6, 6, 7, 4]);
}

#[test]
fn line_list_expands_a_quad_into_a_closed_loop() {
    let mut mesh = MeshData::new(PrimitiveTopology::LineList);
    mesh.insert(quad(0), vec![0, 1, 2, 3], MeshDataInsert::indices_primitive_topology());
    assert_eq!(mesh.indices, vec![0, 1, 1, 2, 2, 3, 3, 0]);
}

#[test]
fn line_list_expansion_with_offset() {
    let mut mesh = MeshData::new(PrimitiveTopology::LineList);
    mesh.insert(quad(0), vec![], MeshDataInsert::empty());
    mesh.insert(quad(4), vec![3, 2, 1, 0], MeshDataInsert::all());
    assert_eq!(mesh.indices, vec![7, 6, 6, 5, 5, 4, 4, 7]);
}

#[test]
fn expansion_without_offset_ignores_earlier_vertices() {
    let mut mesh = MeshData::new(PrimitiveTopology::TriangleList);
    mesh.insert(quad(0), vec![], MeshDataInsert::empty());
    mesh.insert(quad(4), vec![0, 1, 2, 3], MeshDataInsert::indices_primitive_topology());
    assert_eq!(mesh.indices, vec![0, 1, 2, 2, 3, 0]);
}

#[test]
fn vertices_stay_in_sync_after_every_insert() {
    let mut mesh = MeshData::new(PrimitiveTopology::TriangleList);
    assert!(mesh.is_vertices_in_sync());
    for round in 0..5 {
        mesh.insert(quad(round), vec![0, 1, 2, 3], MeshDataInsert::all());
        assert!(mesh.is_vertices_in_sync());
        assert_eq!(mesh.vertex_positions.len(), mesh.vertex_normals.len());
        assert_eq!(mesh.vertex_normals.len(), mesh.vertex_uvs.len());
        assert_eq!(mesh.vertex_positions.len(), 4 * (round as usize + 1));
    }
}

#[test]
fn out_of_sync_mesh_is_reported() {
    let mut mesh = MeshData::new(PrimitiveTopology::TriangleList);
    mesh.vertex_positions.push((0, 0, 0));
    assert!(!mesh.is_vertices_in_sync());
    mesh.vertex_normals.push((0, 0, 1));
    assert!(!mesh.is_vertices_in_sync());
    mesh.vertex_uvs.push((0, 0));
    assert!(mesh.is_vertices_in_sync());
}

#[test]
fn expansion_accepts_exactly_four_indices() {
    let mesh = MeshData::new(PrimitiveTopology::TriangleList);
    let expand = MeshDataInsert::indices_primitive_topology();
    assert!(mesh.accepts(&vec![0, 1, 2, 3], expand));
    assert!(!mesh.accepts(&vec![0, 1, 2], expand));
    assert!(!mesh.accepts(&vec![0, 1, 2, 3, 4], expand));
    assert!(!mesh.accepts(&vec![], expand));
    assert!(mesh.accepts(&vec![0, 1, 2], MeshDataInsert::empty()));
    assert!(mesh.accepts(&vec![], MeshDataInsert::indices_offset()));
}

#[test]
fn offset_must_not_leave_the_index_range() {
    let mut mesh = MeshData::new(PrimitiveTopology::TriangleList);
    mesh.insert(quad(0), vec![], MeshDataInsert::empty());
    assert!(mesh.accepts(&vec![u32::MAX - 4], MeshDataInsert::indices_offset()));
    assert!(!mesh.accepts(&vec![0, u32::MAX - 3], MeshDataInsert::indices_offset()));
    assert!(mesh.accepts(&vec![u32::MAX], MeshDataInsert::empty()));
    assert!(!mesh.accepts(&vec![0, 1, 2, u32::MAX], MeshDataInsert::all()));
}
