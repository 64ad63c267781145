use voxel_engine::block::face_vertices;
use voxel_engine::chunk::Chunk;
use voxel_engine::chunk::ChunkNeighbors;
use voxel_engine::face::Direction;
use voxel_engine::face::Face;
use voxel_engine::mesh_data::PrimitiveTopology;
use voxel_engine::vec3::UVec3;

const DIRECTIONS: [Direction; 6] = [
    Direction::Front,
    Direction::Back,
    Direction::Right,
    Direction::Left,
    Direction::Top,
    Direction::Bottom,
];

/// A chunk whose columns all have the height `height`.
fn flat(size: UVec3, height: i32) -> Chunk {
    let heights = vec![height; (size.x * size.z) as usize];
    Chunk::new(&heights, 0, size)
}

/// A chunk in which exactly the cells for which `solid` holds are solid.
fn shaped(size: UVec3, solid: impl Fn(usize, usize, usize) -> bool) -> Chunk {
    let mut chunk = flat(size, i32::MAX);
    for x in 0..size.x as usize {
        for y in 0..size.y as usize {
            for z in 0..size.z as usize {
                let i = x * (size.y * size.z) as usize + y * size.z as usize + z;
                chunk.blocks[i].activated = solid(x, y, z);
            }
        }
    }
    chunk
}

fn faces_at(chunk: &Chunk, x: usize, y: usize, z: usize) -> Face {
    chunk.get_block(x, y, z).unwrap().activated_faces
}

fn step(d: Direction) -> (i64, i64, i64) {
    match d {
        Direction::Front => (0, 0, 1),
        Direction::Back => (0, 0, -1),
        Direction::Right => (1, 0, 0),
        Direction::Left => (-1, 0, 0),
        Direction::Top => (0, 1, 0),
        Direction::Bottom => (0, -1, 0),
    }
}

#[test]
fn generated_chunk_follows_the_column_heights() {
    let size = UVec3::new(2, 4, 3);
    let heights = vec![0, 1, 2, 3, -1, 5];
    let chunk = Chunk::new(&heights, 0, size);
    assert_eq!(chunk.size, size);
    assert_eq!(chunk.blocks.len(), 24);
    assert!(chunk.activated);
    assert!(!chunk.wireframe);
    for x in 0..2usize {
        for y in 0..4usize {
            for z in 0..3usize {
                let block = chunk.get_block(x, y, z).unwrap();
                assert_eq!(block.activated, y as i32 <= heights[x * 3 + z]);
                assert_eq!(block.activated_faces, Face::all());
                assert!(!block.wireframe);
            }
        }
    }
}

#[test]
fn generated_chunk_counts_height_from_its_origin() {
    let size = UVec3::new(1, 4, 1);
    let heights = vec![9];
    let low = Chunk::new(&heights, 4, size);
    let solid: Vec<bool> = low.blocks.iter().map(|b| b.activated).collect();
    assert_eq!(solid, vec![true, true, true, true]);
    let middle = Chunk::new(&heights, 8, size);
    let solid: Vec<bool> = middle.blocks.iter().map(|b| b.activated).collect();
    assert_eq!(solid, vec![true, true, false, false]);
    let high = Chunk::new(&heights, 12, size);
    let solid: Vec<bool> = high.blocks.iter().map(|b| b.activated).collect();
    assert_eq!(solid, vec![false, false, false, false]);
    let below = Chunk::new(&heights, -100, size);
    let solid: Vec<bool> = below.blocks.iter().map(|b| b.activated).collect();
    assert_eq!(solid, vec![true, true, true, true]);
}

#[test]
fn generation_stands_extreme_heights_and_origins() {
    let size = UVec3::new(1, 2, 1);
    let never = Chunk::new(&vec![i32::MIN], i64::MAX, size);
    assert!(never.blocks.iter().all(|b| !b.activated));
    let always = Chunk::new(&vec![i32::MAX], i64::MIN, size);
    assert!(always.blocks.iter().all(|b| b.activated));
    let edge = Chunk::new(&vec![i32::MIN], i32::MIN as i64, size);
    let solid: Vec<bool> = edge.blocks.iter().map(|b| b.activated).collect();
    assert_eq!(solid, vec![true, false]);
}

#[test]
fn generation_is_deterministic() {
    let size = UVec3::new(5, 6, 7);
    let heights: Vec<i32> = (0..35).map(|i| (i * 7 % 11) - 2).collect();
    let first = Chunk::new(&heights, 1, size);
    let second = Chunk::new(&heights, 1, size);
    assert_eq!(first.size, second.size);
    assert_eq!(first.blocks, second.blocks);
}

#[test]
fn blocks_stand_in_row_major_order() {
    let size = UVec3::new(2, 3, 4);
    let chunk = shaped(size, |x, y, z| (x + 2 * y + 3 * z) % 5 == 0);
    for x in 0..2usize {
        for y in 0..3usize {
            for z in 0..4usize {
                let i = x * 12 + y * 4 + z;
                assert_eq!(chunk.get_block(x, y, z), Some(chunk.blocks[i]));
            }
        }
    }
}

#[test]
fn lookup_outside_the_grid_finds_nothing() {
    let chunk = flat(UVec3::new(2, 3, 4), 1);
    assert!(chunk.get_block(1, 2, 3).is_some());
    assert_eq!(chunk.get_block(2, 0, 0), None);
    assert_eq!(chunk.get_block(0, 3, 0), None);
    assert_eq!(chunk.get_block(0, 0, 4), None);
    assert_eq!(chunk.get_block(usize::MAX, 0, 0), None);
    assert_eq!(chunk.get_block(0, usize::MAX, usize::MAX), None);
}

#[test]
fn empty_chunk_has_no_blocks_and_no_mesh() {
    let mut chunk = Chunk::new(&vec![], 0, UVec3::new(0, 4, 4));
    assert!(chunk.blocks.is_empty());
    assert_eq!(chunk.get_block(0, 0, 0), None);
    chunk.update(&ChunkNeighbors::default());
    let mesh = chunk.mesh_data();
    assert!(mesh.vertex_positions.is_empty());
    assert!(mesh.indices.is_empty());
}

#[test]
fn isolated_chunk_shows_every_boundary_face() {
    let size = UVec3::new(3, 3, 3);
    for pattern in 0..4usize {
        let mut chunk = shaped(size, |x, y, z| (x + y * 2 + z * 3 + pattern) % 3 != 0);
        chunk.update(&ChunkNeighbors::default());
        for x in 0..3usize {
            for y in 0..3usize {
                for z in 0..3usize {
                    let faces = faces_at(&chunk, x, y, z);
                    assert_eq!(faces.contains(Direction::Front), z == 2 || {
                        !chunk.get_block(x, y, z + 1).unwrap().activated
                    });
                    if z == 2 {
                        assert!(faces.contains(Direction::Front));
                    }
                    if z == 0 {
                        assert!(faces.contains(Direction::Back));
                    }
                    if x == 2 {
                        assert!(faces.contains(Direction::Right));
                    }
                    if x == 0 {
                        assert!(faces.contains(Direction::Left));
                    }
                    if y == 2 {
                        assert!(faces.contains(Direction::Top));
                    }
                    if y == 0 {
                        assert!(faces.contains(Direction::Bottom));
                    }
                }
            }
        }
    }
}

#[test]
fn faces_inside_a_chunk_follow_the_block_behind_them() {
    let size = UVec3::new(3, 4, 5);
    let mut chunk = shaped(size, |x, y, z| (x * 7 + y * 5 + z * 3) % 4 < 2);
    let before = chunk.clone();
    chunk.update(&ChunkNeighbors::default());
    for x in 0..3i64 {
        for y in 0..4i64 {
            for z in 0..5i64 {
                let faces = faces_at(&chunk, x as usize, y as usize, z as usize);
                for d in DIRECTIONS {
                    let (dx, dy, dz) = step(d);
                    let (nx, ny, nz) = (x + dx, y + dy, z + dz);
                    let inside = (0..3).contains(&nx) && (0..4).contains(&ny) && (0..5).contains(&nz);
                    let expected = if inside {
                        !before.get_block(nx as usize, ny as usize, nz as usize).unwrap().activated
                    } else {
                        true
                    };
                    assert_eq!(faces.contains(d), expected);
                }
            }
        }
    }
}

#[test]
fn update_keeps_activation_and_copies_the_wireframe_flag() {
    let size = UVec3::new(2, 2, 2);
    let mut chunk = shaped(size, |x, y, z| (x + y + z) % 2 == 0);
    chunk.wireframe = true;
    let before = chunk.clone();
    chunk.update(&ChunkNeighbors::default());
    assert_eq!(chunk.size, before.size);
    assert_eq!(chunk.activated, before.activated);
    assert!(chunk.wireframe);
    assert_eq!(chunk.blocks.len(), before.blocks.len());
    for (block, old) in chunk.blocks.iter().zip(before.blocks.iter()) {
        assert_eq!(block.activated, old.activated);
        assert!(block.wireframe);
    }
}

#[test]
fn air_blocks_get_a_face_mask_too() {
    let mut chunk = shaped(UVec3::new(1, 1, 2), |_, _, z| z == 1);
    chunk.update(&ChunkNeighbors::default());
    let air = chunk.get_block(0, 0, 0).unwrap();
    assert!(!air.activated);
    assert_eq!(air.activated_faces.bits(), 0b111110);
    let solid = chunk.get_block(0, 0, 1).unwrap();
    assert_eq!(solid.activated_faces.bits(), 0b111111);
}

#[test]
fn front_and_back_neighbours_agree_on_the_shared_boundary() {
    let size = UVec3::new(3, 2, 4);
    let a = shaped(size, |x, y, _| (x + y) % 2 == 0);
    let b = shaped(size, |x, y, z| z > 0 || (x * 2 + y) % 3 == 0);
    let mut culled_a = a.clone();
    culled_a.update(&ChunkNeighbors { front: Some(b.clone()), ..ChunkNeighbors::default() });
    let mut culled_b = b.clone();
    culled_b.update(&ChunkNeighbors { back: Some(a.clone()), ..ChunkNeighbors::default() });
    for x in 0..3usize {
        for y in 0..2usize {
            let of_a = a.get_block(x, y, 3).unwrap();
            let of_b = b.get_block(x, y, 0).unwrap();
            assert_eq!(
                faces_at(&culled_a, x, y, 3).contains(Direction::Front),
                !of_b.activated
            );
            assert_eq!(
                faces_at(&culled_b, x, y, 0).contains(Direction::Back),
                !of_a.activated
            );
        }
    }
}

#[test]
fn each_neighbour_is_sampled_on_its_mirrored_plane() {
    let size = UVec3::new(3, 3, 3);
    let centre = flat(size, i32::MAX);
    let front = shaped(size, |x, y, z| !(z == 0 && x == 1 && y == 1));
    let back = shaped(size, |x, y, z| !(z == 2 && x == 0 && y == 1));
    let right = shaped(size, |x, y, z| !(x == 0 && y == 2 && z == 1));
    let left = shaped(size, |x, y, z| !(x == 2 && y == 0 && z == 1));
    let top = shaped(size, |x, y, z| !(y == 0 && x == 2 && z == 2));
    let bottom = shaped(size, |x, y, z| !(y == 2 && x == 0 && z == 0));
    let mut culled = centre.clone();
    culled.update(&ChunkNeighbors {
        front: Some(front),
        back: Some(back),
        right: Some(right),
        left: Some(left),
        top: Some(top),
        bottom: Some(bottom),
    });
    for x in 0..3usize {
        for y in 0..3usize {
            for z in 0..3usize {
                let faces = faces_at(&culled, x, y, z);
                assert_eq!(faces.contains(Direction::Front), (x, y, z) == (1, 1, 2));
                assert_eq!(faces.contains(Direction::Back), (x, y, z) == (0, 1, 0));
                assert_eq!(faces.contains(Direction::Right), (x, y, z) == (2, 2, 1));
                assert_eq!(faces.contains(Direction::Left), (x, y, z) == (0, 0, 1));
                assert_eq!(faces.contains(Direction::Top), (x, y, z) == (2, 2, 2));
                assert_eq!(faces.contains(Direction::Bottom), (x, y, z) == (0, 0, 0));
            }
        }
    }
}

#[test]
fn smaller_neighbour_leaves_the_uncovered_boundary_open() {
    let mut chunk = flat(UVec3::new(2, 1, 1), i32::MAX);
    let small = flat(UVec3::new(1, 1, 1), i32::MAX);
    chunk.update(&ChunkNeighbors { front: Some(small), ..ChunkNeighbors::default() });
    assert!(!faces_at(&chunk, 0, 0, 0).contains(Direction::Front));
    assert!(faces_at(&chunk, 1, 0, 0).contains(Direction::Front));
}

#[test]
fn empty_neighbour_leaves_the_boundary_open() {
    let mut chunk = flat(UVec3::new(1, 1, 1), i32::MAX);
    let nothing = Chunk::new(&vec![], 0, UVec3::new(0, 0, 0));
    chunk.update(&ChunkNeighbors {
        front: Some(nothing.clone()),
        back: Some(nothing.clone()),
        right: Some(nothing.clone()),
        left: Some(nothing.clone()),
        top: Some(nothing.clone()),
        bottom: Some(nothing),
    });
    assert_eq!(faces_at(&chunk, 0, 0, 0), Face::all());
}

#[test]
fn face_mask_at_matches_update() {
    let size = UVec3::new(2, 3, 2);
    let chunk = shaped(size, |x, y, z| (x + y + z) % 3 != 1);
    let neighbors = ChunkNeighbors { top: Some(chunk.clone()), ..ChunkNeighbors::default() };
    let mut culled = chunk.clone();
    culled.update(&neighbors);
    for i in 0..12usize {
        assert_eq!(chunk.face_mask_at(&neighbors, i), culled.blocks[i].activated_faces);
    }
}

#[test]
fn solid_chunk_under_an_air_layer_shows_its_surface() {
    let size = UVec3::new(4, 5, 4);
    let mut chunk = flat(size, 3);
    chunk.update(&ChunkNeighbors::default());
    for x in 0..4usize {
        for z in 0..4usize {
            assert!(!chunk.get_block(x, 4, z).unwrap().activated);
            let surface = chunk.get_block(x, 3, z).unwrap();
            assert!(surface.activated);
            assert!(surface.activated_faces.contains(Direction::Top));
            for y in 0..3usize {
                let lower = chunk.get_block(x, y, z).unwrap();
                let upper = chunk.get_block(x, y + 1, z).unwrap();
                assert!(lower.activated && upper.activated);
                assert!(!lower.activated_faces.contains(Direction::Top));
                assert!(!upper.activated_faces.contains(Direction::Bottom));
            }
        }
    }
    let mesh = chunk.mesh_data();
    let top_quads = mesh.vertex_normals.chunks(4).filter(|n| n[0] == (0, 1, 0)).count();
    assert_eq!(top_quads, 16);
    let bottom_quads = mesh.vertex_normals.chunks(4).filter(|n| n[0] == (0, -1, 0)).count();
    assert_eq!(bottom_quads, 16);
    let side_quads = mesh.vertex_normals.chunks(4).filter(|n| n[0].1 == 0).count();
    assert_eq!(side_quads, 4 * 4 * 4);
    assert_eq!(mesh.vertex_positions.len(), 4 * (16 + 16 + 64));
    for (position, normal) in mesh.vertex_positions.iter().zip(mesh.vertex_normals.iter()) {
        if *normal == (0, 1, 0) {
            assert_eq!(position.1, 2 * 3 + 1);
        }
        if *normal == (0, -1, 0) {
            assert_eq!(position.1, -1);
        }
    }
}

#[test]
fn chunk_mesh_moves_every_block_to_its_cell() {
    let size = UVec3::new(2, 1, 3);
    let mut chunk = shaped(size, |x, _, z| (x, z) == (0, 0) || (x, z) == (1, 2));
    for block in chunk.blocks.iter_mut() {
        block.activated_faces = Face::empty();
    }
    chunk.blocks[0].activated_faces.set(Direction::Front, true);
    chunk.blocks[5].activated_faces.set(Direction::Top, true);
    chunk.blocks[5].activated_faces.set(Direction::Left, true);
    let mesh = chunk.mesh_data();
    assert_eq!(mesh.primitive_topology, PrimitiveTopology::TriangleList);
    let mut expected = Vec::new();
    for (position, normal, uv) in face_vertices(Direction::Front) {
        expected.push((position, normal, uv));
    }
    for d in [Direction::Left, Direction::Top] {
        for (position, normal, uv) in face_vertices(d) {
            expected.push(((position.0 + 2, position.1, position.2 + 4), normal, uv));
        }
    }
    assert_eq!(mesh.vertex_positions, expected.iter().map(|v| v.0).collect::<Vec<_>>());
    assert_eq!(mesh.vertex_normals, expected.iter().map(|v| v.1).collect::<Vec<_>>());
    assert_eq!(mesh.vertex_uvs, expected.iter().map(|v| v.2).collect::<Vec<_>>());
    assert_eq!(
        mesh.indices,
        vec![0, 1, 2, 2, 3, 0, 4, 5, 6, 6, 7, 4, 8, 9, 10, 10, 11, 8]
    );
}

#[test]
fn chunk_that_is_not_drawn_has_no_mesh() {
    let mut chunk = flat(UVec3::new(2, 2, 2), i32::MAX);
    chunk.update(&ChunkNeighbors::default());
    assert!(!chunk.mesh_data().vertex_positions.is_empty());
    chunk.activated = false;
    let mesh = chunk.mesh_data();
    assert!(mesh.vertex_positions.is_empty());
    assert!(mesh.vertex_normals.is_empty());
    assert!(mesh.vertex_uvs.is_empty());
    assert!(mesh.indices.is_empty());
}

#[test]
fn wireframe_chunk_is_a_line_list() {
    let mut chunk = flat(UVec3::new(1, 1, 1), i32::MAX);
    chunk.wireframe = true;
    chunk.update(&ChunkNeighbors::default());
    let mesh = chunk.mesh_data();
    assert_eq!(mesh.primitive_topology, PrimitiveTopology::LineList);
    assert_eq!(mesh.vertex_positions.len(), 24);
    assert_eq!(mesh.indices.len(), 48);
    assert_eq!(mesh.indices[..8], [0, 1, 1, 2, 2, 3, 3, 0]);
    assert_eq!(mesh.indices[40..], [20, 21, 21, 22, 22, 23, 23, 20]);
}

#[test]
fn chunk_mesh_is_in_sync_and_its_indices_name_vertices() {
    let size = UVec3::new(4, 4, 4);
    let mut chunk = shaped(size, |x, y, z| (x * 3 + y * 5 + z * 7) % 4 != 0);
    chunk.update(&ChunkNeighbors::default());
    let mesh = chunk.mesh_data();
    assert!(mesh.is_vertices_in_sync());
    assert!(!mesh.indices.is_empty());
    assert!(mesh.indices.iter().all(|i| (*i as usize) < mesh.vertex_positions.len()));
    let quads: usize = chunk
        .blocks
        .iter()
        .filter(|b| b.activated)
        .map(|b| b.activated_faces.bits().count_ones() as usize)
        .sum();
    assert_eq!(mesh.vertex_positions.len(), 4 * quads);
    assert_eq!(mesh.indices.len(), 6 * quads);
}

#[test]
fn clone_copies_every_block() {
    let chunk = shaped(UVec3::new(2, 2, 2), |x, y, z| (x + y + z) % 2 == 1);
    let copy = chunk.clone();
    assert_eq!(copy.size, chunk.size);
    assert_eq!(copy.wireframe, chunk.wireframe);
    assert_eq!(copy.activated, chunk.activated);
    assert_eq!(copy.blocks, chunk.blocks);
}

#[test]
fn volume_and_cells_of_an_extent() {
    let size = UVec3::new(2, 3, 4);
    assert_eq!(size.checked_volume(), Some(24));
    assert_eq!(UVec3::new(0, 3, 4).checked_volume(), Some(0));
    assert_eq!(UVec3::new(u32::MAX, u32::MAX, u32::MAX).checked_volume(), None);
    assert_eq!(size.cell_at(0), (0, 0, 0));
    assert_eq!(size.cell_at(3), (0, 0, 3));
    assert_eq!(size.cell_at(4), (0, 1, 0));
    assert_eq!(size.cell_at(12), (1, 0, 0));
    assert_eq!(size.cell_at(23), (1, 2, 3));
    assert_eq!(size.column_at(0), (0, 0));
    assert_eq!(size.column_at(3), (0, 3));
    assert_eq!(size.column_at(4), (1, 0));
    assert_eq!(size.column_at(7), (1, 3));
}

#[test]
fn a_chunk_with_a_missing_block_is_not_well_formed() {
    let mut chunk = flat(UVec3::new(2, 2, 2), 0);
    assert!(chunk.is_well_formed());
    assert!(chunk.is_meshable());
    chunk.blocks.pop();
    assert!(!chunk.is_well_formed());
    chunk.size = UVec3::new(7, 1, 1);
    assert!(chunk.is_well_formed());
    chunk.size = UVec3::new(u32::MAX, u32::MAX, u32::MAX);
    assert!(!chunk.is_well_formed());
}

#[test]
fn neighbours_are_found_by_direction() {
    let marked = |wireframe: bool| {
        let mut chunk = flat(UVec3::new(1, 1, 1), 0);
        chunk.wireframe = wireframe;
        chunk
    };
    let neighbors = ChunkNeighbors {
        front: Some(marked(true)),
        back: None,
        right: Some(marked(false)),
        left: None,
        top: None,
        bottom: Some(marked(true)),
    };
    assert!(neighbors.get(Direction::Front).as_ref().unwrap().wireframe);
    assert!(neighbors.get(Direction::Back).is_none());
    assert!(!neighbors.get(Direction::Right).as_ref().unwrap().wireframe);
    assert!(neighbors.get(Direction::Left).is_none());
    assert!(neighbors.get(Direction::Top).is_none());
    assert!(neighbors.get(Direction::Bottom).as_ref().unwrap().wireframe);
    for d in DIRECTIONS {
        assert!(ChunkNeighbors::default().get(d).is_none());
    }
}
