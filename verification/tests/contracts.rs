use cfd_rs_utils::boundary::Boundary;
use cfd_rs_utils::error::Error;
use cfd_rs_utils::errors::MeshError;
use cfd_rs_utils::indices as block_indices;
use cfd_rs_utils::mesh::boundary::Boundary2D;
use cfd_rs_utils::mesh::computational_mesh::{BoundaryPatch, Computational2DMesh, Patch};
use cfd_rs_utils::mesh::edges::Edge2D;
use cfd_rs_utils::mesh::half_edge::{Base2DMesh, Modifiable2DMesh, Parent};
use cfd_rs_utils::mesh::indices::{BoundaryPatchIndex, CellIndex, HalfEdgeIndex, ParentIndex,
    VertexIndex};
use cfd_rs_utils::mesh::neighbor::Neighbor2D;
use cfd_rs_utils::scalar::{Point2D, Scalar, SCALAR_ONE_BITS};

fn pt(x: f64, y: f64) -> Point2D {
    Point2D::new(Scalar::from_bits(x.to_bits()), Scalar::from_bits(y.to_bits()))
}

fn fx(s: Scalar) -> f64 {
    f64::from_bits(s.bits)
}

fn ratio(t: f64) -> Scalar {
    Scalar::from_bits(t.to_bits())
}

fn unit_square() -> Modifiable2DMesh {
    let parents = vec![Parent::Boundary];
    let vertices = vec![pt(0.0, 0.0), pt(1.0, 0.0), pt(1.0, 1.0), pt(0.0, 1.0)];
    let edges = vec![
        (
            VertexIndex(0),
            VertexIndex(1),
            (ParentIndex(0), Some(BoundaryPatchIndex(0))),
        ),
        (
            VertexIndex(1),
            VertexIndex(2),
            (ParentIndex(0), Some(BoundaryPatchIndex(0))),
        ),
        (
            VertexIndex(2),
            VertexIndex(3),
            (ParentIndex(0), Some(BoundaryPatchIndex(0))),
        ),
        (
            VertexIndex(3),
            VertexIndex(0),
            (ParentIndex(0), Some(BoundaryPatchIndex(0))),
        ),
    ];
    let boundaries = vec![BoundaryPatch::new("Test".to_string())];
    Modifiable2DMesh::new_from_boundary(vertices, edges, parents, boundaries)
}

/// The undirected edges of a mesh, as sorted vertex pairs, sorted.
fn undirected_edges(mesh: &Base2DMesh) -> Vec<(usize, usize)> {
    let mut result = Vec::new();
    let twins = mesh.he_to_twin();
    for h in 0..mesh.he_len() {
        let t = twins[h].0;
        if h < t {
            let a = mesh.vertices_from_he(HalfEdgeIndex(h));
            let lo = a[0].0.min(a[1].0);
            let hi = a[0].0.max(a[1].0);
            result.push((lo, hi));
        }
    }
    result.sort();
    result
}

/// The cell-to-cell adjacency of a mesh, as sorted parent pairs, sorted.
fn adjacency(mesh: &Base2DMesh) -> Vec<(usize, usize)> {
    let mut result = Vec::new();
    let twins = mesh.he_to_twin();
    let parents_of = mesh.he_to_parent();
    for h in 0..mesh.he_len() {
        let p = parents_of[h].0 .0;
        let q = parents_of[twins[h].0].0 .0;
        if matches!(mesh.parents()[p], Parent::Cell) && matches!(mesh.parents()[q], Parent::Cell) {
            let lo = p.min(q);
            let hi = p.max(q);
            if lo != hi && !result.contains(&(lo, hi)) {
                result.push((lo, hi));
            }
        }
    }
    result.sort();
    result
}

#[test]
fn unit_square_counts() {
    let mesh = unit_square();
    assert_eq!(mesh.0.he_len(), 8);
    assert_eq!(mesh.0.parents_len(), 2);
    assert_eq!(mesh.0.vertices_len(), 4);
    assert_eq!(mesh.0.he_from_parent(ParentIndex(0)).len(), 4);
    assert_eq!(mesh.0.he_from_parent(ParentIndex(1)).len(), 4);
    let safe = mesh.validate_topology().unwrap();
    assert_eq!(safe.0.he_len(), 8);
}

#[test]
fn cycles_close_within_he_count() {
    let mesh = unit_square().0;
    let nexts = mesh.he_to_next_he().clone();
    for start in 0..mesh.he_len() {
        let mut current = nexts[start].0;
        let mut steps = 1;
        while current != start {
            current = nexts[current].0;
            steps += 1;
            assert!(steps <= mesh.he_len(), "cycle does not close");
        }
    }
}

#[test]
fn split_adds_two_half_edges_and_one_vertex() {
    let mut mesh = unit_square();
    mesh.split_edge(HalfEdgeIndex(2), ratio(0.5), pt(1.0, 0.5))
        .unwrap();
    assert_eq!(mesh.0.he_len(), 10);
    assert_eq!(mesh.0.vertices_len(), 5);
    let added = mesh.0.vertices(VertexIndex(4));
    assert_eq!(fx(added.x), 1.0);
    assert_eq!(fx(added.y), 0.5);
    // the outer cycle now has five half-edges
    assert_eq!(mesh.0.he_from_parent(ParentIndex(0)).len(), 5);
    assert_eq!(mesh.0.he_from_parent(ParentIndex(1)).len(), 5);
    mesh.0.check_mesh().unwrap();
}

#[test]
fn split_rejects_ratio_bounds() {
    let mut mesh = unit_square();
    let r0 = mesh.split_edge(HalfEdgeIndex(1), ratio(0.0), pt(0.0, 0.0));
    assert!(matches!(r0, Err(MeshError::WrongFloatValue { .. })));
    let r1 = mesh.split_edge(HalfEdgeIndex(1), ratio(1.0), pt(0.0, 0.0));
    assert!(matches!(r1, Err(MeshError::WrongFloatValue { .. })));
    assert_eq!(mesh.0.he_len(), 8);
    assert_eq!(SCALAR_ONE_BITS, 1.0f64.to_bits());
}

#[test]
fn split_rejects_half_edge_out_of_bound() {
    let mut mesh = unit_square();
    let r = mesh.split_edge(HalfEdgeIndex(99), ratio(0.5), pt(0.0, 0.0));
    assert_eq!(
        r,
        Err(MeshError::HalfEdgeIndexOutOfBound {
            got: HalfEdgeIndex(99),
            len: 8
        })
    );
}

#[test]
fn trimming_rejects_existing_edge() {
    let mut mesh = unit_square();
    let r = mesh.trimming((VertexIndex(0), VertexIndex(1)), ParentIndex(1));
    assert_eq!(r, Err(MeshError::AlreadyExists));
    assert_eq!(mesh.0.he_len(), 8);
}

#[test]
fn trimming_rejects_equal_endpoints() {
    let mut mesh = unit_square();
    let r = mesh.trimming((VertexIndex(2), VertexIndex(2)), ParentIndex(1));
    assert_eq!(r, Err(MeshError::WrongMeshInitialisation));
    assert_eq!(mesh.0.he_len(), 8);
}

#[test]
fn trimming_rejects_vertex_out_of_bound() {
    let mut mesh = unit_square();
    let r = mesh.trimming((VertexIndex(9), VertexIndex(0)), ParentIndex(1));
    assert_eq!(
        r,
        Err(MeshError::VertexIndexOutOfBound {
            got: VertexIndex(9),
            len: 4
        })
    );
}

#[test]
fn trimming_rejects_parent_without_vertex() {
    let mut mesh = unit_square();
    let r = mesh.trimming((VertexIndex(0), VertexIndex(2)), ParentIndex(5));
    assert_eq!(
        r,
        Err(MeshError::ParentDoesNotContainVertex {
            vertex: VertexIndex(0),
            parent: ParentIndex(5)
        })
    );
}

#[test]
fn trimming_splits_cell_in_two() {
    let mut mesh = unit_square();
    let new_parent = mesh
        .trimming((VertexIndex(1), VertexIndex(3)), ParentIndex(1))
        .unwrap();
    assert_eq!(new_parent, ParentIndex(2));
    assert_eq!(mesh.0.he_len(), 10);
    assert_eq!(mesh.0.parents_len(), 3);
    assert_eq!(mesh.0.he_from_parent(ParentIndex(1)).len(), 3);
    assert_eq!(mesh.0.he_from_parent(ParentIndex(2)).len(), 3);
    assert!(matches!(mesh.0.parents()[2], Parent::Cell));
    mesh.0.check_mesh().unwrap();
}

#[test]
fn swap_rejects_parent_out_of_bound_and_non_cells() {
    let mut mesh = unit_square();
    let r = mesh.swap_edge((ParentIndex(9), ParentIndex(1)), false);
    assert_eq!(
        r,
        Err(MeshError::ParentIndexOutOfBound {
            got: ParentIndex(9),
            len: 2
        })
    );
    let r2 = mesh.swap_edge((ParentIndex(0), ParentIndex(1)), false);
    assert_eq!(r2, Err(MeshError::WrongMeshInitialisation));
    let r3 = mesh.swap_edge((ParentIndex(1), ParentIndex(1)), false);
    assert_eq!(r3, Err(MeshError::WrongMeshInitialisation));
}

#[test]
fn swap_rejects_aligned_edges() {
    let mut mesh = unit_square();
    mesh.trimming((VertexIndex(1), VertexIndex(3)), ParentIndex(1))
        .unwrap();
    let r = mesh.swap_edge((ParentIndex(1), ParentIndex(2)), true);
    assert_eq!(
        r,
        Err(MeshError::AllignedEdges {
            parent_0: ParentIndex(1),
            parent_1: ParentIndex(2)
        })
    );
    mesh.0.check_mesh().unwrap();
}

#[test]
fn swap_twice_restores_topology() {
    let mut mesh = unit_square();
    mesh.trimming((VertexIndex(1), VertexIndex(3)), ParentIndex(1))
        .unwrap();
    let before_edges = undirected_edges(&mesh.0);
    let before_adjacency = adjacency(&mesh.0);
    let before_vertices = mesh.0.vertices_len();

    let quad = mesh
        .swap_edge_vertices((ParentIndex(1), ParentIndex(2)))
        .unwrap();
    // the flip replaces the shared diagonal with the opposite pair
    mesh.swap_edge((ParentIndex(1), ParentIndex(2)), false).unwrap();
    mesh.0.check_mesh().unwrap();
    let mid_edges = undirected_edges(&mesh.0);
    let new_edge = (
        quad[2].0.min(quad[3].0),
        quad[2].0.max(quad[3].0),
    );
    assert!(mid_edges.contains(&new_edge));
    assert_ne!(before_edges, mid_edges);

    mesh.swap_edge((ParentIndex(1), ParentIndex(2)), false).unwrap();
    mesh.0.check_mesh().unwrap();
    assert_eq!(undirected_edges(&mesh.0), before_edges);
    assert_eq!(adjacency(&mesh.0), before_adjacency);
    assert_eq!(mesh.0.vertices_len(), before_vertices);
}

#[test]
fn notching_adds_vertex_and_cell() {
    let mut mesh = unit_square();
    let new_parent = mesh.notching(HalfEdgeIndex(0), pt(0.5, 0.5)).unwrap();
    assert_eq!(new_parent, ParentIndex(2));
    assert_eq!(mesh.0.vertices_len(), 5);
    assert_eq!(mesh.0.parents_len(), 3);
    assert_eq!(mesh.0.he_len(), 12);
    assert_eq!(mesh.0.he_from_parent(new_parent).len(), 3);
    mesh.0.check_mesh().unwrap();
}

#[test]
fn notching_rejects_half_edge_out_of_bound() {
    let mut mesh = unit_square();
    let r = mesh.notching(HalfEdgeIndex(50), pt(0.5, 0.5));
    assert_eq!(
        r,
        Err(MeshError::HalfEdgeIndexOutOfBound {
            got: HalfEdgeIndex(50),
            len: 8
        })
    );
}

#[test]
fn validate_topology_accepts_square() {
    let mesh = unit_square();
    assert!(mesh.validate_topology().is_ok());
}

#[test]
fn check_mesh_reports_vertex_out_of_bound() {
    let mut mesh = unit_square();
    mesh.0.he_to_vertex[3] = VertexIndex(42);
    let r = mesh.0.check_mesh();
    assert_eq!(
        r,
        Err(MeshError::VertexIndexOutOfBound {
            got: VertexIndex(42),
            len: 4
        })
    );
}

#[test]
fn check_mesh_reports_twin_not_correct() {
    let mut mesh = unit_square();
    mesh.0.he_to_twin[0] = HalfEdgeIndex(3);
    let r = mesh.0.check_mesh();
    assert!(matches!(r, Err(MeshError::TwinNotCorrect { .. })));
}

#[test]
fn check_mesh_reports_half_edge_out_of_bound() {
    let mut mesh = unit_square();
    mesh.0.he_to_next_he[2] = HalfEdgeIndex(77);
    let r = mesh.0.check_mesh();
    assert_eq!(
        r,
        Err(MeshError::HalfEdgeIndexOutOfBound {
            got: HalfEdgeIndex(77),
            len: 8
        })
    );
}

#[test]
fn check_mesh_reports_next_prev_not_correct() {
    let mut mesh = unit_square();
    let kept = mesh.0.he_to_next_he[0];
    mesh.0.he_to_next_he[0] = mesh.0.he_to_next_he[4];
    mesh.0.he_to_next_he[4] = kept;
    let r = mesh.0.check_mesh();
    assert!(matches!(r, Err(MeshError::NextPrevNotCorrect { .. })));
}

#[test]
fn check_mesh_reports_parent_out_of_bound() {
    let mut mesh = unit_square();
    mesh.0.he_to_parent[1].0 = ParentIndex(9);
    let r = mesh.0.check_mesh();
    assert_eq!(
        r,
        Err(MeshError::ParentIndexOutOfBound {
            got: ParentIndex(9),
            len: 2
        })
    );
}

#[test]
fn check_mesh_reports_parent_not_correct() {
    let mut mesh = unit_square();
    mesh.0.he_to_parent[2].0 = ParentIndex(0);
    let r = mesh.0.check_mesh();
    assert!(matches!(r, Err(MeshError::ParentNotCorrect { .. })));
}

#[test]
fn computational_mesh_of_two_triangles() {
    let mut mesh = unit_square();
    mesh.trimming((VertexIndex(1), VertexIndex(3)), ParentIndex(1))
        .unwrap();
    let safe = mesh.validate_topology().unwrap();
    let comp = safe.into_computational();
    assert_eq!(comp.num_cells(), 2);
    assert_eq!(comp.num_faces(), 5);
    assert_eq!(comp.num_vertices(), 4);
    // boundary tags and vertex positions survive the pipeline elementwise
    assert_eq!(comp.boundaries().len(), 1);
    assert_eq!(comp.boundaries()[0].boundary(), "Test");
    let expected = [(0.0, 0.0), (1.0, 0.0), (1.0, 1.0), (0.0, 1.0)];
    for (i, (x, y)) in expected.iter().enumerate() {
        let v = &comp.vertices()[i];
        assert_eq!(fx(v.x), *x);
        assert_eq!(fx(v.y), *y);
    }
    // each triangular cell has three faces and three vertices
    for cell in comp.cells() {
        assert_eq!(cell.faces_id().len(), 3);
        assert_eq!(cell.vertices_id().len(), 3);
    }
    // the two cells are each other's only cell neighbour
    let n0 = comp.neighboring_cells_id(CellIndex(0));
    assert_eq!(n0, vec![CellIndex(1)]);
    let n1 = comp.neighboring_cells_id(CellIndex(1));
    assert_eq!(n1, vec![CellIndex(0)]);
    // each cell sees two boundary patches and one cell
    let p0 = comp.neighboring_patches(CellIndex(0));
    assert_eq!(p0.len(), 3);
    let boundary_sides = p0
        .iter()
        .filter(|p| matches!(p, Patch::Boundary(_)))
        .count();
    assert_eq!(boundary_sides, 2);
}

#[test]
fn face_counts_sum_to_cell_half_edges() {
    let mut mesh = unit_square();
    mesh.trimming((VertexIndex(1), VertexIndex(3)), ParentIndex(1))
        .unwrap();
    let parents = mesh.0.parents().clone();
    let he_parents = mesh.0.he_to_parent().clone();
    let cell_he_count = he_parents
        .iter()
        .filter(|(p, _)| matches!(parents[p.0], Parent::Cell))
        .count();
    let safe = mesh.validate_topology().unwrap();
    let comp = safe.into_computational();
    let face_sum: usize = comp.cells().iter().map(|c| c.faces_id().len()).sum();
    assert_eq!(face_sum, cell_he_count);
    assert_eq!(face_sum, 6);
}

#[test]
fn scalar_open_unit_matches_reals() {
    assert!(Scalar::from_bits(0.5f64.to_bits()).is_in_open_unit());
    assert!(Scalar::from_bits(0.0001f64.to_bits()).is_in_open_unit());
    assert!(!Scalar::from_bits(0.0f64.to_bits()).is_in_open_unit());
    assert!(!Scalar::from_bits(1.0f64.to_bits()).is_in_open_unit());
    assert!(!Scalar::from_bits((-0.5f64).to_bits()).is_in_open_unit());
    assert!(!Scalar::from_bits(1.5f64.to_bits()).is_in_open_unit());
}

#[test]
fn mesh_block_surface_holds_its_data() {
    let edge = Edge2D::new(
        (block_indices::NodeIndex(0), block_indices::NodeIndex(1)),
        (
            Neighbor2D::Cell(block_indices::CellIndex(0)),
            Neighbor2D::Absent,
        ),
    );
    assert_eq!(edge.nodes_idx().0, block_indices::NodeIndex(0));
    assert_eq!(edge.nodes_idx().1, block_indices::NodeIndex(1));

    let boundary = Boundary2D::new(
        vec![block_indices::EdgeIndex(0), block_indices::EdgeIndex(1)],
        vec![block_indices::BoundaryConditionIndex(0)],
    );
    assert_eq!(boundary.edges_idx().len(), 2);
    assert_eq!(boundary.boundary_condition_idx().len(), 1);

    assert_eq!(Boundary::default(), Boundary::Absent);
    let err = Error::NodeOutOfBound {
        index: block_indices::NodeIndex(7),
        length: 3,
    };
    assert!(matches!(err, Error::NodeOutOfBound { .. }));

    let patch = BoundaryPatch::new("wall".to_string());
    assert_eq!(patch.boundary(), "wall");

    assert_eq!(MeshError::default(), MeshError::Unspecified);
    let comp = Computational2DMesh::default();
    assert_eq!(comp.num_cells(), 0);
}

#[test]
fn check_wf_detects_ragged_arrays() {
    let mut mesh = unit_square();
    assert!(mesh.0.check_wf());
    mesh.0.he_to_twin.pop();
    assert!(!mesh.0.check_wf());
}

#[test]
fn parents_coverage_detects_unreachable_cycle() {
    let mut mesh = unit_square();
    assert!(mesh.0.check_parents_coverage());

    // two twin pairs forming two separate cycles under one parent: the
    // integrity checks pass, but the second cycle is unreachable from the
    // parent's first half-edge
    let he = |i: usize| HalfEdgeIndex(i);
    mesh.0.he_to_vertex = vec![VertexIndex(0); 4];
    mesh.0.he_to_twin = vec![he(1), he(0), he(3), he(2)];
    mesh.0.he_to_next_he = vec![he(1), he(0), he(3), he(2)];
    mesh.0.he_to_prev_he = vec![he(1), he(0), he(3), he(2)];
    mesh.0.he_to_parent = vec![(ParentIndex(0), None); 4];
    mesh.0.vertices = vec![pt(0.0, 0.0)];
    mesh.0.parents = vec![Parent::Cell];
    mesh.0.parent_to_first_he = vec![he(0)];
    assert!(mesh.0.check_wf());
    mesh.0.check_mesh().unwrap();
    assert!(!mesh.0.check_parents_coverage());
    // the validation gate also refuses the unreachable cycle
    let r = mesh.validate_topology();
    assert!(matches!(r, Err(MeshError::ParentNotCorrect { .. })));
}
