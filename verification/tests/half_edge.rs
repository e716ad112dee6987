use cfd_rs_utils::errors::MeshError;
use cfd_rs_utils::mesh::computational_mesh::BoundaryPatch;
use cfd_rs_utils::mesh::half_edge::{Modifiable2DMesh, Parent};
use cfd_rs_utils::mesh::indices::{BoundaryPatchIndex, HalfEdgeIndex, ParentIndex, VertexIndex};
use cfd_rs_utils::scalar::{Point2D, Scalar};

fn pt(x: f64, y: f64) -> Point2D {
    Point2D::new(Scalar::from_bits(x.to_bits()), Scalar::from_bits(y.to_bits()))
}

fn fx(s: Scalar) -> f64 {
    f64::from_bits(s.bits)
}

/// The interpolated point on a half-edge at the given ratio, computed as
/// the numeric layer around the library does it.
fn lerp_on_he(mesh: &Modifiable2DMesh, he: HalfEdgeIndex, t: f64) -> Point2D {
    let [v0, v1] = mesh.0.vertices_from_he(he);
    let a = mesh.0.vertices(v0);
    let b = mesh.0.vertices(v1);
    let x = fx(a.x) + (fx(b.x) - fx(a.x)) * t;
    let y = fx(a.y) + (fx(b.y) - fx(a.y)) * t;
    pt(x, y)
}

fn ratio(t: f64) -> Scalar {
    Scalar::from_bits(t.to_bits())
}

fn split(mesh: &mut Modifiable2DMesh, he: usize, t: f64) -> Result<(), MeshError> {
    let he = HalfEdgeIndex(he);
    let pos = if he.0 < mesh.0.he_len() {
        lerp_on_he(mesh, he, t)
    } else {
        pt(0.0, 0.0)
    };
    mesh.split_edge(he, ratio(t), pos)
}

fn cross(a: Point2D, b: Point2D, c: Point2D) -> f64 {
    (fx(b.x) - fx(a.x)) * (fx(c.y) - fx(a.y)) - (fx(b.y) - fx(a.y)) * (fx(c.x) - fx(a.x))
}

/// The geometric verdict handed to `swap_edge`: would either new triangle
/// of the flip be degenerate?
fn aligned_for(mesh: &Modifiable2DMesh, pair: (ParentIndex, ParentIndex)) -> bool {
    match mesh.swap_edge_vertices(pair) {
        Err(_) => false,
        Ok(quad) => {
            let u = mesh.0.vertices(quad[0]);
            let w = mesh.0.vertices(quad[1]);
            let p = mesh.0.vertices(quad[2]);
            let q = mesh.0.vertices(quad[3]);
            cross(p, q, u) == 0.0 || cross(p, q, w) == 0.0
        },
    }
}

fn swap(mesh: &mut Modifiable2DMesh, pair: (ParentIndex, ParentIndex)) -> Result<(), MeshError> {
    let aligned = aligned_for(mesh, pair);
    mesh.swap_edge(pair, aligned)
}

fn simple_mesh() -> Modifiable2DMesh {
    let parents = vec![Parent::Boundary];
    let vertices = vec![pt(0.0, 0.0), pt(1.0, 0.0), pt(1.0, 1.0), pt(0.0, 1.0)];

    let edge_to_vertices_and_parent = vec![
        (
            VertexIndex(0),
            VertexIndex(1),
            (ParentIndex(0), Some(BoundaryPatchIndex(0))),
        ),
        (
            VertexIndex(1),
            VertexIndex(2),
            (ParentIndex(0), Some(BoundaryPatchIndex(0))),
        ),
        (
            VertexIndex(2),
            VertexIndex(3),
            (ParentIndex(0), Some(BoundaryPatchIndex(0))),
        ),
        (
            VertexIndex(3),
            VertexIndex(0),
            (ParentIndex(0), Some(BoundaryPatchIndex(0))),
        ),
    ];

    let boundaries = vec![BoundaryPatch::new("Test".to_string())];

    Modifiable2DMesh::new_from_boundary(vertices, edge_to_vertices_and_parent, parents, boundaries)
}

#[test]
fn new_from_boundary_test_1() {
    let mesh = simple_mesh();

    mesh.0.check_mesh().unwrap();
}

#[test]
fn split_edge_test_1() {
    let mut mesh = simple_mesh();

    split(&mut mesh, 1, 0.5).unwrap();

    split(&mut mesh, 2, 0.2).unwrap();

    mesh.0.check_mesh().unwrap();
}

#[test]
fn add_edge_between_vertices_test_1() {
    let mut mesh = simple_mesh();

    mesh.trimming((VertexIndex(1), VertexIndex(3)), ParentIndex(1))
        .unwrap();

    mesh.0.check_mesh().unwrap();
}

#[test]
fn extract_vertex_from_edge_test_1() {
    let mut mesh = simple_mesh();

    let _ = mesh
        .notching(HalfEdgeIndex(4), pt(0.5, 0.5))
        .unwrap();

    mesh.0.check_mesh().unwrap();
}

#[test]
fn combined_test() {
    let mut mesh = simple_mesh();

    mesh.trimming((VertexIndex(1), VertexIndex(3)), ParentIndex(1))
        .unwrap();

    split(&mut mesh, 8, 0.5).unwrap();

    let new_parent;

    if let Err(MeshError::ParentDoesNotContainVertex {
        vertex: _,
        parent: _,
    }) = mesh.trimming((VertexIndex(4), VertexIndex(0)), ParentIndex(1))
    {
    } else {
        panic!("Trimming did not catch wrong parent use")
    }

    new_parent = mesh
        .trimming((VertexIndex(4), VertexIndex(0)), ParentIndex(2))
        .unwrap();

    if let Err(MeshError::AllignedEdges {
        parent_0: _,
        parent_1: _,
    }) = swap(&mut mesh, (new_parent, ParentIndex(2)))
    {
    } else {
        panic!("Swap Edge did not catch aligned edges (null area triangle creation")
    }

    let value = mesh.0.vertices_len() - 1;
    mesh.set_vertex(VertexIndex(value), pt(0.6, 0.6));

    swap(&mut mesh, (new_parent, ParentIndex(2))).unwrap();

    mesh.0.check_mesh().unwrap();
}

#[test]
fn notching_test() {
    let mut mesh = simple_mesh();
    mesh.notching(HalfEdgeIndex(0), pt(0.5, 0.5)).unwrap();
    let mut boundary = None;
    for (i, parent) in mesh.0.parents().iter().enumerate() {
        if let &Parent::Boundary = parent {
            boundary = Some(i);
            break;
        }
    }
    println!(
        "len boundary {:?}",
        mesh.0
            .vertices_from_parent(ParentIndex(boundary.expect("No boundary after trimming")))
            .len()
    );
    assert!(
        mesh.0
            .vertices_from_parent(ParentIndex(boundary.expect("No boundary after trimming")))
            .len()
            == 4
    )
}
