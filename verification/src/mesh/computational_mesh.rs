use vstd::prelude::*;
use crate::mesh::half_edge::{parents_complete, Base2DMesh, Parent, Safe2DMesh};
use crate::mesh::indices::{BoundaryPatchIndex, CellIndex, FaceIndex, ParentIndex, VertexIndex};
use crate::mesh::topology::lemma_cycle_closes;
use crate::scalar::Point2D;

verus! {

/// A named boundary region ("inlet", "wall", ...).  The faces belonging to
/// it are found by filtering, not stored here.
#[derive(Clone, Debug, Default, PartialEq)]
pub struct BoundaryPatch {
    pub name: String,
}

impl BoundaryPatch {
    pub fn new(name: String) -> (r: BoundaryPatch)
        ensures
            r.name@ == name@,
    {
        BoundaryPatch { name }
    }

    /// The tag naming this boundary region.
    pub fn boundary(&self) -> (r: &str)
        ensures
            r@ == self.name@,
    {
        self.name.as_str()
    }
}

/// One side of a face: an interior cell or a boundary patch.
#[derive(Clone, Copy, Debug, PartialEq, Eq, Structural)]
pub enum Patch {
    Cell(CellIndex),
    Boundary(BoundaryPatchIndex),
}

/// An undirected edge of the computational mesh: its two endpoint vertices
/// and the patches on its two sides.  When traversing from the first vertex
/// to the second, the first patch lies on the left-hand side.
#[derive(Clone, Copy, Debug, PartialEq)]
pub struct Face {
    pub vertices_pair: (VertexIndex, VertexIndex),
    pub patches: (Patch, Patch),
}

impl Face {
    /// The patches must be given such that the first one sees the face in
    /// the trigonometric (counter-clockwise) order.
    pub fn new(vertices_pair: (VertexIndex, VertexIndex), patches: (Patch, Patch)) -> (r: Face)
        ensures
            r.vertices_pair == vertices_pair,
            r.patches == patches,
    {
        Face { vertices_pair, patches }
    }

    pub fn vertices(&self) -> (r: (VertexIndex, VertexIndex))
        ensures
            r == self.vertices_pair,
    {
        self.vertices_pair
    }

    pub fn patches(&self) -> (r: &(Patch, Patch))
        ensures
            r == &self.patches,
    {
        &self.patches
    }
}

/// A polygonal cell of the computational mesh: its faces in cycle order and
/// its vertices without repetition.
#[derive(Clone, Debug, Default, PartialEq)]
pub struct Cell {
    pub faces: Vec<FaceIndex>,
    pub vertices: Vec<VertexIndex>,
}

/// The endpoints of the listed faces, flattened in face order: face `i`
/// contributes its first endpoint at slot `2 * i` and its second at slot
/// `2 * i + 1`.
pub open spec fn face_endpoints(faces: Seq<FaceIndex>, faces_glob: Seq<Face>) -> Seq<VertexIndex> {
    Seq::new(
        (2 * faces.len()) as nat,
        |k: int|
            if k % 2 == 0 {
                faces_glob[faces[k / 2].0 as int].vertices_pair.0
            } else {
                faces_glob[faces[k / 2].0 as int].vertices_pair.1
            },
    )
}

/// Keeps the first appearance of each element, dropping later repeats.
pub open spec fn dedup_first(s: Seq<VertexIndex>) -> Seq<VertexIndex>
    decreases s.len(),
{
    if s.len() == 0 {
        Seq::empty()
    } else {
        let rest = dedup_first(s.drop_last());
        if rest.contains(s.last()) {
            rest
        } else {
            rest.push(s.last())
        }
    }
}

/// `v` is an endpoint of one of the listed faces.
pub open spec fn vertex_from_faces(v: VertexIndex, faces: Seq<FaceIndex>, faces_glob: Seq<Face>) -> bool {
    exists|i: int|
        0 <= i < faces.len() && (v == faces_glob[(#[trigger] faces[i]).0 as int].vertices_pair.0
            || v == faces_glob[faces[i].0 as int].vertices_pair.1)
}

impl Cell {
    /// Assembles a cell from its face list: the vertex list collects each
    /// endpoint of the faces once, in first-appearance order.
    pub fn new(faces: Vec<FaceIndex>, faces_glob: &Vec<Face>) -> (r: Cell)
        requires
            forall|i: int| 0 <= i < faces@.len() ==> (#[trigger] faces@[i]).0 < faces_glob@.len(),
        ensures
            r.faces@ == faces@,
            r.vertices@ == dedup_first(face_endpoints(faces@, faces_glob@)),
            forall|j: int|
                0 <= j < r.vertices@.len() ==> #[trigger] vertex_from_faces(
                    r.vertices@[j],
                    faces@,
                    faces_glob@,
                ),
            forall|i: int|
                0 <= i < faces@.len() ==> r.vertices@.contains(
                    (#[trigger] faces_glob@[faces@[i].0 as int]).vertices_pair.0,
                ) && r.vertices@.contains(faces_glob@[faces@[i].0 as int].vertices_pair.1),
            forall|j1: int, j2: int|
                0 <= j1 < j2 < r.vertices@.len() ==> r.vertices@[j1] != r.vertices@[j2],
    {
        let mut vertices: Vec<VertexIndex> = Vec::new();
        let n = faces.len();
        let ghost ends = face_endpoints(faces@, faces_glob@);
        for i in 0..n
            invariant
                n == faces@.len(),
                ends == face_endpoints(faces@, faces_glob@),
                vertices@ == dedup_first(ends.take(2 * i)),
                forall|k: int| 0 <= k < n ==> (#[trigger] faces@[k]).0 < faces_glob@.len(),
                forall|j: int|
                    0 <= j < vertices@.len() ==> #[trigger] vertex_from_faces(
                        vertices@[j],
                        faces@,
                        faces_glob@,
                    ),
                forall|k: int|
                    0 <= k < i ==> vertices@.contains(
                        (#[trigger] faces_glob@[faces@[k].0 as int]).vertices_pair.0,
                    ) && vertices@.contains(faces_glob@[faces@[k].0 as int].vertices_pair.1),
                forall|j1: int, j2: int|
                    0 <= j1 < j2 < vertices@.len() ==> vertices@[j1] != vertices@[j2],
        {
            let face = &faces_glob[faces[i].0];
            let v0 = face.vertices_pair.0;
            let v1 = face.vertices_pair.1;
            let ghost snap0 = vertices@;
            if !contains_vertex(&vertices, v0) {
                vertices.push(v0);
            }
            proof {
                assert(vertices@ == dedup_first(ends.take(2 * i + 1))) by {
                    assert(ends.take(2 * i + 1).drop_last() =~= ends.take(2 * i));
                    assert(ends.take(2 * i + 1).last() == ends[2 * i]);
                    assert(ends[2 * i] == v0);
                }
                assert(vertices@.contains(v0)) by {
                    if snap0.contains(v0) {
                        let j = choose|j: int| 0 <= j < snap0.len() && snap0[j] == v0;
                        assert(vertices@[j] == v0);
                    } else {
                        assert(vertices@.last() == v0);
                    }
                }
            }
            let ghost snap1 = vertices@;
            if !contains_vertex(&vertices, v1) {
                vertices.push(v1);
            }
            proof {
                assert(vertices@ == dedup_first(ends.take(2 * i + 2))) by {
                    assert(ends.take(2 * i + 2).drop_last() =~= ends.take(2 * i + 1));
                    assert(ends.take(2 * i + 2).last() == ends[2 * i + 1]);
                    assert(ends[2 * i + 1] == v1);
                }
                assert(vertices@.contains(v1)) by {
                    if snap1.contains(v1) {
                        let j = choose|j: int| 0 <= j < snap1.len() && snap1[j] == v1;
                        assert(vertices@[j] == v1);
                    } else {
                        assert(vertices@.last() == v1);
                    }
                }
                assert(vertices@.contains(v0)) by {
                    let j = choose|j: int| 0 <= j < snap1.len() && snap1[j] == v0;
                    assert(vertices@[j] == v0);
                }
                assert forall|j: int|
                    0 <= j < vertices@.len() implies #[trigger] vertex_from_faces(
                    vertices@[j],
                    faces@,
                    faces_glob@,
                ) by {
                    if j < snap0.len() {
                        assert(vertices@[j] == snap0[j]);
                        assert(vertex_from_faces(snap0[j], faces@, faces_glob@));
                    } else {
                        assert(vertices@[j] == v0 || vertices@[j] == v1);
                        assert(faces@[i as int].0 < faces_glob@.len());
                        assert(v0 == faces_glob@[faces@[i as int].0 as int].vertices_pair.0);
                        assert(v1 == faces_glob@[faces@[i as int].0 as int].vertices_pair.1);
                        assert(vertex_from_faces(vertices@[j], faces@, faces_glob@));
                    }
                }
                assert forall|k: int|
                    0 <= k < i + 1 implies vertices@.contains(
                    (#[trigger] faces_glob@[faces@[k].0 as int]).vertices_pair.0,
                ) && vertices@.contains(faces_glob@[faces@[k].0 as int].vertices_pair.1) by {
                    if k < i {
                        let w0 = faces_glob@[faces@[k].0 as int].vertices_pair.0;
                        let w1 = faces_glob@[faces@[k].0 as int].vertices_pair.1;
                        let j0 = choose|j: int| 0 <= j < snap0.len() && snap0[j] == w0;
                        assert(vertices@[j0] == w0);
                        let j1 = choose|j: int| 0 <= j < snap0.len() && snap0[j] == w1;
                        assert(vertices@[j1] == w1);
                    }
                }
            }
        }
        proof {
            assert(ends.take(2 * n) =~= ends);
        }
        let ghost vfin = vertices@;
        let result = Cell { faces, vertices };
        proof {
            assert(result.vertices@ == vfin);
            assert forall|j: int|
                0 <= j < result.vertices@.len() implies #[trigger] vertex_from_faces(
                result.vertices@[j],
                faces@,
                faces_glob@,
            ) by {
                assert(result.vertices@[j] == vfin[j]);
                assert(vertex_from_faces(vfin[j], faces@, faces_glob@));
            }
        }
        result
    }

    pub fn faces_id(&self) -> (r: &Vec<FaceIndex>)
        ensures
            r@ == self.faces@,
    {
        &self.faces
    }

    pub fn vertices_id(&self) -> (r: &Vec<VertexIndex>)
        ensures
            r@ == self.vertices@,
    {
        &self.vertices
    }
}

/// Whether the vector already holds this vertex.
fn contains_vertex(vertices: &Vec<VertexIndex>, v: VertexIndex) -> (r: bool)
    ensures
        r == vertices@.contains(v),
{
    let n = vertices.len();
    for i in 0..n
        invariant
            n == vertices@.len(),
            forall|j: int| 0 <= j < i ==> vertices@[j] != v,
    {
        if vertices[i].0 == v.0 {
            return true;
        }
    }
    false
}

/// How many of the first `k` parents are cells.
pub open spec fn cell_rank(parents: Seq<Parent>, k: int) -> int
    decreases k,
{
    if k <= 0 {
        0
    } else {
        cell_rank(parents, k - 1) + (if parents[k - 1] == Parent::Cell {
            1int
        } else {
            0int
        })
    }
}


/// Number of twin folds among the first `k` half-edges: those that are the
/// smaller index of their twin pair.  The fold of half-edge `h` becomes
/// face number `fold_count(m, h)`.
pub open spec fn fold_count(m: Base2DMesh, k: int) -> int
    decreases k,
{
    if k <= 0 {
        0
    } else {
        fold_count(m, k - 1) + (if k - 1 < m.twn(k - 1) {
            1int
        } else {
            0int
        })
    }
}

/// The smaller half-edge index of the twin pair of `h`.
pub open spec fn canon_he(m: Base2DMesh, h: int) -> int {
    if h < m.twn(h) {
        h
    } else {
        m.twn(h)
    }
}

/// The patch seen from half-edge `h`'s side: its boundary patch label when
/// its parent is a boundary, else the cell numbered by the parent's rank
/// among the cell parents.
pub open spec fn side_patch(m: Base2DMesh, h: int) -> Patch {
    if m.parents@[m.par(h)] == Parent::Boundary {
        Patch::Boundary(m.patch(h).unwrap())
    } else {
        Patch::Cell(CellIndex(cell_rank(m.parents@, m.par(h)) as usize))
    }
}

/// `f` is the face folded from half-edge `h` and its twin.
pub open spec fn face_fold(m: Base2DMesh, h: int, f: Face) -> bool {
    &&& f.vertices_pair.0.0 == m.vtx(h)
    &&& f.vertices_pair.1.0 == m.vtx(m.twn(h))
    &&& f.patches.0 == side_patch(m, h)
    &&& f.patches.1 == side_patch(m, m.twn(h))
}

/// The cell on the other side of face `f`, seen from cell `c`; `None` when
/// the other side is a boundary.
pub open spec fn neighbor_of(f: Face, c: CellIndex) -> Option<CellIndex> {
    if f.patches.0 == Patch::Cell(c) {
        match f.patches.1 {
            Patch::Cell(id) => Some(id),
            Patch::Boundary(_) => None,
        }
    } else {
        match f.patches.0 {
            Patch::Cell(id) => Some(id),
            Patch::Boundary(_) => None,
        }
    }
}

/// The patch on the other side of face `f`, seen from cell `c`.
pub open spec fn neighbor_patch_of(f: Face, c: CellIndex) -> Patch {
    if f.patches.0 == Patch::Cell(c) {
        f.patches.1
    } else {
        f.patches.0
    }
}

/// The neighbouring cells collected over a face list, skipping boundaries.
pub open spec fn collect_neighbors(faces: Seq<Face>, ids: Seq<FaceIndex>, c: CellIndex) -> Seq<
    CellIndex,
>
    decreases ids.len(),
{
    if ids.len() == 0 {
        Seq::empty()
    } else {
        let rest = collect_neighbors(faces, ids.drop_last(), c);
        match neighbor_of(faces[ids.last().0 as int], c) {
            Some(id) => rest.push(id),
            None => rest,
        }
    }
}

/// Contains all the topological data of the final mesh: cells, faces,
/// boundary patch tags and vertex positions.  The numeric quantities a
/// solver derives from the positions (lengths, normals, volumes,
/// interpolation factors) are outside the verified core.
#[derive(Clone, Debug, Default, PartialEq)]
pub struct Computational2DMesh {
    pub cells: Vec<Cell>,
    pub boundaries: Vec<BoundaryPatch>,
    pub faces: Vec<Face>,
    pub vertices: Vec<Point2D>,
}

impl Computational2DMesh {
    /// Every face index stored in a cell points at a real face.
    pub open spec fn faces_in_range(self) -> bool {
        forall|j: int, k: int|
            0 <= j < self.cells@.len() && 0 <= k < self.cells@[j].faces@.len()
                ==> (#[trigger] self.cells@[j].faces@[k]).0 < self.faces@.len()
    }

    /// Assembles a computational mesh directly from its parts, with no
    /// consistency check: the caller vouches for the cross-references.
    pub fn manual_new(
        cells: Vec<Cell>,
        faces: Vec<Face>,
        boundaries: Vec<BoundaryPatch>,
        vertices: Vec<Point2D>,
    ) -> (r: Computational2DMesh)
        ensures
            r.cells@ == cells@,
            r.faces@ == faces@,
            r.boundaries@ == boundaries@,
            r.vertices@ == vertices@,
    {
        Computational2DMesh { cells, boundaries, faces, vertices }
    }

    pub fn num_cells(&self) -> (r: usize)
        ensures
            r == self.cells@.len(),
    {
        self.cells.len()
    }

    pub fn num_faces(&self) -> (r: usize)
        ensures
            r == self.faces@.len(),
    {
        self.faces.len()
    }

    pub fn num_vertices(&self) -> (r: usize)
        ensures
            r == self.vertices@.len(),
    {
        self.vertices.len()
    }

    pub fn vertices(&self) -> (r: &Vec<Point2D>)
        ensures
            r@ == self.vertices@,
    {
        &self.vertices
    }

    pub fn cells(&self) -> (r: &Vec<Cell>)
        ensures
            r@ == self.cells@,
    {
        &self.cells
    }

    pub fn faces(&self) -> (r: &Vec<Face>)
        ensures
            r@ == self.faces@,
    {
        &self.faces
    }

    pub fn boundaries(&self) -> (r: &Vec<BoundaryPatch>)
        ensures
            r@ == self.boundaries@,
    {
        &self.boundaries
    }

    /// The cells on the other side of each of a cell's faces, skipping
    /// boundary faces.
    pub fn neighboring_cells_id(&self, cell: CellIndex) -> (r: Vec<CellIndex>)
        requires
            cell.0 < self.cells@.len(),
            self.faces_in_range(),
        ensures
            r@ == collect_neighbors(self.faces@, self.cells@[cell.0 as int].faces@, cell),
    {
        let ghost ids = self.cells@[cell.0 as int].faces@;
        let mut result: Vec<CellIndex> = Vec::new();
        let n = self.cells[cell.0].faces.len();
        for k in 0..n
            invariant
                cell.0 < self.cells@.len(),
                self.faces_in_range(),
                n == ids.len(),
                ids == self.cells@[cell.0 as int].faces@,
                result@ == collect_neighbors(self.faces@, ids.take(k as int), cell),
        {
            let face_id = self.cells[cell.0].faces[k];
            let face = &self.faces[face_id.0];
            let is_own = match face.patches.0 {
                Patch::Cell(id) => id.0 == cell.0,
                Patch::Boundary(_) => false,
            };
            if is_own {
                match face.patches.1 {
                    Patch::Cell(id) => result.push(id),
                    Patch::Boundary(_) => (),
                }
            } else {
                match face.patches.0 {
                    Patch::Cell(id) => result.push(id),
                    Patch::Boundary(_) => (),
                }
            }
            proof {
                assert(ids.take(k + 1).drop_last() =~= ids.take(k as int));
                assert(ids.take(k + 1).last() == ids[k as int]);
            }
        }
        proof {
            assert(ids.take(n as int) =~= ids);
        }
        result
    }

    /// The patch on the other side of each of a cell's faces; boundary
    /// sides are kept.
    pub fn neighboring_patches(&self, cell: CellIndex) -> (r: Vec<Patch>)
        requires
            cell.0 < self.cells@.len(),
            self.faces_in_range(),
        ensures
            r@.len() == self.cells@[cell.0 as int].faces@.len(),
            forall|k: int|
                0 <= k < r@.len() ==> #[trigger] r@[k] == neighbor_patch_of(
                    self.faces@[self.cells@[cell.0 as int].faces@[k].0 as int],
                    cell,
                ),
    {
        let mut result: Vec<Patch> = Vec::new();
        let n = self.cells[cell.0].faces.len();
        for k in 0..n
            invariant
                cell.0 < self.cells@.len(),
                self.faces_in_range(),
                n == self.cells@[cell.0 as int].faces@.len(),
                result@.len() == k,
                forall|j: int|
                    0 <= j < k ==> #[trigger] result@[j] == neighbor_patch_of(
                        self.faces@[self.cells@[cell.0 as int].faces@[j].0 as int],
                        cell,
                    ),
        {
            let face_id = self.cells[cell.0].faces[k];
            let face = &self.faces[face_id.0];
            let is_own = match face.patches.0 {
                Patch::Cell(id) => id.0 == cell.0,
                Patch::Boundary(_) => false,
            };
            if is_own {
                result.push(face.patches.1);
            } else {
                result.push(face.patches.0);
            }
        }
        result
    }
}


impl Computational2DMesh {
    /// One-shot conversion of a checked half-edge mesh: vertices and
    /// boundary tags are carried over unchanged, each twin pair of
    /// half-edges folds into one face (in order of the smaller index, with
    /// the patches of its two sides), and each `Cell` parent, in order,
    /// becomes a cell whose faces are its cycle mapped through the folds.
    #[verifier::rlimit(100)]
    #[verifier::spinoff_prover]
    pub fn new_from_he(mesh: Base2DMesh) -> (r: Computational2DMesh)
        requires
            mesh.check_valid(),
            parents_complete(mesh),
            forall|p: int| 0 <= p < mesh.np() ==> mesh.parents@[p] != Parent::Absent,
            forall|h: int| 0 <= h < mesh.nh() ==> #[trigger] mesh.twn(h) != h,
            forall|h: int|
                0 <= h < mesh.nh() && mesh.parents@[#[trigger] mesh.par(h)] == Parent::Boundary
                    ==> mesh.patch(h) is Some,
        ensures
            r.vertices@ == mesh.vertices@,
            r.boundaries@ == mesh.boundaries@,
            r.faces@.len() == fold_count(mesh, mesh.nh()),
            forall|h: int|
                0 <= h < mesh.nh() && h < mesh.twn(h) ==> face_fold(
                    mesh,
                    h,
                    #[trigger] r.faces@[fold_count(mesh, h)],
                ),
            r.cells@.len() == cell_rank(mesh.parents@, mesh.np()),
            r.faces_in_range(),
            forall|p: int|
                0 <= p < mesh.np() && mesh.parents@[p] == Parent::Cell ==> {
                    let j = #[trigger] cell_rank(mesh.parents@, p);
                    let f = mesh.first_he(p);
                    let cfaces = r.cells@[j].faces@;
                    &&& 0 <= j < r.cells@.len()
                    &&& 1 <= cfaces.len() <= mesh.nh()
                    &&& mesh.next_iter(f, cfaces.len() as nat) == f
                    &&& forall|k: int|
                        1 <= k < cfaces.len() ==> #[trigger] mesh.next_iter(f, k as nat) != f
                    &&& forall|k: int|
                        0 <= k < cfaces.len() ==> (#[trigger] cfaces[k]).0 == fold_count(
                            mesh,
                            canon_he(mesh, mesh.next_iter(f, k as nat)),
                        )
                    &&& r.cells@[j].vertices@ == dedup_first(face_endpoints(cfaces, r.faces@))
                    &&& forall|j2: int|
                        0 <= j2 < r.cells@[j].vertices@.len() ==> #[trigger] vertex_from_faces(
                            r.cells@[j].vertices@[j2],
                            cfaces,
                            r.faces@,
                        )
                    &&& forall|i: int|
                        0 <= i < cfaces.len() ==> r.cells@[j].vertices@.contains(
                            (#[trigger] r.faces@[cfaces[i].0 as int]).vertices_pair.0,
                        ) && r.cells@[j].vertices@.contains(
                            r.faces@[cfaces[i].0 as int].vertices_pair.1,
                        )
                    &&& forall|j1: int, j2: int|
                        0 <= j1 < j2 < r.cells@[j].vertices@.len() ==> r.cells@[j].vertices@[j1]
                            != r.cells@[j].vertices@[j2]
                },
    {
        let num_p = mesh.parents.len();
        let mut parent_to_patch: Vec<Patch> = Vec::new();
        let mut cell_id: usize = 0;
        for p in 0..num_p
            invariant
                num_p == mesh.np(),
                mesh.np() <= usize::MAX,
                forall|q: int| 0 <= q < mesh.np() ==> mesh.parents@[q] != Parent::Absent,
                parent_to_patch@.len() == p,
                cell_id == cell_rank(mesh.parents@, p as int),
                forall|q: int|
                    0 <= q < p && mesh.parents@[q] == Parent::Cell
                        ==> #[trigger] parent_to_patch@[q] == Patch::Cell(
                        CellIndex(cell_rank(mesh.parents@, q) as usize),
                    ),
        {
            proof {
                lemma_cell_rank_bound(mesh.parents@, p as int);
            }
            match mesh.parents[p] {
                Parent::Cell => {
                    parent_to_patch.push(Patch::Cell(CellIndex(cell_id)));
                    cell_id = cell_id + 1;
                },
                _ => {
                    parent_to_patch.push(Patch::Boundary(BoundaryPatchIndex(usize::MAX)));
                },
            }
        }

        let nh = mesh.he_to_vertex.len();
        let mut he_to_face: Vec<FaceIndex> = Vec::new();
        let mut faces: Vec<Face> = Vec::new();
        for h in 0..nh
            invariant
                mesh.check_valid(),
                nh == mesh.nh(),
                num_p == mesh.np(),
                forall|q: int| 0 <= q < mesh.np() ==> mesh.parents@[q] != Parent::Absent,
                forall|x: int| 0 <= x < mesh.nh() ==> #[trigger] mesh.twn(x) != x,
                forall|x: int|
                    0 <= x < mesh.nh() && mesh.parents@[#[trigger] mesh.par(x)]
                        == Parent::Boundary ==> mesh.patch(x) is Some,
                parent_to_patch@.len() == num_p,
                forall|q: int|
                    0 <= q < num_p && mesh.parents@[q] == Parent::Cell
                        ==> #[trigger] parent_to_patch@[q] == Patch::Cell(
                        CellIndex(cell_rank(mesh.parents@, q) as usize),
                    ),
                he_to_face@.len() == h,
                faces@.len() == fold_count(mesh, h as int),
                forall|x: int|
                    0 <= x < h ==> (#[trigger] he_to_face@[x]).0 == fold_count(
                        mesh,
                        canon_he(mesh, x),
                    ) && he_to_face@[x].0 < faces@.len(),
                forall|x: int|
                    0 <= x < h && x < mesh.twn(x) ==> face_fold(
                        mesh,
                        x,
                        faces@[#[trigger] fold_count(mesh, x)],
                    ),
        {
            let ghost old_faces = faces@;
            let ghost old_h2f = he_to_face@;
            let twin = mesh.he_to_twin[h];
            proof {
                assert(mesh.twn(h as int) < mesh.nh());
            }
            if h < twin.0 {
                he_to_face.push(FaceIndex(faces.len()));
                let v0 = mesh.he_to_vertex[h];
                let v1 = mesh.he_to_vertex[twin.0];
                let left = side_patch_exec(&mesh, &parent_to_patch, h);
                let right = side_patch_exec(&mesh, &parent_to_patch, twin.0);
                faces.push(Face { vertices_pair: (v0, v1), patches: (left, right) });
                proof {
                    assert(face_fold(mesh, h as int, faces@[fold_count(mesh, h as int)]));
                }
            } else {
                let idx = he_to_face[twin.0];
                he_to_face.push(idx);
                proof {
                    assert(canon_he(mesh, h as int) == twin.0 as int) by {
                        assert(mesh.twn(mesh.twn(h as int)) == h);
                    }
                    assert(old_h2f[twin.0 as int].0 == fold_count(mesh, canon_he(mesh, twin.0 as int)));
                    assert(canon_he(mesh, twin.0 as int) == twin.0 as int) by {
                        assert(mesh.twn(twin.0 as int) == h);
                    }
                }
            }
            proof {
                assert forall|x: int|
                    0 <= x < h + 1 implies (#[trigger] he_to_face@[x]).0 == fold_count(
                    mesh,
                    canon_he(mesh, x),
                ) && he_to_face@[x].0 < faces@.len() by {
                    if x < h {
                        assert(he_to_face@[x] == old_h2f[x]);
                        assert(faces@.len() >= old_faces.len());
                    }
                }
                assert forall|x: int|
                    0 <= x < h + 1 && x < mesh.twn(x) implies face_fold(
                    mesh,
                    x,
                    faces@[#[trigger] fold_count(mesh, x)],
                ) by {
                    if x < h {
                        assert(0 <= fold_count(mesh, x)) by {
                            lemma_fold_count_mono(mesh, 0, x);
                        }
                        assert(fold_count(mesh, x) < old_faces.len()) by {
                            lemma_fold_count_mono(mesh, x + 1, h as int);
                            assert(fold_count(mesh, x + 1) == fold_count(mesh, x) + 1);
                        }
                        assert(faces@[fold_count(mesh, x)] == old_faces[fold_count(mesh, x)]);
                    }
                }
            }
        }

        let mut cells: Vec<Cell> = Vec::new();
        for p in 0..num_p
            invariant
                mesh.check_valid(),
                parents_complete(mesh),
                nh == mesh.nh(),
                num_p == mesh.np(),
                he_to_face@.len() == nh,
                faces@.len() == fold_count(mesh, nh as int),
                forall|x: int|
                    0 <= x < nh ==> (#[trigger] he_to_face@[x]).0 == fold_count(
                        mesh,
                        canon_he(mesh, x),
                    ) && he_to_face@[x].0 < faces@.len(),
                forall|x: int|
                    0 <= x < nh && x < mesh.twn(x) ==> face_fold(
                        mesh,
                        x,
                        faces@[#[trigger] fold_count(mesh, x)],
                    ),
                cells@.len() == cell_rank(mesh.parents@, p as int),
                forall|q: int|
                    0 <= q < p && mesh.parents@[q] == Parent::Cell ==> {
                        let j = #[trigger] cell_rank(mesh.parents@, q);
                        let f = mesh.first_he(q);
                        let cfaces = cells@[j].faces@;
                        &&& 0 <= j < cells@.len()
                        &&& 1 <= cfaces.len() <= mesh.nh()
                        &&& mesh.next_iter(f, cfaces.len() as nat) == f
                        &&& forall|k: int|
                            1 <= k < cfaces.len() ==> #[trigger] mesh.next_iter(f, k as nat) != f
                        &&& forall|k: int|
                            0 <= k < cfaces.len() ==> (#[trigger] cfaces[k]).0 == fold_count(
                                mesh,
                                canon_he(mesh, mesh.next_iter(f, k as nat)),
                            )
                        &&& cells@[j].vertices@ == dedup_first(face_endpoints(cfaces, faces@))
                        &&& forall|j2: int|
                            0 <= j2 < cells@[j].vertices@.len() ==> #[trigger] vertex_from_faces(
                                cells@[j].vertices@[j2],
                                cfaces,
                                faces@,
                            )
                        &&& forall|i: int|
                            0 <= i < cfaces.len() ==> cells@[j].vertices@.contains(
                                (#[trigger] faces@[cfaces[i].0 as int]).vertices_pair.0,
                            ) && cells@[j].vertices@.contains(
                                faces@[cfaces[i].0 as int].vertices_pair.1,
                            )
                        &&& forall|j1: int, j2: int|
                            0 <= j1 < j2 < cells@[j].vertices@.len() ==> cells@[j].vertices@[j1]
                                != cells@[j].vertices@[j2]
                    },
                forall|j: int, k: int|
                    0 <= j < cells@.len() && 0 <= k < cells@[j].faces@.len()
                        ==> (#[trigger] cells@[j].faces@[k]).0 < faces@.len(),
        {
            proof {
                lemma_cell_rank_bound(mesh.parents@, p as int);
            }
            let is_cell = matches!(mesh.parents[p], Parent::Cell);
            if is_cell {
                proof {
                    lemma_cycle_closes(mesh, mesh.first_he(p as int));
                }
                let hes = mesh.he_from_parent(ParentIndex(p));
                let mut faces_loc: Vec<FaceIndex> = Vec::new();
                let num_cycle = hes.len();
                for k in 0..num_cycle
                    invariant
                        nh == mesh.nh(),
                        he_to_face@.len() == nh,
                        num_cycle == hes@.len(),
                        forall|i: int| 0 <= i < num_cycle ==> (#[trigger] hes@[i]).0 < nh,
                        forall|x: int|
                            0 <= x < nh ==> (#[trigger] he_to_face@[x]).0 == fold_count(
                                mesh,
                                canon_he(mesh, x),
                            ) && he_to_face@[x].0 < faces@.len(),
                        faces_loc@.len() == k,
                        forall|i: int|
                            0 <= i < k ==> #[trigger] faces_loc@[i] == he_to_face@[hes@[i].0 as int],
                {
                    faces_loc.push(he_to_face[hes[k].0]);
                }
                let ghost fl = faces_loc@;
                cells.push(Cell::new(faces_loc, &faces));
                proof {
                    let q = p as int;
                    let j = cell_rank(mesh.parents@, q);
                    let f = mesh.first_he(q);
                    assert(cells@.last().faces@ == fl);
                    assert(cells@.len() == j + 1);
                    assert forall|k: int|
                        0 <= k < fl.len() implies (#[trigger] fl[k]).0 == fold_count(
                        mesh,
                        canon_he(mesh, mesh.next_iter(f, k as nat)),
                    ) by {
                        assert(fl[k] == he_to_face@[hes@[k].0 as int]);
                        assert(hes@[k].0 == mesh.next_iter(f, k as nat));
                    }
                }
            }
        }

        let result = Computational2DMesh {
            cells,
            boundaries: mesh.boundaries,
            faces,
            vertices: mesh.vertices,
        };
        result
    }
}

/// Monotonicity of the fold count.
proof fn lemma_fold_count_mono(m: Base2DMesh, k1: int, k2: int)
    requires
        k1 <= k2,
    ensures
        fold_count(m, k1) <= fold_count(m, k2),
    decreases k2 - k1,
{
    if k1 < k2 {
        lemma_fold_count_mono(m, k1, k2 - 1);
    }
}

/// The cell rank never exceeds the number of parents scanned.
proof fn lemma_cell_rank_bound(parents: Seq<Parent>, k: int)
    requires
        0 <= k,
    ensures
        0 <= cell_rank(parents, k) <= k,
    decreases k,
{
    if k > 0 {
        lemma_cell_rank_bound(parents, k - 1);
    }
}

/// The patch on the side of half-edge `h`, from the precomputed map of
/// cell parents to cell numbers.
fn side_patch_exec(mesh: &Base2DMesh, parent_to_patch: &Vec<Patch>, h: usize) -> (r: Patch)
    requires
        mesh.check_valid(),
        h < mesh.nh(),
        mesh.parents@[mesh.par(h as int)] == Parent::Boundary ==> mesh.patch(h as int) is Some,
        parent_to_patch@.len() == mesh.np(),
        mesh.parents@[mesh.par(h as int)] != Parent::Absent,
        mesh.parents@[mesh.par(h as int)] == Parent::Cell ==> parent_to_patch@[mesh.par(h as int)]
            == Patch::Cell(CellIndex(cell_rank(mesh.parents@, mesh.par(h as int)) as usize)),
    ensures
        r == side_patch(*mesh, h as int),
{
    let (par_h, patch_h) = mesh.he_to_parent[h];
    proof {
        assert(mesh.par(h as int) < mesh.np());
    }
    match mesh.parents[par_h.0] {
        Parent::Boundary => {
            match patch_h {
                Some(bp) => Patch::Boundary(bp),
                None => {
                    proof {
                        assert(false);
                    }
                    Patch::Boundary(BoundaryPatchIndex(0))
                },
            }
        },
        _ => parent_to_patch[par_h.0],
    }
}


impl Safe2DMesh {
    /// Converts the validated mesh into its computational form; see
    /// `Computational2DMesh::new_from_he` for the full contract.
    pub fn into_computational(self) -> (r: Computational2DMesh)
        requires
            self.0.check_valid(),
            parents_complete(self.0),
            forall|p: int| 0 <= p < self.0.np() ==> self.0.parents@[p] != Parent::Absent,
            forall|h: int| 0 <= h < self.0.nh() ==> #[trigger] self.0.twn(h) != h,
            forall|h: int|
                0 <= h < self.0.nh() && self.0.parents@[#[trigger] self.0.par(h)]
                    == Parent::Boundary ==> self.0.patch(h) is Some,
        ensures
            r.vertices@ == self.0.vertices@,
            r.boundaries@ == self.0.boundaries@,
            r.faces@.len() == fold_count(self.0, self.0.nh()),
            forall|h: int|
                0 <= h < self.0.nh() && h < self.0.twn(h) ==> face_fold(
                    self.0,
                    h,
                    #[trigger] r.faces@[fold_count(self.0, h)],
                ),
            r.cells@.len() == cell_rank(self.0.parents@, self.0.np()),
            r.faces_in_range(),
            forall|p: int|
                0 <= p < self.0.np() && self.0.parents@[p] == Parent::Cell ==> {
                    let j = #[trigger] cell_rank(self.0.parents@, p);
                    let f = self.0.first_he(p);
                    let cfaces = r.cells@[j].faces@;
                    &&& 0 <= j < r.cells@.len()
                    &&& 1 <= cfaces.len() <= self.0.nh()
                    &&& self.0.next_iter(f, cfaces.len() as nat) == f
                    &&& forall|k: int|
                        1 <= k < cfaces.len() ==> #[trigger] self.0.next_iter(f, k as nat) != f
                    &&& forall|k: int|
                        0 <= k < cfaces.len() ==> (#[trigger] cfaces[k]).0 == fold_count(
                            self.0,
                            canon_he(self.0, self.0.next_iter(f, k as nat)),
                        )
                    &&& r.cells@[j].vertices@ == dedup_first(face_endpoints(cfaces, r.faces@))
                },
    {
        Computational2DMesh::new_from_he(self.0)
    }
}

} // verus!
