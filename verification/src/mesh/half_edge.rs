use vstd::prelude::*;
use crate::mesh::computational_mesh::BoundaryPatch;
use crate::mesh::indices::{BoundaryPatchIndex, HalfEdgeIndex, ParentIndex, VertexIndex};
use crate::scalar::Point2D;

verus! {

/// Parent of a half-edge: the region whose interior lies on its left.
/// `Absent` is an error or temporary state.
#[derive(Clone, Copy, Debug, PartialEq, Eq, Structural)]
pub enum Parent {
    Absent,
    Cell,
    Boundary,
}

impl Default for Parent {
    fn default() -> (r: Parent)
        ensures
            r == Parent::Absent,
    {
        Parent::Absent
    }
}

/// Array-based half-edge mesh.  Topology is held in parallel arrays indexed
/// by half-edge; each half-edge knows its origin vertex, its twin (the
/// opposite half of the same undirected edge), its successor and predecessor
/// around its parent cycle, and its parent (with the boundary patch label of
/// its side, when the parent is a boundary).
#[derive(Clone, Debug, Default, PartialEq)]
pub struct Base2DMesh {
    pub he_to_vertex: Vec<VertexIndex>,
    pub he_to_twin: Vec<HalfEdgeIndex>,
    pub he_to_next_he: Vec<HalfEdgeIndex>,
    pub he_to_prev_he: Vec<HalfEdgeIndex>,
    pub he_to_parent: Vec<(ParentIndex, Option<BoundaryPatchIndex>)>,

    pub vertices: Vec<Point2D>,
    pub parents: Vec<Parent>,

    pub parent_to_first_he: Vec<HalfEdgeIndex>,

    pub boundaries: Vec<BoundaryPatch>,
}

impl Base2DMesh {
    /// Number of half-edges, as a mathematical integer.
    pub open spec fn nh(self) -> int {
        self.he_to_vertex@.len() as int
    }

    /// Number of vertices.
    pub open spec fn nv(self) -> int {
        self.vertices@.len() as int
    }

    /// Number of parents.
    pub open spec fn np(self) -> int {
        self.parents@.len() as int
    }

    /// Origin vertex of half-edge `h`.
    pub open spec fn vtx(self, h: int) -> int {
        self.he_to_vertex@[h].0 as int
    }

    /// Twin of half-edge `h`.
    pub open spec fn twn(self, h: int) -> int {
        self.he_to_twin@[h].0 as int
    }

    /// Successor of half-edge `h` around its parent cycle.
    pub open spec fn nxt(self, h: int) -> int {
        self.he_to_next_he@[h].0 as int
    }

    /// Predecessor of half-edge `h` around its parent cycle.
    pub open spec fn prv(self, h: int) -> int {
        self.he_to_prev_he@[h].0 as int
    }

    /// Parent of half-edge `h`.
    pub open spec fn par(self, h: int) -> int {
        self.he_to_parent@[h].0.0 as int
    }

    /// Boundary patch label carried by half-edge `h`.
    pub open spec fn patch(self, h: int) -> Option<BoundaryPatchIndex> {
        self.he_to_parent@[h].1
    }

    /// First half-edge of parent `p`'s cycle.
    pub open spec fn first_he(self, p: int) -> int {
        self.parent_to_first_he@[p].0 as int
    }

    /// The parallel half-edge arrays agree in length and every parent has a
    /// first half-edge.
    pub open spec fn lengths_ok(self) -> bool {
        &&& self.he_to_twin@.len() == self.he_to_vertex@.len()
        &&& self.he_to_next_he@.len() == self.he_to_vertex@.len()
        &&& self.he_to_prev_he@.len() == self.he_to_vertex@.len()
        &&& self.he_to_parent@.len() == self.he_to_vertex@.len()
        &&& self.parent_to_first_he@.len() == self.parents@.len()
    }

    /// Every parent's first half-edge is a real half-edge.
    pub open spec fn first_he_in_range(self) -> bool {
        forall|p: int| 0 <= p < self.np() ==> 0 <= #[trigger] self.first_he(p) < self.nh()
    }

    /// Structural well-formedness: maintained by every constructor and
    /// mutation of this crate.
    pub open spec fn wf(self) -> bool {
        self.lengths_ok() && self.first_he_in_range()
    }

    pub open spec fn vertices_in_range(self) -> bool {
        forall|h: int| 0 <= h < self.nh() ==> #[trigger] self.vtx(h) < self.nv()
    }

    pub open spec fn twins_in_range(self) -> bool {
        forall|h: int| 0 <= h < self.nh() ==> #[trigger] self.twn(h) < self.nh()
    }

    pub open spec fn next_in_range(self) -> bool {
        forall|h: int| 0 <= h < self.nh() ==> #[trigger] self.nxt(h) < self.nh()
    }

    pub open spec fn prev_in_range(self) -> bool {
        forall|h: int| 0 <= h < self.nh() ==> #[trigger] self.prv(h) < self.nh()
    }

    pub open spec fn parents_in_range(self) -> bool {
        forall|h: int| 0 <= h < self.nh() ==> #[trigger] self.par(h) < self.np()
    }

    /// Twin pairing is an involution.
    pub open spec fn twin_ok(self) -> bool {
        forall|h: int| 0 <= h < self.nh() ==> self.twn(#[trigger] self.twn(h)) == h
    }

    /// `prev` undoes `next`.
    pub open spec fn next_prev_ok(self) -> bool {
        forall|h: int| 0 <= h < self.nh() ==> self.prv(#[trigger] self.nxt(h)) == h
    }

    /// `k`-fold application of `next` starting from half-edge `start`.
    pub open spec fn next_iter(self, start: int, k: nat) -> int
        decreases k,
    {
        if k == 0 {
            start
        } else {
            self.nxt(self.next_iter(start, (k - 1) as nat))
        }
    }

    /// The `next` cycle from `start` returns to `start` within `nh` steps.
    pub open spec fn cycle_closes(self, start: int) -> bool {
        exists|k: int| 1 <= k <= self.nh() && #[trigger] self.next_iter(start, k as nat) == start
    }

    /// Every half-edge reached from a parent's first half-edge (within one
    /// sweep of the mesh) names that parent.
    pub open spec fn parent_cycle_ok(self) -> bool {
        forall|p: int, k: int|
            0 <= p < self.np() && 0 <= k < self.nh()
                ==> #[trigger] self.par(self.next_iter(self.first_he(p), k as nat)) == p
    }

    /// Everything `check_mesh` stands for: the integrity invariants of a
    /// safe mesh.
    pub open spec fn check_valid(self) -> bool {
        &&& self.wf()
        &&& self.vertices_in_range()
        &&& self.twins_in_range()
        &&& self.next_in_range()
        &&& self.prev_in_range()
        &&& self.parents_in_range()
        &&& self.twin_ok()
        &&& self.next_prev_ok()
        &&& self.parent_cycle_ok()
    }

    /// Gets the two vertices of a half-edge: its origin, then the origin of
    /// its twin (its destination).
    pub fn vertices_from_he(&self, he_id: HalfEdgeIndex) -> (r: [VertexIndex; 2])
        requires
            self.lengths_ok(),
            he_id.0 < self.nh(),
            self.twn(he_id.0 as int) < self.nh(),
        ensures
            r[0].0 == self.vtx(he_id.0 as int),
            r[1].0 == self.vtx(self.twn(he_id.0 as int)),
    {
        [
            self.he_to_vertex[he_id.0],
            self.he_to_vertex[self.he_to_twin[he_id.0].0],
        ]
    }

    /// Gets the position of a vertex.
    pub fn vertices(&self, v_id: VertexIndex) -> (r: Point2D)
        requires
            v_id.0 < self.nv(),
        ensures
            r == self.vertices@[v_id.0 as int],
    {
        self.vertices[v_id.0]
    }

    /// Returns the number of vertices.
    pub fn vertices_len(&self) -> (r: usize)
        ensures
            r == self.nv(),
    {
        self.vertices.len()
    }

    /// Returns the number of half-edges.
    pub fn he_len(&self) -> (r: usize)
        ensures
            r == self.nh(),
    {
        self.he_to_vertex.len()
    }

    /// Returns the number of parents.
    pub fn parents_len(&self) -> (r: usize)
        ensures
            r == self.np(),
    {
        self.parents.len()
    }

    /// Gets the parent (and boundary patch label) of each half-edge.
    pub fn he_to_parent(&self) -> (r: &Vec<(ParentIndex, Option<BoundaryPatchIndex>)>)
        ensures
            r@ == self.he_to_parent@,
    {
        &self.he_to_parent
    }

    /// Gets the twin of each half-edge.
    pub fn he_to_twin(&self) -> (r: &Vec<HalfEdgeIndex>)
        ensures
            r@ == self.he_to_twin@,
    {
        &self.he_to_twin
    }

    /// Gets the successor of each half-edge.
    pub fn he_to_next_he(&self) -> (r: &Vec<HalfEdgeIndex>)
        ensures
            r@ == self.he_to_next_he@,
    {
        &self.he_to_next_he
    }

    /// Gets the predecessor of each half-edge.
    pub fn he_to_prev_he(&self) -> (r: &Vec<HalfEdgeIndex>)
        ensures
            r@ == self.he_to_prev_he@,
    {
        &self.he_to_prev_he
    }

    /// Gets the parent kinds.
    pub fn parents(&self) -> (r: &Vec<Parent>)
        ensures
            r@ == self.parents@,
    {
        &self.parents
    }

    /// Gets the boundary patch labels.
    pub fn boundaries(&self) -> (r: &Vec<BoundaryPatch>)
        ensures
            r@ == self.boundaries@,
    {
        &self.boundaries
    }

    /// Gets the half-edges that originate at a vertex, in increasing order.
    pub fn he_from_vertex(&self, vertex_id: VertexIndex) -> (r: Vec<HalfEdgeIndex>)
        requires
            self.lengths_ok(),
        ensures
            forall|j: int|
                0 <= j < r@.len()
                    ==> 0 <= (#[trigger] r@[j]).0 < self.nh() && self.vtx(r@[j].0 as int)
                    == vertex_id.0,
            forall|j1: int, j2: int| 0 <= j1 < j2 < r@.len() ==> r@[j1].0 < r@[j2].0,
            forall|h: int|
                0 <= h < self.nh() && #[trigger] self.vtx(h) == vertex_id.0
                    ==> r@.contains(HalfEdgeIndex(h as usize)),
    {
        let mut result: Vec<HalfEdgeIndex> = Vec::new();
        let n = self.he_to_vertex.len();
        for i in 0..n
            invariant
                n == self.nh(),
                forall|j: int|
                    0 <= j < result@.len()
                        ==> 0 <= (#[trigger] result@[j]).0 < i && self.vtx(result@[j].0 as int)
                        == vertex_id.0,
                forall|j1: int, j2: int|
                    0 <= j1 < j2 < result@.len() ==> result@[j1].0 < result@[j2].0,
                forall|h: int|
                    0 <= h < i && #[trigger] self.vtx(h) == vertex_id.0
                        ==> result@.contains(HalfEdgeIndex(h as usize)),
        {
            let ghost prev = result@;
            if self.he_to_vertex[i].0 == vertex_id.0 {
                result.push(HalfEdgeIndex(i));
            }
            proof {
                assert forall|h: int|
                    0 <= h < i + 1 && #[trigger] self.vtx(h) == vertex_id.0 implies result@.contains(
                    HalfEdgeIndex(h as usize),
                ) by {
                    if h < i {
                        let j = choose|j: int| 0 <= j < prev.len() && prev[j] == HalfEdgeIndex(
                            h as usize,
                        );
                        assert(result@[j] == HalfEdgeIndex(h as usize));
                    } else {
                        assert(result@.last() == HalfEdgeIndex(i));
                    }
                }
            }
        }
        result
    }
}


impl Base2DMesh {
    /// Gets all half-edges of a parent: the cycle through `next` starting at
    /// the parent's first half-edge, each entry one more `next` step along.
    pub fn he_from_parent(&self, parent_id: ParentIndex) -> (r: Vec<HalfEdgeIndex>)
        requires
            self.wf(),
            self.next_in_range(),
            parent_id.0 < self.np(),
            self.cycle_closes(self.first_he(parent_id.0 as int)),
        ensures
            1 <= r@.len() <= self.nh(),
            forall|i: int|
                0 <= i < r@.len() ==> (#[trigger] r@[i]).0 == self.next_iter(
                    self.first_he(parent_id.0 as int),
                    i as nat,
                ) && r@[i].0 < self.nh(),
            self.next_iter(self.first_he(parent_id.0 as int), r@.len() as nat) == self.first_he(
                parent_id.0 as int,
            ),
            forall|i: int|
                1 <= i < r@.len() ==> #[trigger] self.next_iter(
                    self.first_he(parent_id.0 as int),
                    i as nat,
                ) != self.first_he(parent_id.0 as int),
    {
        let first_he = self.parent_to_first_he[parent_id.0];
        let ghost start = first_he.0 as int;
        let ghost k0 = choose|k: int|
            1 <= k <= self.nh() && #[trigger] self.next_iter(start, k as nat) == start;
        let mut result: Vec<HalfEdgeIndex> = Vec::new();
        result.push(first_he);
        let mut current_he = self.he_to_next_he[first_he.0];
        proof {
            assert(self.next_iter(start, 0) == start);
            assert(self.next_iter(start, 1) == self.nxt(start));
            assert(self.nxt(start) < self.nh());
        }
        while current_he.0 != first_he.0
            invariant
                self.wf(),
                self.next_in_range(),
                0 <= start < self.nh(),
                first_he.0 == start,
                1 <= k0 <= self.nh(),
                self.next_iter(start, k0 as nat) == start,
                1 <= result@.len() <= k0,
                forall|i: int|
                    0 <= i < result@.len() ==> (#[trigger] result@[i]).0 == self.next_iter(
                        start,
                        i as nat,
                    ) && result@[i].0 < self.nh(),
                current_he.0 == self.next_iter(start, result@.len() as nat),
                current_he.0 < self.nh(),
                forall|i: int|
                    1 <= i < result@.len() ==> #[trigger] self.next_iter(start, i as nat) != start,
            decreases k0 - result@.len(),
        {
            proof {
                if result@.len() == k0 {
                    assert(self.next_iter(start, k0 as nat) == start);
                    assert(false);
                }
            }
            result.push(current_he);
            current_he = self.he_to_next_he[current_he.0];
            proof {
                assert(self.nxt(result@.last().0 as int) < self.nh());
            }
        }
        result
    }

    /// Gets the origin vertices of a parent's cycle, in cycle order.
    pub fn vertices_from_parent(&self, parent_id: ParentIndex) -> (r: Vec<VertexIndex>)
        requires
            self.wf(),
            self.next_in_range(),
            parent_id.0 < self.np(),
            self.cycle_closes(self.first_he(parent_id.0 as int)),
        ensures
            1 <= r@.len() <= self.nh(),
            forall|i: int|
                0 <= i < r@.len() ==> (#[trigger] r@[i]).0 == self.vtx(
                    self.next_iter(self.first_he(parent_id.0 as int), i as nat),
                ),
            self.next_iter(self.first_he(parent_id.0 as int), r@.len() as nat) == self.first_he(
                parent_id.0 as int,
            ),
            forall|i: int|
                1 <= i < r@.len() ==> #[trigger] self.next_iter(
                    self.first_he(parent_id.0 as int),
                    i as nat,
                ) != self.first_he(parent_id.0 as int),
    {
        let hes = self.he_from_parent(parent_id);
        let mut result: Vec<VertexIndex> = Vec::new();
        let n = hes.len();
        for j in 0..n
            invariant
                self.lengths_ok(),
                n == hes@.len(),
                forall|i: int| 0 <= i < n ==> (#[trigger] hes@[i]).0 < self.nh(),
                result@.len() == j,
                forall|i: int|
                    0 <= i < j ==> (#[trigger] result@[i]).0 == self.vtx(hes@[i].0 as int),
        {
            result.push(self.he_to_vertex[hes[j].0]);
        }
        proof {
            assert(forall|i: int|
                0 <= i < n ==> (#[trigger] hes@[i]).0 == self.next_iter(
                    self.first_he(parent_id.0 as int),
                    i as nat,
                ));
        }
        result
    }

    /// Gets the parent on the far side of each half-edge of a parent's
    /// cycle: the parent of the twin, in cycle order.
    pub fn neighbors_from_parent(&self, parent_id: ParentIndex) -> (r: Vec<ParentIndex>)
        requires
            self.wf(),
            self.next_in_range(),
            self.twins_in_range(),
            parent_id.0 < self.np(),
            self.cycle_closes(self.first_he(parent_id.0 as int)),
        ensures
            1 <= r@.len() <= self.nh(),
            forall|i: int|
                0 <= i < r@.len() ==> (#[trigger] r@[i]).0 == self.par(
                    self.twn(self.next_iter(self.first_he(parent_id.0 as int), i as nat)),
                ),
    {
        let hes = self.he_from_parent(parent_id);
        let mut result: Vec<ParentIndex> = Vec::new();
        let n = hes.len();
        for j in 0..n
            invariant
                self.lengths_ok(),
                self.twins_in_range(),
                n == hes@.len(),
                forall|i: int| 0 <= i < n ==> (#[trigger] hes@[i]).0 < self.nh(),
                result@.len() == j,
                forall|i: int|
                    0 <= i < j ==> (#[trigger] result@[i]).0 == self.par(
                        self.twn(hes@[i].0 as int),
                    ),
        {
            proof {
                assert(self.twn(hes@[j as int].0 as int) < self.nh());
            }
            result.push(self.he_to_parent[self.he_to_twin[hes[j].0].0].0);
        }
        proof {
            assert(forall|i: int|
                0 <= i < n ==> (#[trigger] hes@[i]).0 == self.next_iter(
                    self.first_he(parent_id.0 as int),
                    i as nat,
                ));
        }
        result
    }
}


/// The arrays of `b` are those of `a` with only the vertex positions free
/// to differ.
pub open spec fn same_but_vertices(a: Base2DMesh, b: Base2DMesh) -> bool {
    &&& a.he_to_vertex@ == b.he_to_vertex@
    &&& a.he_to_twin@ == b.he_to_twin@
    &&& a.he_to_next_he@ == b.he_to_next_he@
    &&& a.he_to_prev_he@ == b.he_to_prev_he@
    &&& a.he_to_parent@ == b.he_to_parent@
    &&& a.parents@ == b.parents@
    &&& a.parent_to_first_he@ == b.parent_to_first_he@
    &&& a.boundaries@ == b.boundaries@
}

/// Gives access to the topology edits on a `Base2DMesh`.
#[derive(Clone, Debug, Default, PartialEq)]
pub struct Modifiable2DMesh(pub Base2DMesh);

/// Mesh whose topology passed `check_mesh`; safe to hand to computations.
#[derive(Clone, Debug, Default, PartialEq)]
pub struct Safe2DMesh(pub Base2DMesh);

impl Modifiable2DMesh {
    /// Moves a vertex to a new position.  Only the one position changes.
    pub fn set_vertex(&mut self, vertex_id: VertexIndex, pos: Point2D)
        requires
            vertex_id.0 < old(self).0.nv(),
        ensures
            final(self).0.vertices@ == old(self).0.vertices@.update(vertex_id.0 as int, pos),
            same_but_vertices(old(self).0, final(self).0),
    {
        self.0.vertices.set(vertex_id.0, pos);
    }

    /// Replaces the kind of a parent.  Only the one entry changes.
    pub fn set_parent(&mut self, parent_id: ParentIndex, kind: Parent)
        requires
            parent_id.0 < old(self).0.np(),
        ensures
            final(self).0.parents@ == old(self).0.parents@.update(parent_id.0 as int, kind),
            final(self).0.he_to_vertex@ == old(self).0.he_to_vertex@,
            final(self).0.he_to_twin@ == old(self).0.he_to_twin@,
            final(self).0.he_to_next_he@ == old(self).0.he_to_next_he@,
            final(self).0.he_to_prev_he@ == old(self).0.he_to_prev_he@,
            final(self).0.he_to_parent@ == old(self).0.he_to_parent@,
            final(self).0.vertices@ == old(self).0.vertices@,
            final(self).0.parent_to_first_he@ == old(self).0.parent_to_first_he@,
            final(self).0.boundaries@ == old(self).0.boundaries@,
    {
        self.0.parents.set(parent_id.0, kind);
    }
}


/// Some half-edge runs from vertex `u` to vertex `v`.
pub open spec fn edge_exists(m: Base2DMesh, u: int, v: int) -> bool {
    exists|h: int| 0 <= h < m.nh() && #[trigger] m.vtx(h) == u && m.vtx(m.twn(h)) == v
}

/// Some half-edge originates at vertex `v` and belongs to parent `p`.
pub open spec fn has_he_at(m: Base2DMesh, v: int, p: int) -> bool {
    exists|h: int| 0 <= h < m.nh() && #[trigger] m.vtx(h) == v && m.par(h) == p
}

/// Half-edge `h` is reachable from the first half-edge of its own parent.
pub open spec fn on_parent_cycle(m: Base2DMesh, h: int) -> bool {
    exists|k: int|
        0 <= k < m.nh() && #[trigger] m.next_iter(m.first_he(m.par(h)), k as nat) == h
}

/// Every half-edge lies on its own parent's cycle: the converse of
/// `parent_cycle_ok`, together making invariant four of the data model.
pub open spec fn parents_complete(m: Base2DMesh) -> bool {
    forall|h: int| 0 <= h < m.nh() ==> #[trigger] on_parent_cycle(m, h)
}


impl Base2DMesh {
    /// Decides structural well-formedness at run time: the parallel arrays
    /// agree in length and every parent's first half-edge is a real
    /// half-edge.  This is the precondition of `check_mesh`, met by every
    /// mesh this crate constructs.
    pub fn check_wf(&self) -> (r: bool)
        ensures
            r == self.wf(),
    {
        let nh = self.he_to_vertex.len();
        if self.he_to_twin.len() != nh || self.he_to_next_he.len() != nh
            || self.he_to_prev_he.len() != nh || self.he_to_parent.len() != nh
            || self.parent_to_first_he.len() != self.parents.len() {
            return false;
        }
        let num_p = self.parent_to_first_he.len();
        for p in 0..num_p
            invariant
                self.lengths_ok(),
                nh == self.nh(),
                num_p == self.np(),
                forall|q: int| 0 <= q < p ==> 0 <= #[trigger] self.first_he(q) < self.nh(),
        {
            if self.parent_to_first_he[p].0 >= nh {
                proof {
                    assert(self.first_he(p as int) >= self.nh());
                }
                return false;
            }
        }
        true
    }
}

} // verus!
