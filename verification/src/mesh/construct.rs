use vstd::prelude::*;
use crate::mesh::computational_mesh::BoundaryPatch;
use crate::mesh::half_edge::{on_parent_cycle, parents_complete, Base2DMesh, Modifiable2DMesh,
    Parent};
use crate::mesh::indices::{BoundaryPatchIndex, HalfEdgeIndex, ParentIndex, VertexIndex};
use crate::mesh::topology::lemma_next_iter_reduce;
use crate::scalar::Point2D;

verus! {

/// An oriented boundary edge: start vertex, end vertex, and the parent on
/// its outer side (with that side's boundary patch label).
pub type BoundaryEdge = (VertexIndex, VertexIndex, (ParentIndex, Option<BoundaryPatchIndex>));

/// Some edge of the list names parent `p` on its outer side.
pub open spec fn parent_used(edges: Seq<BoundaryEdge>, p: int) -> bool {
    exists|i: int| 0 <= i < edges.len() && (#[trigger] edges[i]).2.0.0 == p
}

impl Modifiable2DMesh {
    /// Creates a mesh with only boundaries defined.  The edges must be given
    /// in cyclic order (each edge starts at the end vertex of the one
    /// before, wrapping around), every named parent must be used by some
    /// edge, and one interior `Cell` parent is appended behind the given
    /// parents.  Each input edge becomes a twin pair: the even half-edge on
    /// the interior side, the odd one on the given parent's side; the
    /// interior cycle runs forward through the even half-edges, the outer
    /// cycle backward through the odd ones.
    ///
    /// The cyclic ordering itself is the caller's burden and is not needed
    /// for the construction below; `check_mesh` decides whether the result
    /// is sound.
    pub fn new_from_boundary(
        vertices: Vec<Point2D>,
        edge_to_vertices_and_parent: Vec<BoundaryEdge>,
        parents: Vec<Parent>,
        boundaries: Vec<BoundaryPatch>,
    ) -> (r: Modifiable2DMesh)
        requires
            1 <= edge_to_vertices_and_parent@.len(),
            2 * edge_to_vertices_and_parent@.len() + 2 <= usize::MAX,
            forall|p: int|
                0 <= p < parents@.len() ==> #[trigger] parent_used(
                    edge_to_vertices_and_parent@,
                    p,
                ),
        ensures
            r.0.wf(),
            r.0.nh() == 2 * edge_to_vertices_and_parent@.len(),
            r.0.vertices@ == vertices@,
            r.0.boundaries@ == boundaries@,
            r.0.parents@ == parents@.push(Parent::Cell),
            r.0.np() == parents@.len() + 1,
            forall|i: int|
                0 <= i < edge_to_vertices_and_parent@.len() ==> {
                    &&& r.0.vtx(2 * i) == (#[trigger] edge_to_vertices_and_parent@[i]).0.0
                    &&& r.0.vtx(2 * i + 1) == edge_to_vertices_and_parent@[i].1.0
                    &&& r.0.twn(2 * i) == 2 * i + 1
                    &&& r.0.twn(2 * i + 1) == 2 * i
                    &&& r.0.par(2 * i) == parents@.len()
                    &&& r.0.patch(2 * i) is None
                    &&& r.0.par(2 * i + 1) == edge_to_vertices_and_parent@[i].2.0.0
                    &&& r.0.patch(2 * i + 1) == edge_to_vertices_and_parent@[i].2.1
                },
            forall|i: int|
                0 <= i < edge_to_vertices_and_parent@.len() ==> #[trigger] r.0.nxt(2 * i) == (if i
                    + 1 < edge_to_vertices_and_parent@.len() {
                    2 * i + 2
                } else {
                    0
                }) && r.0.nxt(2 * i + 1) == (if i >= 1 {
                    2 * i - 1
                } else {
                    2 * edge_to_vertices_and_parent@.len() - 1
                }) && r.0.prv(2 * i) == (if i >= 1 {
                    2 * i - 2
                } else {
                    2 * edge_to_vertices_and_parent@.len() - 2
                }) && r.0.prv(2 * i + 1) == (if i + 1 < edge_to_vertices_and_parent@.len() {
                    2 * i + 3
                } else {
                    1
                }),
            forall|p: int|
                0 <= p < r.0.np() ==> r.0.par(#[trigger] r.0.first_he(p)) == p && (forall|j: int|
                    0 <= j < r.0.first_he(p) ==> r.0.par(j) != p),
    {
        let n = edge_to_vertices_and_parent.len();
        let mut parents = parents;
        let cell = ParentIndex(parents.len());
        parents.push(Parent::Cell);

        let mut he_to_vertex: Vec<VertexIndex> = Vec::new();
        let mut he_to_twin: Vec<HalfEdgeIndex> = Vec::new();
        let mut he_to_next_he: Vec<HalfEdgeIndex> = Vec::new();
        let mut he_to_prev_he: Vec<HalfEdgeIndex> = Vec::new();
        let mut he_to_parent: Vec<(ParentIndex, Option<BoundaryPatchIndex>)> = Vec::new();
        let mut parent_to_first_he: Vec<HalfEdgeIndex> = Vec::new();

        for i in 0..n
            invariant
                n == edge_to_vertices_and_parent@.len(),
                2 * n + 2 <= usize::MAX,
                he_to_vertex@.len() == 2 * i,
                forall|k: int|
                    0 <= k < i ==> he_to_vertex@[2 * k] == (
                    #[trigger] edge_to_vertices_and_parent@[k]).0 && he_to_vertex@[2 * k + 1]
                        == edge_to_vertices_and_parent@[k].1,
        {
            let ghost ov = he_to_vertex@;
            let edge = edge_to_vertices_and_parent[i];
            he_to_vertex.push(edge.0);
            he_to_vertex.push(edge.1);
            proof {
                assert(edge_to_vertices_and_parent@[i as int] == edge);
                assert forall|k: int|
                    0 <= k < i + 1 implies he_to_vertex@[2 * k] == (
                #[trigger] edge_to_vertices_and_parent@[k]).0 && he_to_vertex@[2 * k + 1]
                    == edge_to_vertices_and_parent@[k].1 by {
                    if k < i {
                        assert(he_to_vertex@[2 * k] == ov[2 * k]);
                        assert(he_to_vertex@[2 * k + 1] == ov[2 * k + 1]);
                    } else {
                        assert(he_to_vertex@[2 * k] == edge.0);
                        assert(he_to_vertex@[2 * k + 1] == edge.1);
                    }
                }
            }
        }

        for i in 0..n
            invariant
                n == edge_to_vertices_and_parent@.len(),
                2 * n + 2 <= usize::MAX,
                he_to_twin@.len() == 2 * i,
                forall|k: int|
                    0 <= k < i ==> (#[trigger] he_to_twin@[2 * k]).0 == 2 * k + 1
                        && he_to_twin@[2 * k + 1].0 == 2 * k,
        {
            let ghost ot = he_to_twin@;
            he_to_twin.push(HalfEdgeIndex(2 * i + 1));
            he_to_twin.push(HalfEdgeIndex(2 * i));
            proof {
                assert forall|k: int|
                    0 <= k < i + 1 implies (#[trigger] he_to_twin@[2 * k]).0 == 2 * k + 1
                    && he_to_twin@[2 * k + 1].0 == 2 * k by {
                    if k < i {
                        assert(he_to_twin@[2 * k] == ot[2 * k]);
                        assert(he_to_twin@[2 * k + 1] == ot[2 * k + 1]);
                    } else {
                        assert(he_to_twin@[2 * k].0 == 2 * k + 1);
                        assert(he_to_twin@[2 * k + 1].0 == 2 * k);
                    }
                }
            }
        }

        for i in 0..n
            invariant
                n == edge_to_vertices_and_parent@.len(),
                2 * n + 2 <= usize::MAX,
                he_to_parent@.len() == 2 * i,
                forall|k: int|
                    0 <= k < i ==> (#[trigger] he_to_parent@[2 * k]).0 == cell
                        && he_to_parent@[2 * k].1 is None && he_to_parent@[2 * k + 1]
                        == edge_to_vertices_and_parent@[k].2,
        {
            let ghost opr = he_to_parent@;
            let edge = edge_to_vertices_and_parent[i];
            he_to_parent.push((cell, None));
            he_to_parent.push(edge.2);
            proof {
                assert(edge_to_vertices_and_parent@[i as int] == edge);
                assert forall|k: int|
                    0 <= k < i + 1 implies (#[trigger] he_to_parent@[2 * k]).0 == cell
                    && he_to_parent@[2 * k].1 is None && he_to_parent@[2 * k + 1]
                    == edge_to_vertices_and_parent@[k].2 by {
                    if k < i {
                        assert(he_to_parent@[2 * k] == opr[2 * k]);
                        assert(he_to_parent@[2 * k + 1] == opr[2 * k + 1]);
                    } else {
                        assert(he_to_parent@[2 * k].0 == cell);
                        assert(he_to_parent@[2 * k].1 is None);
                        assert(he_to_parent@[2 * k + 1] == edge.2);
                    }
                }
            }
        }

        for i in 0..n
            invariant
                n == edge_to_vertices_and_parent@.len(),
                1 <= n,
                2 * n + 2 <= usize::MAX,
                he_to_next_he@.len() == 2 * i,
                forall|k: int|
                    0 <= k < i ==> (#[trigger] he_to_next_he@[2 * k]).0 == (if k + 1 < n as int {
                        2 * k + 2
                    } else {
                        0
                    }) && he_to_next_he@[2 * k + 1].0 == (if k >= 1 {
                        2 * k - 1
                    } else {
                        2 * (n as int) - 1
                    }),
        {
            let ghost onx = he_to_next_he@;
            he_to_next_he.push(HalfEdgeIndex(if i + 1 < n { 2 * i + 2 } else { 0 }));
            he_to_next_he.push(HalfEdgeIndex(if i >= 1 { 2 * i - 1 } else { 2 * n - 1 }));
            proof {
                assert forall|k: int|
                    0 <= k < i + 1 implies (#[trigger] he_to_next_he@[2 * k]).0 == (if k + 1 < n
                    as int {
                    2 * k + 2
                } else {
                    0
                }) && he_to_next_he@[2 * k + 1].0 == (if k >= 1 {
                    2 * k - 1
                } else {
                    2 * (n as int) - 1
                }) by {
                    if k < i {
                        assert(he_to_next_he@[2 * k] == onx[2 * k]);
                        assert(he_to_next_he@[2 * k + 1] == onx[2 * k + 1]);
                    }
                }
            }
        }

        for i in 0..n
            invariant
                n == edge_to_vertices_and_parent@.len(),
                1 <= n,
                2 * n + 2 <= usize::MAX,
                he_to_prev_he@.len() == 2 * i,
                forall|k: int|
                    0 <= k < i ==> (#[trigger] he_to_prev_he@[2 * k]).0 == (if k >= 1 {
                        2 * k - 2
                    } else {
                        2 * (n as int) - 2
                    }) && he_to_prev_he@[2 * k + 1].0 == (if k + 1 < n as int {
                        2 * k + 3
                    } else {
                        1
                    }),
        {
            let ghost opv = he_to_prev_he@;
            he_to_prev_he.push(HalfEdgeIndex(if i >= 1 { 2 * i - 2 } else { 2 * n - 2 }));
            he_to_prev_he.push(HalfEdgeIndex(if i + 1 < n { 2 * i + 3 } else { 1 }));
            proof {
                assert forall|k: int|
                    0 <= k < i + 1 implies (#[trigger] he_to_prev_he@[2 * k]).0 == (if k >= 1 {
                    2 * k - 2
                } else {
                    2 * (n as int) - 2
                }) && he_to_prev_he@[2 * k + 1].0 == (if k + 1 < n as int {
                    2 * k + 3
                } else {
                    1
                }) by {
                    if k < i {
                        assert(he_to_prev_he@[2 * k] == opv[2 * k]);
                        assert(he_to_prev_he@[2 * k + 1] == opv[2 * k + 1]);
                    }
                }
            }
        }

        let num_p = parents.len();
        for p in 0..num_p
            invariant
                n == edge_to_vertices_and_parent@.len(),
                1 <= n,
                num_p == parents@.len(),
                cell.0 == num_p - 1,
                2 * n + 2 <= usize::MAX,
                he_to_parent@.len() == 2 * n,
                forall|k: int|
                    0 <= k < n ==> (#[trigger] he_to_parent@[2 * k]).0 == cell && he_to_parent@[2
                        * k + 1] == edge_to_vertices_and_parent@[k].2,
                forall|q: int|
                    0 <= q < num_p - 1 ==> #[trigger] parent_used(edge_to_vertices_and_parent@, q),
                parent_to_first_he@.len() == p,
                forall|q: int|
                    0 <= q < p ==> {
                        let f = (#[trigger] parent_to_first_he@[q]).0;
                        &&& f < 2 * n
                        &&& he_to_parent@[f as int].0.0 == q
                        &&& forall|j: int| 0 <= j < f ==> he_to_parent@[j].0.0 != q
                    },
        {
            proof {
                if p < num_p - 1 {
                    assert(parent_used(edge_to_vertices_and_parent@, p as int));
                    let k = choose|k: int|
                        0 <= k < n && (#[trigger] edge_to_vertices_and_parent@[k]).2.0.0 == p;
                    assert(he_to_parent@[2 * k].0 == cell);
                    assert(he_to_parent@[2 * k + 1].0.0 == p);
                } else {
                    let k0: int = 0;
                    assert(he_to_parent@[2 * k0].0 == cell);
                    assert(he_to_parent@[0].0.0 == p);
                }
            }
            let mut j: usize = 0;
            while he_to_parent[j].0.0 != p
                invariant
                    he_to_parent@.len() == 2 * n,
                    2 * n + 2 <= usize::MAX,
                    j < 2 * n,
                    exists|k: int| j <= k < 2 * n && #[trigger] he_to_parent@[k].0.0 == p,
                    forall|k: int| 0 <= k < j ==> he_to_parent@[k].0.0 != p,
                decreases 2 * n - j,
            {
                j = j + 1;
            }
            parent_to_first_he.push(HalfEdgeIndex(j));
        }

        let result = Modifiable2DMesh(
            Base2DMesh {
                he_to_vertex,
                he_to_twin,
                he_to_next_he,
                he_to_prev_he,
                he_to_parent,
                vertices,
                parents,
                parent_to_first_he,
                boundaries,
            },
        );
        proof {
            assert forall|i: int| 0 <= i < edge_to_vertices_and_parent@.len() implies {
                &&& result.0.vtx(2 * i) == (#[trigger] edge_to_vertices_and_parent@[i]).0.0
                &&& result.0.vtx(2 * i + 1) == edge_to_vertices_and_parent@[i].1.0
                &&& result.0.twn(2 * i) == 2 * i + 1
                &&& result.0.twn(2 * i + 1) == 2 * i
                &&& result.0.par(2 * i) == parents@.len() - 1
                &&& result.0.patch(2 * i) is None
                &&& result.0.par(2 * i + 1) == edge_to_vertices_and_parent@[i].2.0.0
                &&& result.0.patch(2 * i + 1) == edge_to_vertices_and_parent@[i].2.1
            } by {
                assert(result.0.he_to_vertex@[2 * i] == edge_to_vertices_and_parent@[i].0);
                assert(result.0.he_to_twin@[2 * i].0 == 2 * i + 1);
                assert(result.0.he_to_parent@[2 * i].0 == cell);
                assert(result.0.he_to_parent@[2 * i].1 is None);
            }
            assert forall|i: int|
                0 <= i < edge_to_vertices_and_parent@.len() implies #[trigger] result.0.nxt(2 * i)
                == (if i + 1 < edge_to_vertices_and_parent@.len() {
                2 * i + 2
            } else {
                0
            }) && result.0.nxt(2 * i + 1) == (if i >= 1 {
                2 * i - 1
            } else {
                2 * edge_to_vertices_and_parent@.len() - 1
            }) && result.0.prv(2 * i) == (if i >= 1 {
                2 * i - 2
            } else {
                2 * edge_to_vertices_and_parent@.len() - 2
            }) && result.0.prv(2 * i + 1) == (if i + 1 < edge_to_vertices_and_parent@.len() {
                2 * i + 3
            } else {
                1
            }) by {
                let nn = edge_to_vertices_and_parent@.len() as int;
                assert(result.0.he_to_next_he@[2 * i].0 == (if i + 1 < nn {
                    2 * i + 2
                } else {
                    0
                }));
                assert(result.0.he_to_prev_he@[2 * i].0 == (if i >= 1 {
                    2 * i - 2
                } else {
                    2 * nn - 2
                }));
            }
        }
        result
    }
}


/// The shape `new_from_boundary` gives its result, seen purely through the
/// mesh: each input edge `i` became the twin pair `2i` (interior side) and
/// `2i + 1` (outer side), the interior cycle runs forward through the even
/// half-edges and the outer cycle backward through the odd ones.
pub open spec fn built_from_edges(m: Base2DMesh, edges: Seq<BoundaryEdge>) -> bool {
    let n = edges.len() as int;
    &&& m.wf()
    &&& 1 <= n
    &&& m.nh() == 2 * n
    &&& forall|i: int|
        0 <= i < n ==> {
            &&& m.vtx(2 * i) == (#[trigger] edges[i]).0.0
            &&& m.vtx(2 * i + 1) == edges[i].1.0
            &&& m.twn(2 * i) == 2 * i + 1
            &&& m.twn(2 * i + 1) == 2 * i
            &&& m.par(2 * i) == m.np() - 1
            &&& m.par(2 * i + 1) == edges[i].2.0.0
        }
    &&& forall|i: int|
        #![trigger m.nxt(2 * i)]
        #![trigger m.nxt(2 * i + 1)]
        #![trigger m.prv(2 * i)]
        #![trigger m.prv(2 * i + 1)]
        0 <= i < n ==> m.nxt(2 * i) == (if i + 1 < n {
            2 * i + 2
        } else {
            0
        }) && m.nxt(2 * i + 1) == (if i >= 1 {
            2 * i - 1
        } else {
            2 * n - 1
        }) && m.prv(2 * i) == (if i >= 1 {
            2 * i - 2
        } else {
            2 * n - 2
        }) && m.prv(2 * i + 1) == (if i + 1 < n {
            2 * i + 3
        } else {
            1
        })
}

/// The even half-edges form one forward cycle of length `n`.
proof fn lemma_even_orbit(m: Base2DMesh, edges: Seq<BoundaryEdge>, k: int)
    requires
        built_from_edges(m, edges),
        0 <= k <= edges.len(),
    ensures
        m.next_iter(0, k as nat) == (if k < edges.len() {
            2 * k
        } else {
            0int
        }),
    decreases k,
{
    let n = edges.len() as int;
    if k > 0 {
        lemma_even_orbit(m, edges, k - 1);
        assert(m.nxt(2 * (k - 1)) == (if k < n {
            2 * k
        } else {
            0int
        }));
    }
}

/// The odd half-edges form one backward cycle of length `n`.
proof fn lemma_odd_orbit(m: Base2DMesh, edges: Seq<BoundaryEdge>, k: int)
    requires
        built_from_edges(m, edges),
        0 <= k <= edges.len(),
    ensures
        m.next_iter(1, k as nat) == (if k == 0 || k == edges.len() {
            1int
        } else {
            2 * (edges.len() - k) + 1
        }),
    decreases k,
{
    let n = edges.len() as int;
    if k > 0 {
        lemma_odd_orbit(m, edges, k - 1);
        if k == 1 {
            let z: int = 0;
            assert(m.nxt(2 * z + 1) == (if n == 1 {
                1int
            } else {
                2 * (n - 1) + 1
            }));
        } else {
            let i = n - (k - 1);
            assert(1 <= i < n);
            assert(m.nxt(2 * i + 1) == 2 * i - 1);
            assert(2 * i - 1 == (if k == n {
                1int
            } else {
                2 * (n - k) + 1
            }));
        }
    }
}


/// Pointwise link facts of a freshly built mesh: every reference of
/// half-edge `h` is in range, its twin pairing is involutive and its
/// `prev` undoes its `next`.
proof fn lemma_built_links(m: Base2DMesh, edges: Seq<BoundaryEdge>, h: int)
    requires
        built_from_edges(m, edges),
        m.np() == 2,
        forall|i: int| 0 <= i < edges.len() ==> (#[trigger] edges[i]).2.0.0 == 0,
        forall|i: int|
            0 <= i < edges.len() ==> (#[trigger] edges[i]).0.0 < m.nv() && edges[i].1.0 < m.nv(),
        0 <= h < m.nh(),
    ensures
        m.vtx(h) < m.nv(),
        m.twn(h) < m.nh(),
        m.nxt(h) < m.nh(),
        m.prv(h) < m.nh(),
        m.par(h) < m.np(),
        m.twn(m.twn(h)) == h,
        m.prv(m.nxt(h)) == h,
{
    let n = edges.len() as int;
    let i = h / 2;
    assert(0 <= i < n) by {
        vstd::arithmetic::div_mod::lemma_mod_bound(h, 2);
    }
    assert(h == 2 * i || h == 2 * i + 1) by {
        vstd::arithmetic::div_mod::lemma_fundamental_div_mod(h, 2);
        vstd::arithmetic::div_mod::lemma_mod_bound(h, 2);
    }
    let ev = edges[i];
    if h == 2 * i {
        if i + 1 < n {
            assert(m.prv(2 * (i + 1)) == 2 * i);
        } else {
            let z: int = 0;
            assert(m.prv(2 * z) == 2 * n - 2);
        }
    } else {
        if i >= 1 {
            assert(m.nxt(2 * i + 1) == 2 * i - 1);
            assert(m.prv(2 * (i - 1) + 1) == 2 * i + 1);
        } else {
            assert(m.nxt(1) == 2 * n - 1);
            assert(m.prv(2 * (n - 1) + 1) == 1);
        }
    }
}

/// A mesh built from a closed boundary whose edges all name the one
/// boundary parent passes every integrity check: the interior cycle and
/// the outer cycle are closed, parent-uniform and cover all half-edges.
pub proof fn lemma_single_boundary_mesh_valid(m: Base2DMesh, edges: Seq<BoundaryEdge>)
    requires
        built_from_edges(m, edges),
        m.np() == 2,
        m.first_he(0) == 1,
        m.first_he(1) == 0,
        forall|i: int| 0 <= i < edges.len() ==> (#[trigger] edges[i]).2.0.0 == 0,
        forall|i: int|
            0 <= i < edges.len() ==> (#[trigger] edges[i]).0.0 < m.nv() && edges[i].1.0 < m.nv(),
    ensures
        m.check_valid(),
        parents_complete(m),
{
    let n = edges.len() as int;
    assert forall|h: int| 0 <= h < m.nh() implies #[trigger] m.vtx(h) < m.nv() by {
        lemma_built_links(m, edges, h);
    }
    assert forall|h: int| 0 <= h < m.nh() implies #[trigger] m.twn(h) < m.nh() by {
        lemma_built_links(m, edges, h);
    }
    assert forall|h: int| 0 <= h < m.nh() implies #[trigger] m.nxt(h) < m.nh() by {
        lemma_built_links(m, edges, h);
    }
    assert forall|h: int| 0 <= h < m.nh() implies #[trigger] m.prv(h) < m.nh() by {
        lemma_built_links(m, edges, h);
    }
    assert forall|h: int| 0 <= h < m.nh() implies #[trigger] m.par(h) < m.np() by {
        lemma_built_links(m, edges, h);
    }
    assert forall|h: int| 0 <= h < m.nh() implies m.twn(#[trigger] m.twn(h)) == h by {
        lemma_built_links(m, edges, h);
    }
    assert forall|h: int| 0 <= h < m.nh() implies m.prv(#[trigger] m.nxt(h)) == h by {
        lemma_built_links(m, edges, h);
    }
    lemma_even_orbit(m, edges, n);
    lemma_odd_orbit(m, edges, n);
    assert(m.next_iter(0, n as nat) == 0);
    assert(m.next_iter(1, n as nat) == 1);
    assert forall|p: int, k: int|
        0 <= p < m.np() && 0 <= k < m.nh() implies #[trigger] m.par(
        m.next_iter(m.first_he(p), k as nat),
    ) == p by {
        vstd::arithmetic::div_mod::lemma_mod_bound(k, n);
        let j = k % n;
        if p == 1 {
            lemma_next_iter_reduce(m, 0, n, k);
            lemma_even_orbit(m, edges, j);
            if j < n {
                let ej = edges[j];
                assert(m.par(2 * j) == m.np() - 1);
            }
        } else {
            lemma_next_iter_reduce(m, 1, n, k);
            lemma_odd_orbit(m, edges, j);
            if 1 <= j < n {
                let ej = edges[n - j];
                assert(m.par(2 * (n - j) + 1) == edges[n - j].2.0.0);
            } else {
                let z: int = 0;
                let e0 = edges[0];
                assert(m.par(2 * z + 1) == edges[0].2.0.0);
            }
        }
    }
    assert forall|h: int| 0 <= h < m.nh() implies #[trigger] on_parent_cycle(m, h) by {
        let i = h / 2;
        assert(0 <= i < n && (h == 2 * i || h == 2 * i + 1)) by {
            vstd::arithmetic::div_mod::lemma_fundamental_div_mod(h, 2);
            vstd::arithmetic::div_mod::lemma_mod_bound(h, 2);
        }
        let ev2 = edges[i];
        if h == 2 * i {
            assert(m.par(h) == 1);
            lemma_even_orbit(m, edges, i);
            assert(m.next_iter(m.first_he(m.par(h)), i as nat) == h);
        } else {
            assert(m.par(h) == 0);
            if i == 0 {
                assert(m.next_iter(m.first_he(m.par(h)), 0) == h);
            } else {
                let k = n - i;
                assert(1 <= k < n);
                lemma_odd_orbit(m, edges, k);
                assert(m.next_iter(m.first_he(m.par(h)), k as nat) == 2 * (n - k) + 1);
                assert(m.next_iter(m.first_he(m.par(h)), k as nat) == h);
            }
        }
    }
}


/// What `new_from_boundary` promises implies, for a single boundary
/// parent and in-range vertex indices, every integrity invariant: the
/// canonical construction is valid by theorem, with no run-time check
/// needed.  The hypotheses are the constructor's contract.
pub proof fn lemma_new_from_boundary_single_valid(m: Base2DMesh, edges: Seq<BoundaryEdge>, parents: Seq<Parent>)
    requires
        parents.len() == 1,
        1 <= edges.len(),
        m.wf(),
        m.nh() == 2 * edges.len(),
        m.parents@ == parents.push(Parent::Cell),
        m.np() == parents.len() + 1,
        forall|i: int|
            0 <= i < edges.len() ==> {
                &&& m.vtx(2 * i) == (#[trigger] edges[i]).0.0
                &&& m.vtx(2 * i + 1) == edges[i].1.0
                &&& m.twn(2 * i) == 2 * i + 1
                &&& m.twn(2 * i + 1) == 2 * i
                &&& m.par(2 * i) == parents.len()
                &&& m.patch(2 * i) is None
                &&& m.par(2 * i + 1) == edges[i].2.0.0
                &&& m.patch(2 * i + 1) == edges[i].2.1
            },
        forall|i: int|
            0 <= i < edges.len() ==> #[trigger] m.nxt(2 * i) == (if i + 1 < edges.len() {
                2 * i + 2
            } else {
                0
            }) && m.nxt(2 * i + 1) == (if i >= 1 {
                2 * i - 1
            } else {
                2 * edges.len() - 1
            }) && m.prv(2 * i) == (if i >= 1 {
                2 * i - 2
            } else {
                2 * edges.len() - 2
            }) && m.prv(2 * i + 1) == (if i + 1 < edges.len() {
                2 * i + 3
            } else {
                1
            }),
        forall|p: int|
            0 <= p < m.np() ==> m.par(#[trigger] m.first_he(p)) == p && (forall|j: int|
                0 <= j < m.first_he(p) ==> m.par(j) != p),
        forall|i: int| 0 <= i < edges.len() ==> (#[trigger] edges[i]).2.0.0 == 0,
        forall|i: int|
            0 <= i < edges.len() ==> (#[trigger] edges[i]).0.0 < m.nv() && edges[i].1.0 < m.nv(),
    ensures
        m.check_valid(),
        parents_complete(m),
{
    let n = edges.len() as int;
    assert forall|i: int| 0 <= i < n implies ({
        &&& m.vtx(2 * i) == (#[trigger] edges[i]).0.0
        &&& m.vtx(2 * i + 1) == edges[i].1.0
        &&& m.twn(2 * i) == 2 * i + 1
        &&& m.twn(2 * i + 1) == 2 * i
        &&& m.par(2 * i) == m.np() - 1
        &&& m.par(2 * i + 1) == edges[i].2.0.0
    }) by {
        let e = edges[i];
        assert(m.par(2 * i) == parents.len());
    }
    assert forall|i: int|
        0 <= i < n implies #[trigger] m.nxt(2 * i) == (if i + 1 < n {
        2 * i + 2
    } else {
        0
    }) && m.nxt(2 * i + 1) == (if i >= 1 {
        2 * i - 1
    } else {
        2 * n - 1
    }) && m.prv(2 * i) == (if i >= 1 {
        2 * i - 2
    } else {
        2 * n - 2
    }) && m.prv(2 * i + 1) == (if i + 1 < n {
        2 * i + 3
    } else {
        1
    }) by {
        assert(m.nxt(2 * i) == (if i + 1 < edges.len() {
            2 * i + 2
        } else {
            0
        }));
    }
    assert(built_from_edges(m, edges));
    assert(m.first_he(1) == 0) by {
        assert(m.par(m.first_he(1)) == 1);
        let e0 = edges[0];
        let z: int = 0;
        assert(m.par(2 * z + 1) == 0);
        if m.first_he(1) > 0 {
            assert(m.par(0) != 1);
        }
    }
    assert(m.first_he(0) == 1) by {
        let e0 = edges[0];
        if m.first_he(0) != 1 {
            assert(m.par(m.first_he(0)) == 0);
        }
    }
    lemma_single_boundary_mesh_valid(m, edges);
}

} // verus!
