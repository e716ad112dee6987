use vstd::prelude::*;
use crate::errors::MeshError;
use crate::mesh::half_edge::{parents_complete, Base2DMesh, Modifiable2DMesh, Parent};
use crate::mesh::indices::{HalfEdgeIndex, ParentIndex, VertexIndex};
use crate::mesh::topology::lemma_parent_along_orbit;

verus! {

/// Half-edge `h` is the shared edge seen from parent `a`: it belongs to
/// `a` and its twin belongs to `b`.
pub open spec fn shared_he(m: Base2DMesh, a: int, b: int, h: int) -> bool {
    0 <= h < m.nh() && m.par(h) == a && m.par(m.twn(h)) == b
}

/// The two parents share exactly one edge.
pub open spec fn unique_shared_he(m: Base2DMesh, a: int, b: int) -> bool {
    exists|h: int|
        #[trigger] shared_he(m, a, b, h) && (forall|h2: int| shared_he(m, a, b, h2) ==> h2 == h)
}

/// The cycle of `h` is a genuine triangle: three steps of `next` return to
/// `h` and no fewer.
pub open spec fn triangle_cycle(m: Base2DMesh, h: int) -> bool {
    &&& m.nxt(h) != h
    &&& m.nxt(m.nxt(h)) != h
    &&& m.nxt(m.nxt(m.nxt(h))) == h
}

/// Everything `swap_edge` checks before touching the mesh: two distinct
/// in-range `Cell` parents sharing exactly one edge, both of whose cycles
/// are triangles.
pub open spec fn swap_ready(m: Base2DMesh, a: int, b: int) -> bool {
    &&& 0 <= a < m.np()
    &&& 0 <= b < m.np()
    &&& a != b
    &&& m.parents@[a] == Parent::Cell
    &&& m.parents@[b] == Parent::Cell
    &&& unique_shared_he(m, a, b)
    &&& triangle_cycle(m, choose|h: int| #[trigger] shared_he(m, a, b, h))
    &&& triangle_cycle(m, m.twn(choose|h: int| #[trigger] shared_he(m, a, b, h)))
}

impl Modifiable2DMesh {
    /// Finds the quadrilateral of an edge swap between two adjacent
    /// triangular cells: the two endpoints of the shared edge, then the
    /// opposite vertex of the first cell, then the opposite vertex of the
    /// second.  Fails exactly as `swap_edge` does before its geometry test.
    pub fn swap_edge_vertices(
        &self,
        cells_idx: (ParentIndex, ParentIndex),
    ) -> (r: Result<[VertexIndex; 4], MeshError>)
        requires
            self.0.check_valid(),
            parents_complete(self.0),
        ensures
            r is Ok <==> swap_ready(self.0, cells_idx.0.0 as int, cells_idx.1.0 as int),
            r matches Ok(quad) ==> ({
                let m = self.0;
                let h = choose|h: int|
                    #[trigger] shared_he(m, cells_idx.0.0 as int, cells_idx.1.0 as int, h);
                let t = m.twn(h);
                &&& quad[0].0 == m.vtx(h)
                &&& quad[1].0 == m.vtx(t)
                &&& quad[2].0 == m.vtx(m.nxt(m.nxt(h)))
                &&& quad[3].0 == m.vtx(m.nxt(m.nxt(t)))
            }),
            r matches Err(e) ==> matches!(
                e,
                MeshError::ParentIndexOutOfBound { .. } | MeshError::WrongMeshInitialisation,
            ),
    {
        match self.find_swap_half_edge(cells_idx) {
            Err(e) => Err(e),
            Ok(he) => {
                proof {
                    let m = self.0;
                    let a = cells_idx.0.0 as int;
                    let b = cells_idx.1.0 as int;
                    let hh = choose|h: int| #[trigger] shared_he(m, a, b, h);
                    assert(hh == he.0 as int);
                    lemma_parent_along_orbit(m, he.0 as int, 1);
                    lemma_parent_along_orbit(m, he.0 as int, 2);
                    assert(m.next_iter(he.0 as int, 0) == he.0 as int);
                    assert(m.next_iter(he.0 as int, 1) == m.nxt(he.0 as int));
                    assert(m.next_iter(he.0 as int, 2) == m.nxt(m.nxt(he.0 as int)));
                    assert(m.twn(he.0 as int) < m.nh());
                    lemma_parent_along_orbit(m, m.twn(he.0 as int), 1);
                    lemma_parent_along_orbit(m, m.twn(he.0 as int), 2);
                    assert(m.next_iter(m.twn(he.0 as int), 0) == m.twn(he.0 as int));
                    assert(m.next_iter(m.twn(he.0 as int), 1) == m.nxt(m.twn(he.0 as int)));
                    assert(m.next_iter(m.twn(he.0 as int), 2) == m.nxt(
                        m.nxt(m.twn(he.0 as int)),
                    ));
                }
                let he_twin = self.0.he_to_twin[he.0];
                let x2 = self.0.he_to_next_he[self.0.he_to_next_he[he.0].0];
                let y2 = self.0.he_to_next_he[self.0.he_to_next_he[he_twin.0].0];
                Ok(
                    [
                        self.0.he_to_vertex[he.0],
                        self.0.he_to_vertex[he_twin.0],
                        self.0.he_to_vertex[x2.0],
                        self.0.he_to_vertex[y2.0],
                    ],
                )
            },
        }
    }

    /// Runs the pre-checks of an edge swap and hands back the shared
    /// half-edge on the first cell's side.
    fn find_swap_half_edge(&self, cells_idx: (ParentIndex, ParentIndex)) -> (r: Result<
        HalfEdgeIndex,
        MeshError,
    >)
        requires
            self.0.check_valid(),
            parents_complete(self.0),
        ensures
            r is Ok <==> swap_ready(self.0, cells_idx.0.0 as int, cells_idx.1.0 as int),
            r matches Ok(he) ==> {
                &&& shared_he(self.0, cells_idx.0.0 as int, cells_idx.1.0 as int, he.0 as int)
                &&& he.0 as int == (choose|h: int|
                    #[trigger] shared_he(self.0, cells_idx.0.0 as int, cells_idx.1.0 as int, h))
            },
            r matches Err(e) ==> matches!(
                e,
                MeshError::ParentIndexOutOfBound { .. } | MeshError::WrongMeshInitialisation,
            ),
            cells_idx.0.0 >= self.0.np() ==> r == Err::<HalfEdgeIndex, MeshError>(
                MeshError::ParentIndexOutOfBound {
                    got: cells_idx.0,
                    len: self.0.np() as usize,
                },
            ),
            cells_idx.0.0 < self.0.np() && cells_idx.1.0 >= self.0.np() ==> r == Err::<
                HalfEdgeIndex,
                MeshError,
            >(MeshError::ParentIndexOutOfBound { got: cells_idx.1, len: self.0.np() as usize }),
    {
        let num_p = self.0.parents.len();
        if cells_idx.0.0 >= num_p {
            return Err(MeshError::ParentIndexOutOfBound { got: cells_idx.0, len: num_p });
        }
        if cells_idx.1.0 >= num_p {
            return Err(MeshError::ParentIndexOutOfBound { got: cells_idx.1, len: num_p });
        }
        if cells_idx.0.0 == cells_idx.1.0 {
            return Err(MeshError::WrongMeshInitialisation);
        }
        let is_cell_a = matches!(self.0.parents[cells_idx.0.0], Parent::Cell);
        let is_cell_b = matches!(self.0.parents[cells_idx.1.0], Parent::Cell);
        if !is_cell_a || !is_cell_b {
            return Err(MeshError::WrongMeshInitialisation);
        }

        let ghost a = cells_idx.0.0 as int;
        let ghost b = cells_idx.1.0 as int;
        let nh = self.0.he_to_vertex.len();
        let mut found: Option<HalfEdgeIndex> = None;
        let mut duplicate = false;
        for i in 0..nh
            invariant
                self.0.check_valid(),
                nh == self.0.nh(),
                a == cells_idx.0.0 && b == cells_idx.1.0,
                match found {
                    None => !duplicate && forall|h: int| 0 <= h < i ==> !#[trigger] shared_he(
                        self.0,
                        a,
                        b,
                        h,
                    ),
                    Some(x) => {
                        &&& shared_he(self.0, a, b, x.0 as int)
                        &&& x.0 < i
                        &&& duplicate <==> exists|h2: int|
                            0 <= h2 < i && h2 != x.0 && #[trigger] shared_he(self.0, a, b, h2)
                    },
                },
        {
            proof {
                assert(self.0.twn(i as int) < self.0.nh());
            }
            if self.0.he_to_parent[i].0.0 == cells_idx.0.0
                && self.0.he_to_parent[self.0.he_to_twin[i].0].0.0 == cells_idx.1.0 {
                proof {
                    assert(shared_he(self.0, a, b, i as int));
                }
                if found.is_none() {
                    found = Some(HalfEdgeIndex(i));
                } else {
                    duplicate = true;
                }
            }
        }
        let he = match found {
            None => {
                proof {
                    assert(!unique_shared_he(self.0, a, b));
                }
                return Err(MeshError::WrongMeshInitialisation);
            },
            Some(x) => x,
        };
        if duplicate {
            proof {
                let h2 = choose|h2: int|
                    0 <= h2 < self.0.nh() && h2 != he.0 && #[trigger] shared_he(self.0, a, b, h2);
                assert(!unique_shared_he(self.0, a, b)) by {
                    if unique_shared_he(self.0, a, b) {
                        let hx = choose|h: int|
                            #[trigger] shared_he(self.0, a, b, h) && (forall|hy: int|
                                shared_he(self.0, a, b, hy) ==> hy == h);
                        assert(hx == he.0 as int && hx == h2);
                    }
                }
            }
            return Err(MeshError::WrongMeshInitialisation);
        }
        proof {
            assert(unique_shared_he(self.0, a, b)) by {
                assert(shared_he(self.0, a, b, he.0 as int) && (forall|h2: int|
                    shared_he(self.0, a, b, h2) ==> h2 == he.0 as int));
            }
            assert((choose|h: int| #[trigger] shared_he(self.0, a, b, h)) == he.0 as int) by {
                let hc = choose|h: int| #[trigger] shared_he(self.0, a, b, h);
                assert(shared_he(self.0, a, b, hc));
            }
        }

        proof {
            assert(self.0.nxt(he.0 as int) < self.0.nh());
        }
        let x1 = self.0.he_to_next_he[he.0];
        proof {
            assert(self.0.nxt(x1.0 as int) < self.0.nh());
        }
        let x2 = self.0.he_to_next_he[x1.0];
        let x3 = self.0.he_to_next_he[x2.0];
        if x1.0 == he.0 || x2.0 == he.0 || x3.0 != he.0 {
            proof {
                assert(!triangle_cycle(self.0, he.0 as int));
            }
            return Err(MeshError::WrongMeshInitialisation);
        }
        proof {
            assert(self.0.twn(he.0 as int) < self.0.nh());
        }
        let he_twin = self.0.he_to_twin[he.0];
        proof {
            assert(self.0.nxt(he_twin.0 as int) < self.0.nh());
        }
        let y1 = self.0.he_to_next_he[he_twin.0];
        proof {
            assert(self.0.nxt(y1.0 as int) < self.0.nh());
        }
        let y2 = self.0.he_to_next_he[y1.0];
        let y3 = self.0.he_to_next_he[y2.0];
        if y1.0 == he_twin.0 || y2.0 == he_twin.0 || y3.0 != he_twin.0 {
            proof {
                assert(!triangle_cycle(self.0, self.0.twn(he.0 as int)));
            }
            return Err(MeshError::WrongMeshInitialisation);
        }
        Ok(he)
    }
}


impl Modifiable2DMesh {
    /// Flips the shared edge of two adjacent triangular cells: the edge
    /// between the shared endpoints is replaced by the edge between the two
    /// opposite vertices, reusing the same pair of half-edge slots, and the
    /// two outer half-edges that change side swap parents.  `aligned` is
    /// the caller's geometric verdict (see `swap_edge_vertices`): when the
    /// four points make the new triangles degenerate, pass `true` and the
    /// swap is refused.
    ///
    /// Flipping the same pair again restores the vertex set, the
    /// undirected edge set and the cell adjacencies; the two cells have
    /// then exchanged their regions, so labelled adjacency to outside
    /// cells is exchanged with them.
    #[verifier::rlimit(100)]
    pub fn swap_edge(
        &mut self,
        cells_idx: (ParentIndex, ParentIndex),
        aligned: bool,
    ) -> (r: Result<(), MeshError>)
        requires
            old(self).0.check_valid(),
            parents_complete(old(self).0),
        ensures
            final(self).0.wf(),
            !swap_ready(old(self).0, cells_idx.0.0 as int, cells_idx.1.0 as int) ==> r is Err
                && final(self).0 == old(self).0 && (r matches Err(e) ==> matches!(
                e,
                MeshError::ParentIndexOutOfBound { .. } | MeshError::WrongMeshInitialisation,
            )),
            cells_idx.0.0 >= old(self).0.np() ==> r == Err::<(), MeshError>(
                MeshError::ParentIndexOutOfBound {
                    got: cells_idx.0,
                    len: old(self).0.np() as usize,
                },
            ),
            cells_idx.0.0 < old(self).0.np() && cells_idx.1.0 >= old(self).0.np() ==> r == Err::<
                (),
                MeshError,
            >(
                MeshError::ParentIndexOutOfBound {
                    got: cells_idx.1,
                    len: old(self).0.np() as usize,
                },
            ),
            swap_ready(old(self).0, cells_idx.0.0 as int, cells_idx.1.0 as int) && aligned ==> r
                == Err::<(), MeshError>(
                MeshError::AllignedEdges { parent_0: cells_idx.0, parent_1: cells_idx.1 },
            ) && final(self).0 == old(self).0,
            swap_ready(old(self).0, cells_idx.0.0 as int, cells_idx.1.0 as int) && !aligned ==> r
                is Ok && ({
                let m = old(self).0;
                let a = cells_idx.0.0 as int;
                let b = cells_idx.1.0 as int;
                let h = choose|h: int| #[trigger] shared_he(m, a, b, h);
                let t = m.twn(h);
                let x1 = m.nxt(h);
                let x2 = m.nxt(x1);
                let y1 = m.nxt(t);
                let y2 = m.nxt(y1);
                &&& final(self).0.he_to_vertex@ == m.he_to_vertex@.update(
                    h,
                    m.he_to_vertex@[y2],
                ).update(t, m.he_to_vertex@[x2])
                &&& final(self).0.he_to_next_he@ == m.he_to_next_he@.update(
                    y1,
                    HalfEdgeIndex(h as usize),
                ).update(h, HalfEdgeIndex(x2 as usize)).update(
                    x2,
                    HalfEdgeIndex(y1 as usize),
                ).update(x1, HalfEdgeIndex(t as usize)).update(
                    t,
                    HalfEdgeIndex(y2 as usize),
                ).update(y2, HalfEdgeIndex(x1 as usize))
                &&& final(self).0.he_to_prev_he@ == m.he_to_prev_he@.update(
                    h,
                    HalfEdgeIndex(y1 as usize),
                ).update(x2, HalfEdgeIndex(h as usize)).update(
                    y1,
                    HalfEdgeIndex(x2 as usize),
                ).update(t, HalfEdgeIndex(x1 as usize)).update(
                    y2,
                    HalfEdgeIndex(t as usize),
                ).update(x1, HalfEdgeIndex(y2 as usize))
                &&& final(self).0.he_to_parent@ == m.he_to_parent@.update(
                    y1,
                    (cells_idx.0, m.he_to_parent@[y1].1),
                ).update(x1, (cells_idx.1, m.he_to_parent@[x1].1))
                &&& final(self).0.parent_to_first_he@ == m.parent_to_first_he@.update(
                    a,
                    HalfEdgeIndex(h as usize),
                ).update(b, HalfEdgeIndex(t as usize))
                &&& final(self).0.he_to_twin@ == m.he_to_twin@
                &&& final(self).0.vertices@ == m.vertices@
                &&& final(self).0.parents@ == m.parents@
                &&& final(self).0.boundaries@ == m.boundaries@
            }),
    {
        let found = self.find_swap_half_edge(cells_idx);
        let he = match found {
            Err(e) => {
                return Err(e);
            },
            Ok(he) => he,
        };
        if aligned {
            return Err(
                MeshError::AllignedEdges { parent_0: cells_idx.0, parent_1: cells_idx.1 },
            );
        }

        proof {
            let m = self.0;
            lemma_parent_along_orbit(m, he.0 as int, 1);
            lemma_parent_along_orbit(m, he.0 as int, 2);
            assert(m.next_iter(he.0 as int, 0) == he.0 as int);
            assert(m.next_iter(he.0 as int, 1) == m.nxt(he.0 as int));
            assert(m.next_iter(he.0 as int, 2) == m.nxt(m.nxt(he.0 as int)));
            assert(m.twn(he.0 as int) < m.nh());
            lemma_parent_along_orbit(m, m.twn(he.0 as int), 1);
            lemma_parent_along_orbit(m, m.twn(he.0 as int), 2);
            assert(m.next_iter(m.twn(he.0 as int), 0) == m.twn(he.0 as int));
            assert(m.next_iter(m.twn(he.0 as int), 1) == m.nxt(m.twn(he.0 as int)));
            assert(m.next_iter(m.twn(he.0 as int), 2) == m.nxt(m.nxt(m.twn(he.0 as int))));
        }
        let he_twin = self.0.he_to_twin[he.0];
        let x1 = self.0.he_to_next_he[he.0];
        let x2 = self.0.he_to_next_he[x1.0];
        let y1 = self.0.he_to_next_he[he_twin.0];
        let y2 = self.0.he_to_next_he[y1.0];
        let vq = self.0.he_to_vertex[y2.0];
        let vp = self.0.he_to_vertex[x2.0];
        let patch_y1 = self.0.he_to_parent[y1.0].1;
        let patch_x1 = self.0.he_to_parent[x1.0].1;
        self.0.he_to_vertex.set(he.0, vq);
        self.0.he_to_vertex.set(he_twin.0, vp);
        self.0.he_to_next_he.set(y1.0, he);
        self.0.he_to_next_he.set(he.0, x2);
        self.0.he_to_next_he.set(x2.0, y1);
        self.0.he_to_next_he.set(x1.0, he_twin);
        self.0.he_to_next_he.set(he_twin.0, y2);
        self.0.he_to_next_he.set(y2.0, x1);
        self.0.he_to_prev_he.set(he.0, y1);
        self.0.he_to_prev_he.set(x2.0, he);
        self.0.he_to_prev_he.set(y1.0, x2);
        self.0.he_to_prev_he.set(he_twin.0, x1);
        self.0.he_to_prev_he.set(y2.0, he_twin);
        self.0.he_to_prev_he.set(x1.0, y2);
        self.0.he_to_parent.set(y1.0, (cells_idx.0, patch_y1));
        self.0.he_to_parent.set(x1.0, (cells_idx.1, patch_x1));
        self.0.parent_to_first_he.set(cells_idx.0.0, he);
        self.0.parent_to_first_he.set(cells_idx.1.0, he_twin);

        proof {
            assert forall|p2: int|
                0 <= p2 < self.0.np() implies 0 <= #[trigger] self.0.first_he(p2)
                < self.0.nh() by {
                if p2 != cells_idx.0.0 as int && p2 != cells_idx.1.0 as int {
                    assert(self.0.parent_to_first_he@[p2] == old(self).0.parent_to_first_he@[p2]);
                    assert(0 <= old(self).0.first_he(p2) < old(self).0.nh());
                }
            }
        }
        Ok(())
    }
}

} // verus!
