use vstd::prelude::*;
use crate::errors::MeshError;
use crate::mesh::half_edge::{on_parent_cycle, parents_complete, Base2DMesh, Modifiable2DMesh};
use crate::mesh::indices::{HalfEdgeIndex, VertexIndex};
use crate::mesh::topology::{lemma_cycle_closes, lemma_next_iter_in_range, lemma_next_iter_reduce,
    lemma_parent_cycle_from_step};
use crate::scalar::{Point2D, Scalar, SCALAR_ONE_BITS};

verus! {

impl Modifiable2DMesh {
    /// Creates a new vertex on a half-edge, at a distance of
    /// `distance_ratio` (strictly between zero and one) times the half-edge
    /// length from its origin; `position` is that interpolated point,
    /// supplied by the caller since the mesh does not do numeric work.
    ///
    /// The half-edge `he_id` keeps its origin and now ends at the new
    /// vertex; a new half-edge continues from the new vertex to the old end,
    /// and likewise on the twin side.  Twins are re-paired crosswise, the
    /// two new half-edges inherit parent and patch from the side they extend,
    /// and nothing else moves: the half-edge count grows by exactly two and
    /// the vertex count by exactly one.
    pub fn split_edge(
        &mut self,
        he_id: HalfEdgeIndex,
        distance_ratio: Scalar,
        position: Point2D,
    ) -> (r: Result<(), MeshError>)
        requires
            old(self).0.wf(),
            old(self).0.twins_in_range(),
            old(self).0.next_in_range(),
            old(self).0.nh() + 2 <= usize::MAX,
            old(self).0.nv() + 1 <= usize::MAX,
            he_id.0 < old(self).0.nh() ==> old(self).0.twn(he_id.0 as int) != he_id.0,
        ensures
            final(self).0.wf(),
            he_id.0 >= old(self).0.nh() ==> r == Err::<(), MeshError>(
                MeshError::HalfEdgeIndexOutOfBound {
                    got: he_id,
                    len: old(self).0.nh() as usize,
                },
            ) && final(self).0 == old(self).0,
            he_id.0 < old(self).0.nh() && !distance_ratio.in_open_unit() ==> r == Err::<
                (),
                MeshError,
            >(
                MeshError::WrongFloatValue {
                    got: distance_ratio,
                    expected_min: (Scalar { bits: 0 }),
                    expected_max: (Scalar { bits: SCALAR_ONE_BITS }),
                },
            ) && final(self).0 == old(self).0,
            he_id.0 < old(self).0.nh() && distance_ratio.in_open_unit() ==> r is Ok && ({
                let m = old(self).0;
                let h = he_id.0 as int;
                let t = m.twn(h);
                let nh = m.nh();
                let nv = m.nv();
                let n1 = m.he_to_next_he@[h];
                let n2 = m.he_to_next_he@[t];
                &&& final(self).0.vertices@ == m.vertices@.push(position)
                &&& final(self).0.he_to_vertex@ == m.he_to_vertex@.push(
                    VertexIndex(nv as usize),
                ).push(VertexIndex(nv as usize))
                &&& final(self).0.he_to_twin@ == m.he_to_twin@.push(HalfEdgeIndex(t as usize)).push(
                    he_id,
                ).update(h, HalfEdgeIndex((nh + 1) as usize)).update(
                    t,
                    HalfEdgeIndex(nh as usize),
                )
                &&& final(self).0.he_to_next_he@ == m.he_to_next_he@.update(
                    h,
                    HalfEdgeIndex(nh as usize),
                ).push(n1).update(t, HalfEdgeIndex((nh + 1) as usize)).push(n2)
                &&& final(self).0.he_to_prev_he@ == m.he_to_prev_he@.update(
                    n1.0 as int,
                    HalfEdgeIndex(nh as usize),
                ).update(n2.0 as int, HalfEdgeIndex((nh + 1) as usize)).push(he_id).push(
                    HalfEdgeIndex(t as usize),
                )
                &&& final(self).0.he_to_parent@ == m.he_to_parent@.push(m.he_to_parent@[h]).push(
                    m.he_to_parent@[t],
                )
                &&& final(self).0.parents@ == m.parents@
                &&& final(self).0.parent_to_first_he@ == m.parent_to_first_he@
                &&& final(self).0.boundaries@ == m.boundaries@
            }),
    {
        let he_len = self.0.he_to_vertex.len();
        if he_id.0 >= he_len {
            return Err(MeshError::HalfEdgeIndexOutOfBound { got: he_id, len: he_len });
        }
        if !distance_ratio.is_in_open_unit() {
            return Err(MeshError::WrongFloatValue {
                got: distance_ratio,
                expected_min: Scalar { bits: 0 },
                expected_max: Scalar { bits: SCALAR_ONE_BITS },
            });
        }

        let new_vertex_id = VertexIndex(self.0.vertices.len());
        let he_twin = self.0.he_to_twin[he_id.0];
        self.0.vertices.push(position);

        let new_he_0 = HalfEdgeIndex(self.0.he_to_twin.len());
        let new_he_1 = HalfEdgeIndex(self.0.he_to_twin.len() + 1);

        self.0.he_to_vertex.push(new_vertex_id);
        self.0.he_to_vertex.push(new_vertex_id);

        self.0.he_to_twin.push(he_twin);
        self.0.he_to_twin.push(he_id);
        self.0.he_to_twin.set(he_id.0, new_he_1);
        self.0.he_to_twin.set(he_twin.0, new_he_0);

        proof {
            assert(old(self).0.twn(he_id.0 as int) < old(self).0.nh());
            assert(old(self).0.nxt(he_id.0 as int) < old(self).0.nh());
            assert(old(self).0.nxt(he_twin.0 as int) < old(self).0.nh());
        }
        let next_of_he = self.0.he_to_next_he[he_id.0];
        self.0.he_to_next_he.set(he_id.0, new_he_0);
        self.0.he_to_next_he.push(next_of_he);
        self.0.he_to_prev_he.set(next_of_he.0, new_he_0);
        let next_of_twin = self.0.he_to_next_he[he_twin.0];
        self.0.he_to_next_he.set(he_twin.0, new_he_1);
        self.0.he_to_next_he.push(next_of_twin);
        self.0.he_to_prev_he.set(next_of_twin.0, new_he_1);

        self.0.he_to_prev_he.push(he_id);
        self.0.he_to_prev_he.push(he_twin);

        let parent_of_he = self.0.he_to_parent[he_id.0];
        self.0.he_to_parent.push(parent_of_he);
        let parent_of_twin = self.0.he_to_parent[he_twin.0];
        self.0.he_to_parent.push(parent_of_twin);

        proof {
            assert forall|p: int|
                0 <= p < self.0.np() implies 0 <= #[trigger] self.0.first_he(p)
                < self.0.nh() by {
                assert(self.0.first_he(p) == old(self).0.first_he(p));
                assert(0 <= old(self).0.first_he(p) < old(self).0.nh());
            }
        }
        Ok(())
    }
}


/// `m2` is exactly the result of splitting half-edge `h` of `m` with the
/// new vertex at `position`: the relation `split_edge` establishes on
/// success.
pub open spec fn is_split_of(m2: Base2DMesh, m: Base2DMesh, h: int, position: Point2D) -> bool {
    let t = m.twn(h);
    let nh = m.nh();
    let nv = m.nv();
    let n1 = m.he_to_next_he@[h];
    let n2 = m.he_to_next_he@[t];
    &&& 0 <= h < m.nh()
    &&& m2.vertices@ == m.vertices@.push(position)
    &&& m2.he_to_vertex@ == m.he_to_vertex@.push(VertexIndex(nv as usize)).push(
        VertexIndex(nv as usize),
    )
    &&& m2.he_to_twin@ == m.he_to_twin@.push(HalfEdgeIndex(t as usize)).push(
        HalfEdgeIndex(h as usize),
    ).update(h, HalfEdgeIndex((nh + 1) as usize)).update(t, HalfEdgeIndex(nh as usize))
    &&& m2.he_to_next_he@ == m.he_to_next_he@.update(h, HalfEdgeIndex(nh as usize)).push(n1).update(
        t,
        HalfEdgeIndex((nh + 1) as usize),
    ).push(n2)
    &&& m2.he_to_prev_he@ == m.he_to_prev_he@.update(n1.0 as int, HalfEdgeIndex(nh as usize)).update(
        n2.0 as int,
        HalfEdgeIndex((nh + 1) as usize),
    ).push(HalfEdgeIndex(h as usize)).push(HalfEdgeIndex(t as usize))
    &&& m2.he_to_parent@ == m.he_to_parent@.push(m.he_to_parent@[h]).push(m.he_to_parent@[t])
    &&& m2.parents@ == m.parents@
    &&& m2.parent_to_first_he@ == m.parent_to_first_he@
    &&& m2.boundaries@ == m.boundaries@
}

/// Old reachability carries over to the split mesh: a `next` path of the
/// old mesh still connects the same half-edges, at most doubling in length
/// (each crossing of the split pair takes one extra step).
proof fn lemma_split_reach(m: Base2DMesh, m2: Base2DMesh, h: int, position: Point2D, y: int, k: nat)
    requires
        m.check_valid(),
        m.twn(h) != h,
        is_split_of(m2, m, h, position),
        m.nh() + 2 <= usize::MAX,
        m.nv() + 1 <= usize::MAX,
        0 <= y < m.nh(),
    ensures
        exists|k2: nat| k2 <= 2 * k && #[trigger] m2.next_iter(y, k2) == m.next_iter(y, k),
        0 <= m.next_iter(y, k) < m.nh(),
    decreases k,
{
    let t = m.twn(h);
    let nh = m.nh();
    assert(m.twn(h) < m.nh());
    assert(m.nxt(h) < m.nh() && m.nxt(t) < m.nh());
    if k == 0 {
        assert(m2.next_iter(y, 0) == m.next_iter(y, 0));
        assert(0 <= 2 * k);
    } else {
        lemma_split_reach(m, m2, h, position, y, (k - 1) as nat);
        let w = m.next_iter(y, (k - 1) as nat);
        let x = m.next_iter(y, k);
        lemma_next_iter_in_range(m, y, k);
        let k2 = choose|k2: nat| k2 <= 2 * (k - 1) && #[trigger] m2.next_iter(y, k2) == w;
        if w == h {
            assert(m2.nxt(h) == nh);
            assert(m2.nxt(nh) == m.nxt(h));
            assert(m2.next_iter(y, k2 + 1) == nh);
            assert(m2.next_iter(y, k2 + 2) == x);
            assert(k2 + 2 <= 2 * k);
        } else if w == t {
            assert(m2.nxt(t) == nh + 1);
            assert(m2.nxt(nh + 1) == m.nxt(t));
            assert(m2.next_iter(y, k2 + 1) == nh + 1);
            assert(m2.next_iter(y, k2 + 2) == x);
            assert(k2 + 2 <= 2 * k);
        } else {
            assert(m2.nxt(w) == m.nxt(w));
            assert(m2.next_iter(y, k2 + 1) == x);
            assert(k2 + 1 <= 2 * k);
        }
    }
}

/// Splitting an edge preserves every integrity invariant of the mesh: the
/// spliced twin pairing is still an involution, `prev` still undoes `next`,
/// the parent cycles still name their parents, and every half-edge is
/// still reachable from its parent's cycle.
#[verifier::rlimit(100)]
#[verifier::spinoff_prover]
pub proof fn lemma_split_preserves_valid(m: Base2DMesh, m2: Base2DMesh, h: int, position: Point2D)
    requires
        m.check_valid(),
        parents_complete(m),
        0 <= h < m.nh(),
        m.twn(h) != h,
        is_split_of(m2, m, h, position),
        m.nh() + 2 <= usize::MAX,
        m.nv() + 1 <= usize::MAX,
    ensures
        m2.check_valid(),
        parents_complete(m2),
{
    let t = m.twn(h);
    let nh = m.nh();
    let n1 = m.nxt(h);
    let n2 = m.nxt(t);
    assert(m.twn(t) == h);
    assert(0 <= t < nh);
    assert(0 <= n1 < nh && 0 <= n2 < nh);
    assert(n1 != n2) by {
        if n1 == n2 {
            assert(m.prv(m.nxt(h)) == h);
            assert(m.prv(m.nxt(t)) == t);
        }
    }
    assert(m2.nh() == nh + 2);
    assert(m2.wf()) by {
        assert forall|p: int|
            0 <= p < m2.np() implies 0 <= #[trigger] m2.first_he(p) < m2.nh() by {
            assert(m2.parent_to_first_he@[p] == m.parent_to_first_he@[p]);
            assert(0 <= m.first_he(p) < m.nh());
        }
    }
    assert(m2.vertices_in_range()) by {
        assert forall|x: int| 0 <= x < m2.nh() implies #[trigger] m2.vtx(x) < m2.nv() by {
            if x < nh {
                assert(m2.he_to_vertex@[x] == m.he_to_vertex@[x]);
                assert(m.vtx(x) < m.nv());
            }
        }
    }
    assert(m2.twins_in_range()) by {
        assert forall|x: int| 0 <= x < m2.nh() implies #[trigger] m2.twn(x) < m2.nh() by {
            if x < nh && x != h && x != t {
                assert(m2.he_to_twin@[x] == m.he_to_twin@[x]);
                assert(m.twn(x) < m.nh());
            }
        }
    }
    assert(m2.next_in_range()) by {
        assert forall|x: int| 0 <= x < m2.nh() implies #[trigger] m2.nxt(x) < m2.nh() by {
            if x < nh && x != h && x != t {
                assert(m2.he_to_next_he@[x] == m.he_to_next_he@[x]);
                assert(m.nxt(x) < m.nh());
            }
        }
    }
    assert(m2.prev_in_range()) by {
        assert forall|x: int| 0 <= x < m2.nh() implies #[trigger] m2.prv(x) < m2.nh() by {
            if x < nh && x != n1 && x != n2 {
                assert(m2.he_to_prev_he@[x] == m.he_to_prev_he@[x]);
                assert(m.prv(x) < m.nh());
            }
        }
    }
    assert(m2.parents_in_range()) by {
        assert forall|x: int| 0 <= x < m2.nh() implies #[trigger] m2.par(x) < m2.np() by {
            if x < nh {
                assert(m2.he_to_parent@[x] == m.he_to_parent@[x]);
                assert(m.par(x) < m.np());
            }
            assert(m.par(h) < m.np() && m.par(t) < m.np());
        }
    }
    assert(m2.twin_ok()) by {
        assert forall|x: int| 0 <= x < m2.nh() implies m2.twn(#[trigger] m2.twn(x)) == x by {
            if x == h {
                assert(m2.twn(h) == nh + 1 && m2.twn(nh + 1) == h);
            } else if x == t {
                assert(m2.twn(t) == nh && m2.twn(nh) == t);
            } else if x == nh {
                assert(m2.twn(nh) == t && m2.twn(t) == nh);
            } else if x == nh + 1 {
                assert(m2.twn(nh + 1) == h && m2.twn(h) == nh + 1);
            } else {
                assert(m2.he_to_twin@[x] == m.he_to_twin@[x]);
                assert(m.twn(m.twn(x)) == x);
                assert(m.twn(x) != h) by {
                    if m.twn(x) == h {
                        assert(m.twn(m.twn(x)) == m.twn(h));
                    }
                }
                assert(m.twn(x) != t) by {
                    if m.twn(x) == t {
                        assert(m.twn(m.twn(x)) == m.twn(t));
                    }
                }
                assert(m2.he_to_twin@[m.twn(x)] == m.he_to_twin@[m.twn(x)]);
            }
        }
    }
    assert(m2.next_prev_ok()) by {
        assert forall|x: int| 0 <= x < m2.nh() implies m2.prv(#[trigger] m2.nxt(x)) == x by {
            if x == h {
                assert(m2.nxt(h) == nh && m2.prv(nh) == h);
            } else if x == t {
                assert(m2.nxt(t) == nh + 1 && m2.prv(nh + 1) == t);
            } else if x == nh {
                assert(m2.nxt(nh) == n1 && m2.prv(n1) == nh);
            } else if x == nh + 1 {
                assert(m2.nxt(nh + 1) == n2 && m2.prv(n2) == nh + 1);
            } else {
                assert(m2.he_to_next_he@[x] == m.he_to_next_he@[x]);
                assert(m.prv(m.nxt(x)) == x);
                assert(m.nxt(x) != n1) by {
                    if m.nxt(x) == n1 {
                        assert(m.prv(m.nxt(x)) == x && m.prv(m.nxt(h)) == h);
                    }
                }
                assert(m.nxt(x) != n2) by {
                    if m.nxt(x) == n2 {
                        assert(m.prv(m.nxt(x)) == x && m.prv(m.nxt(t)) == t);
                    }
                }
                assert(m2.he_to_prev_he@[m.nxt(x)] == m.he_to_prev_he@[m.nxt(x)]);
            }
        }
    }
    // the parent is constant along the new `next`, so the new parent
    // cycles still name their parents
    assert(forall|x: int| 0 <= x < m2.nh() ==> m2.par(#[trigger] m2.nxt(x)) == m2.par(x)) by {
        assert forall|x: int| 0 <= x < m2.nh() implies m2.par(#[trigger] m2.nxt(x)) == m2.par(
            x,
        ) by {
            lemma_split_parent_step(m, m2, h, position, x);
        }
    }
    assert(forall|p: int| 0 <= p < m2.np() ==> m2.par(#[trigger] m2.first_he(p)) == p) by {
        assert forall|p: int| 0 <= p < m2.np() implies m2.par(#[trigger] m2.first_he(p)) == p by {
            assert(m2.first_he(p) == m.first_he(p));
            assert(0 <= m.first_he(p) < m.nh());
            let k0: int = 0;
            assert(m.next_iter(m.first_he(p), k0 as nat) == m.first_he(p));
            assert(m.par(m.next_iter(m.first_he(p), k0 as nat)) == p);
            assert(m2.he_to_parent@[m.first_he(p)] == m.he_to_parent@[m.first_he(p)]);
        }
    }
    lemma_parent_cycle_from_step(m2);
    // completeness: every half-edge is still reachable from its parent
    assert forall|x: int| 0 <= x < m2.nh() implies #[trigger] on_parent_cycle(m2, x) by {
        let p = m2.par(x);
        let f = m2.first_he(p);
        if x < nh {
            assert(m2.he_to_parent@[x] == m.he_to_parent@[x]);
            assert(on_parent_cycle(m, x));
            let k = choose|k: int|
                0 <= k < m.nh() && #[trigger] m.next_iter(m.first_he(m.par(x)), k as nat) == x;
            lemma_split_reach(m, m2, h, position, m.first_he(m.par(x)), k as nat);
            let k2 = choose|k2: nat|
                k2 <= 2 * k && #[trigger] m2.next_iter(m.first_he(m.par(x)), k2) == x;
            lemma_on_cycle_from_any(m2, f, x, k2 as int);
        } else {
            let source = if x == nh {
                h
            } else {
                t
            };
            assert(m2.par(x) == m.par(source));
            assert(on_parent_cycle(m, source));
            let k = choose|k: int|
                0 <= k < m.nh() && #[trigger] m.next_iter(m.first_he(m.par(source)), k as nat)
                    == source;
            lemma_split_reach(m, m2, h, position, m.first_he(m.par(source)), k as nat);
            let k2 = choose|k2: nat|
                k2 <= 2 * k && #[trigger] m2.next_iter(m.first_he(m.par(source)), k2) == source;
            assert(m2.nxt(source) == x);
            assert(m2.next_iter(m.first_he(m.par(source)), k2 + 1) == x);
            lemma_on_cycle_from_any(m2, f, x, k2 as int + 1);
        }
    }
}

/// The parent does not change along one step of the split mesh's `next`.
proof fn lemma_split_parent_step(m: Base2DMesh, m2: Base2DMesh, h: int, position: Point2D, x: int)
    requires
        m.check_valid(),
        parents_complete(m),
        0 <= h < m.nh(),
        m.twn(h) != h,
        is_split_of(m2, m, h, position),
        m.nh() + 2 <= usize::MAX,
        m.nv() + 1 <= usize::MAX,
        0 <= x < m2.nh(),
    ensures
        m2.par(m2.nxt(x)) == m2.par(x),
{
    let t = m.twn(h);
    let nh = m.nh();
    let n1 = m.nxt(h);
    let n2 = m.nxt(t);
    assert(m.twn(h) < m.nh());
    assert(m.nxt(h) < m.nh() && m.nxt(t) < m.nh());
    crate::mesh::topology::lemma_parent_along_orbit(m, h, 1);
    crate::mesh::topology::lemma_parent_along_orbit(m, t, 1);
    assert(m.next_iter(h, 0) == h && m.next_iter(t, 0) == t);
    assert(m.next_iter(h, 1) == n1 && m.next_iter(t, 1) == n2);
    assert(m.par(n1) == m.par(h) && m.par(n2) == m.par(t));
    if x == h {
        assert(m2.nxt(h) == nh && m2.par(nh) == m.par(h));
        assert(m2.he_to_parent@[h] == m.he_to_parent@[h]);
    } else if x == t {
        assert(m2.nxt(t) == nh + 1 && m2.par(nh + 1) == m.par(t));
        assert(m2.he_to_parent@[t] == m.he_to_parent@[t]);
    } else if x == nh {
        assert(m2.nxt(nh) == n1);
        assert(m2.he_to_parent@[n1] == m.he_to_parent@[n1]);
    } else if x == nh + 1 {
        assert(m2.nxt(nh + 1) == n2);
        assert(m2.he_to_parent@[n2] == m.he_to_parent@[n2]);
    } else {
        assert(m2.he_to_next_he@[x] == m.he_to_next_he@[x]);
        let y = m.nxt(x);
        crate::mesh::topology::lemma_parent_along_orbit(m, x, 1);
        assert(m.next_iter(x, 0) == x && m.next_iter(x, 1) == y);
        assert(m.par(y) == m.par(x));
        assert(m2.he_to_parent@[x] == m.he_to_parent@[x]);
        if y < nh {
            assert(m2.he_to_parent@[y] == m.he_to_parent@[y]);
        }
    }
}

/// If a half-edge is reachable at all from its parent's first half-edge,
/// it is reachable within the half-edge count.
proof fn lemma_on_cycle_from_any(m2: Base2DMesh, f: int, x: int, k: int)
    requires
        m2.wf(),
        m2.next_in_range(),
        m2.prev_in_range(),
        m2.next_prev_ok(),
        0 <= k,
        0 <= x < m2.nh(),
        m2.next_iter(f, k as nat) == x,
        exists|p: int| 0 <= p < m2.np() && #[trigger] m2.first_he(p) == f && m2.par(x) == p,
    ensures
        on_parent_cycle(m2, x),
{
    let p = choose|p: int| 0 <= p < m2.np() && #[trigger] m2.first_he(p) == f && m2.par(x) == p;
    assert(0 <= f < m2.nh());
    lemma_cycle_closes(m2, f);
    let cf = choose|c: int| 1 <= c <= m2.nh() && #[trigger] m2.next_iter(f, c as nat) == f;
    lemma_next_iter_reduce(m2, f, cf, k);
    vstd::arithmetic::div_mod::lemma_mod_bound(k, cf);
    assert(m2.next_iter(m2.first_he(m2.par(x)), (k % cf) as nat) == x);
    assert(0 <= k % cf < m2.nh());
}

} // verus!
