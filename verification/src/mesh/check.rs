use vstd::prelude::*;
use vstd::arithmetic::div_mod::lemma_mod_bound;
use crate::errors::MeshError;
use crate::mesh::half_edge::{on_parent_cycle, parents_complete, Base2DMesh, Modifiable2DMesh,
    Safe2DMesh};
use crate::mesh::indices::{HalfEdgeIndex, ParentIndex};
use crate::mesh::topology::{lemma_cycle_closes, lemma_next_iter_reduce};

verus! {

impl Base2DMesh {
    /// Checks the integrity of the mesh topology: array coherence, index
    /// ranges, the twin involution, `prev` undoing `next`, and every parent
    /// cycle naming its parent.  Returns `Ok` exactly when the invariants of
    /// a safe mesh hold, and otherwise the first violation found, with the
    /// indices that broke it.
    #[verifier::rlimit(100)]
    #[verifier::spinoff_prover]
    pub fn check_mesh(&self) -> (r: Result<(), MeshError>)
        requires
            self.wf(),
        ensures
            r is Ok <==> self.check_valid(),
            r matches Err(MeshError::VertexIndexOutOfBound { got, len }) ==> {
                &&& len == self.nv()
                &&& got.0 >= self.nv()
                &&& exists|h: int|
                    0 <= h < self.nh() && #[trigger] self.vtx(h) == got.0 && (forall|h2: int|
                        0 <= h2 < h ==> #[trigger] self.vtx(h2) < self.nv())
            },
            r matches Err(MeshError::HalfEdgeIndexOutOfBound { got, len }) ==> {
                &&& len == self.nh()
                &&& got.0 >= self.nh()
                &&& self.vertices_in_range()
                &&& (exists|h: int|
                    0 <= h < self.nh() && #[trigger] self.twn(h) == got.0 && (forall|h2: int|
                        0 <= h2 < h ==> #[trigger] self.twn(h2) < self.nh())) || (
                self.twins_in_range() && self.twin_ok() && ((exists|h: int|
                    0 <= h < self.nh() && #[trigger] self.nxt(h) == got.0 && (forall|h2: int|
                        0 <= h2 < h ==> #[trigger] self.nxt(h2) < self.nh())) || (
                self.next_in_range() && exists|h: int|
                    0 <= h < self.nh() && #[trigger] self.prv(h) == got.0 && (forall|h2: int|
                        0 <= h2 < h ==> #[trigger] self.prv(h2) < self.nh()))))
            },
            r matches Err(MeshError::TwinNotCorrect { he, he_twin, he_twin_twin }) ==> {
                &&& he.0 < self.nh()
                &&& self.twn(he.0 as int) == he_twin.0
                &&& self.twn(he_twin.0 as int) == he_twin_twin.0
                &&& he_twin_twin.0 != he.0
                &&& self.vertices_in_range()
                &&& self.twins_in_range()
                &&& forall|h2: int| 0 <= h2 < he.0 ==> self.twn(#[trigger] self.twn(h2)) == h2
            },
            r matches Err(MeshError::NextPrevNotCorrect { he, he_next, he_next_prev }) ==> {
                &&& he.0 < self.nh()
                &&& self.nxt(he.0 as int) == he_next.0
                &&& self.prv(he_next.0 as int) == he_next_prev.0
                &&& he_next_prev.0 != he.0
                &&& self.vertices_in_range()
                &&& self.twins_in_range()
                &&& self.twin_ok()
                &&& self.next_in_range()
                &&& self.prev_in_range()
                &&& forall|h2: int| 0 <= h2 < he.0 ==> self.prv(#[trigger] self.nxt(h2)) == h2
            },
            r matches Err(MeshError::ParentIndexOutOfBound { got, len }) ==> {
                &&& len == self.np()
                &&& got.0 >= self.np()
                &&& self.vertices_in_range()
                &&& self.twins_in_range()
                &&& self.twin_ok()
                &&& self.next_in_range()
                &&& self.prev_in_range()
                &&& self.next_prev_ok()
                &&& exists|h: int|
                    0 <= h < self.nh() && #[trigger] self.par(h) == got.0 && (forall|h2: int|
                        0 <= h2 < h ==> #[trigger] self.par(h2) < self.np())
            },
            r matches Err(MeshError::ParentNotCorrect { parent, he, he_parent }) ==> {
                &&& parent.0 < self.np()
                &&& exists|k: int|
                    0 <= k < self.nh() && #[trigger] self.next_iter(
                        self.first_he(parent.0 as int),
                        k as nat,
                    ) == he.0
                &&& he.0 < self.nh()
                &&& self.par(he.0 as int) == he_parent.0
                &&& he_parent.0 != parent.0
                &&& self.vertices_in_range()
                &&& self.twins_in_range()
                &&& self.twin_ok()
                &&& self.next_in_range()
                &&& self.prev_in_range()
                &&& self.next_prev_ok()
                &&& self.parents_in_range()
                &&& forall|q: int, k: int|
                    0 <= q < parent.0 && 0 <= k < self.nh() ==> #[trigger] self.par(
                        self.next_iter(self.first_he(q), k as nat),
                    ) == q
            },
            r is Err ==> matches!(
                r,
                Err(
                    MeshError::VertexIndexOutOfBound { .. }
                    | MeshError::HalfEdgeIndexOutOfBound { .. }
                    | MeshError::TwinNotCorrect { .. }
                    | MeshError::NextPrevNotCorrect { .. }
                    | MeshError::ParentIndexOutOfBound { .. }
                    | MeshError::ParentNotCorrect { .. },
                )
            ),
    {
        let n = self.he_to_vertex.len();
        let num_v = self.vertices.len();
        let num_p = self.parents.len();

        for i in 0..n
            invariant
                self.wf(),
                n == self.nh(),
                num_v == self.nv(),
                forall|h: int| 0 <= h < i ==> #[trigger] self.vtx(h) < num_v,
        {
            if self.he_to_vertex[i].0 >= num_v {
                proof {
                    assert(self.vtx(i as int) >= self.nv());
                    assert(!self.vertices_in_range());
                }
                return Err(MeshError::VertexIndexOutOfBound { got: self.he_to_vertex[i], len: num_v });
            }
        }

        for i in 0..n
            invariant
                self.wf(),
                n == self.nh(),
                self.vertices_in_range(),
                forall|h: int| 0 <= h < i ==> #[trigger] self.twn(h) < n,
        {
            if self.he_to_twin[i].0 >= n {
                proof {
                    assert(self.twn(i as int) >= self.nh());
                    assert(!self.twins_in_range());
                }
                return Err(MeshError::HalfEdgeIndexOutOfBound { got: self.he_to_twin[i], len: n });
            }
        }

        for i in 0..n
            invariant
                self.wf(),
                n == self.nh(),
                self.vertices_in_range(),
                self.twins_in_range(),
                forall|h: int| 0 <= h < i ==> self.twn(#[trigger] self.twn(h)) == h,
        {
            let he_twin = self.he_to_twin[i];
            proof {
                assert(self.twn(i as int) < self.nh());
            }
            if self.he_to_twin[he_twin.0].0 != i {
                proof {
                    assert(self.twn(self.twn(i as int)) != i);
                    assert(!self.twin_ok());
                }
                return Err(MeshError::TwinNotCorrect {
                    he: HalfEdgeIndex(i),
                    he_twin,
                    he_twin_twin: self.he_to_twin[he_twin.0],
                });
            }
        }

        for i in 0..n
            invariant
                self.wf(),
                n == self.nh(),
                self.vertices_in_range(),
                self.twins_in_range(),
                self.twin_ok(),
                forall|h: int| 0 <= h < i ==> #[trigger] self.nxt(h) < n,
        {
            if self.he_to_next_he[i].0 >= n {
                proof {
                    assert(self.nxt(i as int) >= self.nh());
                    assert(!self.next_in_range());
                }
                return Err(MeshError::HalfEdgeIndexOutOfBound {
                    got: self.he_to_next_he[i],
                    len: n,
                });
            }
        }

        for i in 0..n
            invariant
                self.wf(),
                n == self.nh(),
                self.vertices_in_range(),
                self.twins_in_range(),
                self.twin_ok(),
                self.next_in_range(),
                forall|h: int| 0 <= h < i ==> #[trigger] self.prv(h) < n,
        {
            if self.he_to_prev_he[i].0 >= n {
                proof {
                    assert(self.prv(i as int) >= self.nh());
                    assert(!self.prev_in_range());
                }
                return Err(MeshError::HalfEdgeIndexOutOfBound {
                    got: self.he_to_prev_he[i],
                    len: n,
                });
            }
        }

        for i in 0..n
            invariant
                self.wf(),
                n == self.nh(),
                self.vertices_in_range(),
                self.twins_in_range(),
                self.twin_ok(),
                self.next_in_range(),
                self.prev_in_range(),
                forall|h: int| 0 <= h < i ==> self.prv(#[trigger] self.nxt(h)) == h,
        {
            let he_next = self.he_to_next_he[i];
            proof {
                assert(self.nxt(i as int) < self.nh());
            }
            if self.he_to_prev_he[he_next.0].0 != i {
                proof {
                    assert(self.prv(self.nxt(i as int)) != i);
                    assert(!self.next_prev_ok());
                }
                return Err(MeshError::NextPrevNotCorrect {
                    he: HalfEdgeIndex(i),
                    he_next,
                    he_next_prev: self.he_to_prev_he[he_next.0],
                });
            }
        }

        for i in 0..n
            invariant
                self.wf(),
                n == self.nh(),
                num_p == self.np(),
                self.vertices_in_range(),
                self.twins_in_range(),
                self.twin_ok(),
                self.next_in_range(),
                self.prev_in_range(),
                self.next_prev_ok(),
                forall|h: int| 0 <= h < i ==> #[trigger] self.par(h) < num_p,
        {
            if self.he_to_parent[i].0.0 >= num_p {
                proof {
                    assert(self.par(i as int) >= self.np());
                    assert(!self.parents_in_range());
                }
                return Err(MeshError::ParentIndexOutOfBound {
                    got: self.he_to_parent[i].0,
                    len: num_p,
                });
            }
        }

        match self.check_parent_cycles() {
            Ok(_) => (),
            Err(e) => {
                return Err(e);
            },
        }

        Ok(())
    }
}

impl Modifiable2DMesh {
    /// Checks the topology — the integrity scans of `check_mesh` plus the
    /// reachability of every half-edge from its own parent's cycle — and,
    /// when all of it is sound, freezes the mesh into its safe, read-only
    /// form.  The underlying store is returned unchanged; on failure the
    /// first violation found is reported, an unreachable half-edge as a
    /// `ParentNotCorrect` whose named parents coincide.
    pub fn validate_topology(self) -> (r: Result<Safe2DMesh, MeshError>)
        requires
            self.0.wf(),
        ensures
            r is Ok <==> self.0.check_valid() && parents_complete(self.0),
            r matches Ok(safe) ==> safe.0 == self.0,
            r matches Err(MeshError::VertexIndexOutOfBound { got, len }) ==> {
                &&& len == self.0.nv()
                &&& got.0 >= self.0.nv()
                &&& exists|h: int| 0 <= h < self.0.nh() && #[trigger] self.0.vtx(h) == got.0
            },
            r matches Err(MeshError::HalfEdgeIndexOutOfBound { got, len }) ==> {
                &&& len == self.0.nh()
                &&& got.0 >= self.0.nh()
                &&& (exists|h: int| 0 <= h < self.0.nh() && #[trigger] self.0.twn(h) == got.0) || (
                exists|h: int| 0 <= h < self.0.nh() && #[trigger] self.0.nxt(h) == got.0) || (
                exists|h: int| 0 <= h < self.0.nh() && #[trigger] self.0.prv(h) == got.0)
            },
            r matches Err(MeshError::TwinNotCorrect { he, he_twin, he_twin_twin }) ==> {
                &&& he.0 < self.0.nh()
                &&& self.0.twn(he.0 as int) == he_twin.0
                &&& self.0.twn(he_twin.0 as int) == he_twin_twin.0
                &&& he_twin_twin.0 != he.0
            },
            r matches Err(MeshError::NextPrevNotCorrect { he, he_next, he_next_prev }) ==> {
                &&& he.0 < self.0.nh()
                &&& self.0.nxt(he.0 as int) == he_next.0
                &&& self.0.prv(he_next.0 as int) == he_next_prev.0
                &&& he_next_prev.0 != he.0
            },
            r matches Err(MeshError::ParentIndexOutOfBound { got, len }) ==> {
                &&& len == self.0.np()
                &&& got.0 >= self.0.np()
                &&& exists|h: int| 0 <= h < self.0.nh() && #[trigger] self.0.par(h) == got.0
            },
            r matches Err(MeshError::ParentNotCorrect { parent, he, he_parent }) ==> {
                &&& he.0 < self.0.nh()
                &&& self.0.par(he.0 as int) == he_parent.0
                &&& (he_parent == parent ==> !on_parent_cycle(self.0, he.0 as int))
                &&& (he_parent != parent ==> parent.0 < self.0.np() && exists|k: int|
                    0 <= k < self.0.nh() && #[trigger] self.0.next_iter(
                        self.0.first_he(parent.0 as int),
                        k as nat,
                    ) == he.0)
            },
            r is Err ==> matches!(
                r,
                Err(
                    MeshError::VertexIndexOutOfBound { .. }
                    | MeshError::HalfEdgeIndexOutOfBound { .. }
                    | MeshError::TwinNotCorrect { .. }
                    | MeshError::NextPrevNotCorrect { .. }
                    | MeshError::ParentIndexOutOfBound { .. }
                    | MeshError::ParentNotCorrect { .. },
                )
            ),
    {
        match self.0.check_mesh() {
            Ok(_) => (),
            Err(e) => {
                return Err(e);
            },
        }
        match self.0.find_uncovered() {
            Some(h) => {
                let offending = self.0.he_to_parent[h.0].0;
                Err(MeshError::ParentNotCorrect { parent: offending, he: h, he_parent: offending })
            },
            None => Ok(Safe2DMesh(self.0)),
        }
    }
}


impl Base2DMesh {
    /// The last pass of `check_mesh`: every parent cycle, walked from its
    /// first half-edge, names its parent throughout.
    #[verifier::rlimit(100)]
    #[verifier::spinoff_prover]
    fn check_parent_cycles(&self) -> (r: Result<(), MeshError>)
        requires
            self.wf(),
            self.vertices_in_range(),
            self.twins_in_range(),
            self.next_in_range(),
            self.prev_in_range(),
            self.parents_in_range(),
            self.twin_ok(),
            self.next_prev_ok(),
        ensures
            r is Ok <==> self.parent_cycle_ok(),
            r matches Err(e) ==> matches!(e, MeshError::ParentNotCorrect { .. }),
            r matches Err(MeshError::ParentNotCorrect { parent, he, he_parent }) ==> {
                &&& parent.0 < self.np()
                &&& exists|k: int|
                    0 <= k < self.nh() && #[trigger] self.next_iter(
                        self.first_he(parent.0 as int),
                        k as nat,
                    ) == he.0
                &&& he.0 < self.nh()
                &&& self.par(he.0 as int) == he_parent.0
                &&& he_parent.0 != parent.0
                &&& forall|q: int, k: int|
                    0 <= q < parent.0 && 0 <= k < self.nh() ==> #[trigger] self.par(
                        self.next_iter(self.first_he(q), k as nat),
                    ) == q
            },
    {
        let n = self.he_to_vertex.len();
        let num_p = self.parents.len();
        for p in 0..num_p
            invariant
                self.wf(),
                n == self.nh(),
                num_p == self.np(),
                self.wf(),
                self.vertices_in_range(),
                self.twins_in_range(),
                self.next_in_range(),
                self.prev_in_range(),
                self.parents_in_range(),
                self.twin_ok(),
                self.next_prev_ok(),
                forall|q: int, k: int|
                    0 <= q < p && 0 <= k < n ==> #[trigger] self.par(
                        self.next_iter(self.first_he(q), k as nat),
                    ) == q,
        {
            match self.check_one_parent(ParentIndex(p)) {
                Ok(_) => {
                    proof {
                        assert(forall|k: int|
                            0 <= k < n ==> #[trigger] self.par(
                                self.next_iter(self.first_he(p as int), k as nat),
                            ) == p);
                    }
                },
                Err(e) => {
                    return Err(e);
                },
            }
        }

        Ok(())
    }
}



impl Base2DMesh {
    /// Walks one parent's cycle and checks that every half-edge on it
    /// names that parent; on success the fact holds however far the cycle
    /// is followed.
    #[verifier::rlimit(100)]
    #[verifier::spinoff_prover]
    fn check_one_parent(&self, parent_id: ParentIndex) -> (r: Result<(), MeshError>)
        requires
            self.wf(),
            self.next_in_range(),
            self.prev_in_range(),
            self.next_prev_ok(),
            parent_id.0 < self.np(),
        ensures
            r is Ok <==> (forall|k: int|
                0 <= k < self.nh() ==> #[trigger] self.par(
                    self.next_iter(self.first_he(parent_id.0 as int), k as nat),
                ) == parent_id.0),
            r matches Err(e) ==> matches!(e, MeshError::ParentNotCorrect { .. }),
            r matches Err(MeshError::ParentNotCorrect { parent, he, he_parent }) ==> {
                &&& parent == parent_id
                &&& exists|k: int|
                    0 <= k < self.nh() && #[trigger] self.next_iter(
                        self.first_he(parent.0 as int),
                        k as nat,
                    ) == he.0
                &&& he.0 < self.nh()
                &&& self.par(he.0 as int) == he_parent.0
                &&& he_parent.0 != parent.0
            },
    {
        let n = self.he_to_vertex.len();
        let p = parent_id.0;
        let ghost start = self.first_he(p as int);
        proof {
            lemma_cycle_closes(*self, start);
        }
        let hes = self.he_from_parent(parent_id);
        let num_cycle = hes.len();
        for j in 0..num_cycle
            invariant
                self.wf(),
                n == self.nh(),
                p == parent_id.0,
                p < self.np(),
                num_cycle == hes@.len(),
                1 <= num_cycle <= n,
                start == self.first_he(p as int),
                forall|i: int|
                    0 <= i < num_cycle ==> (#[trigger] hes@[i]).0 == self.next_iter(
                        start,
                        i as nat,
                    ) && hes@[i].0 < n,
                forall|i: int| 0 <= i < j ==> self.par(#[trigger] hes@[i].0 as int) == p,
        {
            let he = hes[j];
            if self.he_to_parent[he.0].0.0 != p {
                proof {
                    assert(self.next_iter(start, j as nat) == he.0);
                    assert(self.par(he.0 as int) != p);
                    assert(exists|k: int|
                        0 <= k < self.nh() && #[trigger] self.next_iter(
                            self.first_he(p as int),
                            k as nat,
                        ) == he.0) by {
                        assert(0 <= j < self.nh() && self.next_iter(
                            self.first_he(p as int),
                            j as nat,
                        ) == he.0);
                    }
                }
                return Err(MeshError::ParentNotCorrect {
                    parent: parent_id,
                    he,
                    he_parent: self.he_to_parent[he.0].0,
                });
            }
        }
        proof {
            let c = hes@.len() as int;
            assert(self.next_iter(start, c as nat) == start);
            assert forall|k: int| 0 <= k < n implies #[trigger] self.par(
                self.next_iter(start, k as nat),
            ) == p by {
                lemma_next_iter_reduce(*self, start, c, k);
                lemma_mod_bound(k, c);
                assert(hes@[k % c].0 == self.next_iter(start, (k % c) as nat));
                assert(self.par(hes@[k % c].0 as int) == p);
            }
        }
        Ok(())
    }
}

impl Base2DMesh {
    /// Decides the one invariant the integrity scans leave open: whether
    /// every half-edge is reachable from its own parent's cycle.  Together
    /// with `check_mesh` this establishes everything the topology edits
    /// ask of their input.
    pub fn check_parents_coverage(&self) -> (r: bool)
        requires
            self.check_valid(),
        ensures
            r == parents_complete(*self),
    {
        self.find_uncovered().is_none()
    }

    /// The first half-edge, if any, that cannot be reached from its own
    /// parent's first half-edge.
    fn find_uncovered(&self) -> (r: Option<HalfEdgeIndex>)
        requires
            self.check_valid(),
        ensures
            r is None <==> parents_complete(*self),
            r matches Some(x) ==> x.0 < self.nh() && !on_parent_cycle(*self, x.0 as int),
    {
        let nh = self.he_to_vertex.len();
        for h in 0..nh
            invariant
                self.check_valid(),
                nh == self.nh(),
                forall|x: int| 0 <= x < h ==> #[trigger] on_parent_cycle(*self, x),
        {
            proof {
                assert(self.par(h as int) < self.np());
                lemma_cycle_closes(*self, self.first_he(self.par(h as int)));
            }
            let first = self.parent_to_first_he[self.he_to_parent[h].0.0];
            let ghost start = first.0 as int;
            let ghost c = choose|k: int|
                1 <= k <= self.nh() && #[trigger] self.next_iter(start, k as nat) == start;
            let mut current = first;
            let mut steps: usize = 0;
            let mut found = current.0 == h;
            while !found && steps < nh
                invariant
                    self.check_valid(),
                    nh == self.nh(),
                    h < nh,
                    start == self.first_he(self.par(h as int)),
                    0 <= start < self.nh(),
                    1 <= c <= self.nh(),
                    self.next_iter(start, c as nat) == start,
                    steps <= nh,
                    current.0 == self.next_iter(start, steps as nat),
                    current.0 < self.nh(),
                    found <==> current.0 == h,
                    !found ==> forall|j: int|
                        0 <= j <= steps ==> #[trigger] self.next_iter(start, j as nat) != h,
                decreases nh - steps,
            {
                proof {
                    assert(self.nxt(current.0 as int) < self.nh());
                }
                current = self.he_to_next_he[current.0];
                steps = steps + 1;
                found = current.0 == h;
            }
            if !found {
                proof {
                    assert(!on_parent_cycle(*self, h as int)) by {
                        if on_parent_cycle(*self, h as int) {
                            let k = choose|k: int|
                                0 <= k < self.nh() && #[trigger] self.next_iter(
                                    self.first_he(self.par(h as int)),
                                    k as nat,
                                ) == h as int;
                            assert(self.next_iter(start, k as nat) != h);
                        }
                    }
                }
                return Some(HalfEdgeIndex(h));
            }
            proof {
                assert(self.next_iter(start, steps as nat) == h);
                lemma_next_iter_reduce(*self, start, c, steps as int);
                vstd::arithmetic::div_mod::lemma_mod_bound(steps as int, c);
                assert(self.next_iter(self.first_he(self.par(h as int)), ((steps as int) % c) as nat)
                    == h);
                assert(on_parent_cycle(*self, h as int));
            }
        }
        None
    }
}

} // verus!
