use vstd::prelude::*;
use crate::errors::MeshError;
use crate::mesh::half_edge::{edge_exists, has_he_at, parents_complete, Base2DMesh,
    Modifiable2DMesh, Parent};
use crate::mesh::indices::{HalfEdgeIndex, ParentIndex, VertexIndex};
use crate::mesh::split::{is_split_of, lemma_split_preserves_valid};
use crate::mesh::trimming::trim_success;
use crate::scalar::{Point2D, Scalar, SCALAR_HALF_BITS};

verus! {

impl Modifiable2DMesh {
    /// Carves a triangle off an edge, into the region of the edge's twin
    /// side: the edge is split at its middle, the new vertex is placed at
    /// `pos`, and the two original endpoints are connected across the
    /// neighbouring region, so that the neighbour side gains a three-edge
    /// cycle through `pos`.  Returns the parent of the new triangle.
    ///
    /// The half-edge must point such that its twin's region can host the
    /// triangle; as with `trimming`, no crossing check is made.  On the
    /// errors of the inner trimming step the split is already applied.
    pub fn notching(&mut self, he: HalfEdgeIndex, pos: Point2D) -> (r: Result<
        ParentIndex,
        MeshError,
    >)
        requires
            old(self).0.check_valid(),
            parents_complete(old(self).0),
            old(self).0.nh() + 4 <= usize::MAX,
            old(self).0.nv() + 1 <= usize::MAX,
            old(self).0.np() + 1 <= usize::MAX,
            he.0 < old(self).0.nh() ==> old(self).0.twn(he.0 as int) != he.0,
        ensures
            final(self).0.wf(),
            he.0 >= old(self).0.nh() ==> r == Err::<ParentIndex, MeshError>(
                MeshError::HalfEdgeIndexOutOfBound {
                    got: he,
                    len: old(self).0.nh() as usize,
                },
            ) && final(self).0 == old(self).0,
            he.0 < old(self).0.nh() ==> exists|mid: Base2DMesh|
                #![trigger is_split_of(mid, old(self).0, he.0 as int, pos)]
                {
                    let m = old(self).0;
                    let u = m.vtx(he.0 as int);
                    let w = m.vtx(m.twn(he.0 as int));
                    let p = m.par(m.twn(he.0 as int));
                    &&& is_split_of(mid, m, he.0 as int, pos)
                    &&& (u == w ==> r == Err::<ParentIndex, MeshError>(
                        MeshError::WrongMeshInitialisation,
                    ) && final(self).0 == mid)
                    &&& (u != w && edge_exists(mid, u, w) ==> r == Err::<ParentIndex, MeshError>(
                        MeshError::AlreadyExists,
                    ) && final(self).0 == mid)
                    &&& (u != w && !edge_exists(mid, u, w) && !has_he_at(mid, u, p) ==> r == Err::<
                        ParentIndex,
                        MeshError,
                    >(
                        MeshError::ParentDoesNotContainVertex {
                            vertex: VertexIndex(u as usize),
                            parent: ParentIndex(p as usize),
                        },
                    ) && final(self).0 == mid)
                    &&& (u != w && !edge_exists(mid, u, w) && has_he_at(mid, u, p) && !has_he_at(
                        mid,
                        w,
                        p,
                    ) ==> r == Err::<ParentIndex, MeshError>(
                        MeshError::ParentDoesNotContainVertex {
                            vertex: VertexIndex(w as usize),
                            parent: ParentIndex(p as usize),
                        },
                    ) && final(self).0 == mid)
                    &&& (u != w && !edge_exists(mid, u, w) && has_he_at(mid, u, p) && has_he_at(
                        mid,
                        w,
                        p,
                    ) ==> r == Ok::<ParentIndex, MeshError>(ParentIndex(m.np() as usize)) && {
                        &&& trim_success(mid, final(self).0, u, w, p)
                        &&& final(self).0.nh() == m.nh() + 4
                        &&& final(self).0.nv() == m.nv() + 1
                        &&& final(self).0.np() == m.np() + 1
                        &&& final(self).0.vertices@ == m.vertices@.push(pos)
                        &&& final(self).0.parents@ == m.parents@.push(Parent::Cell)
                        &&& final(self).0.boundaries@ == m.boundaries@
                    })
                },
    {
        let he_len = self.0.he_to_vertex.len();
        if he.0 >= he_len {
            return Err(MeshError::HalfEdgeIndexOutOfBound { got: he, len: he_len });
        }
        proof {
            assert(old(self).0.twn(he.0 as int) < old(self).0.nh());
        }
        let he_twin = self.0.he_to_twin[he.0];
        let parent = self.0.he_to_parent[he_twin.0].0;
        let v0 = self.0.he_to_vertex[he.0];
        let v1 = self.0.he_to_vertex[he_twin.0];
        proof {
            assert(old(self).0.par(he_twin.0 as int) < old(self).0.np());
            assert(old(self).0.vtx(he.0 as int) < old(self).0.nv());
            assert(old(self).0.vtx(he_twin.0 as int) < old(self).0.nv());
        }

        let split_result = self.split_edge(he, Scalar::from_bits(SCALAR_HALF_BITS), pos);
        proof {
            assert(split_result is Ok);
            assert(is_split_of(self.0, old(self).0, he.0 as int, pos));
            lemma_split_preserves_valid(old(self).0, self.0, he.0 as int, pos);
        }
        match split_result {
            Err(e) => {
                proof {
                    assert(false);
                }
                Err(e)
            },
            Ok(_) => {
                let ghost mid = self.0;
                let trim_result = self.trimming((v0, v1), parent);
                proof {
                    assert(v0.0 < mid.nv() && v1.0 < mid.nv());
                }
                trim_result
            },
        }
    }
}

} // verus!
