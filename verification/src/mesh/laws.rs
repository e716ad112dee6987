use vstd::prelude::*;
use vstd::set_lib::lemma_set_disjoint_lens;
use crate::mesh::computational_mesh::{cell_rank, BoundaryPatch, Computational2DMesh};
use crate::mesh::half_edge::{on_parent_cycle, parents_complete, Base2DMesh, Modifiable2DMesh,
    Parent, Safe2DMesh};
use crate::mesh::topology::{lemma_next_iter_in_range, lemma_next_iter_reduce,
    lemma_orbit_no_return_distinct};
use crate::scalar::Point2D;

verus! {

/// On a mesh that passed `check_mesh`, the twin pairing is an involution
/// and `prev` undoes `next`, for every half-edge.
pub proof fn lemma_safe_mesh_links(m: Base2DMesh, h: int)
    requires
        m.check_valid(),
        0 <= h < m.nh(),
    ensures
        m.twn(m.twn(h)) == h,
        m.prv(m.nxt(h)) == h,
{
}

/// On a mesh that passed `check_mesh`, every half-edge reached from a
/// parent's first half-edge names that parent, however far the cycle is
/// followed.
pub proof fn lemma_parent_cycle_names_parent(m: Base2DMesh, p: int, k: int)
    requires
        m.check_valid(),
        0 <= p < m.np(),
        0 <= k,
    ensures
        m.par(m.next_iter(m.first_he(p), k as nat)) == p,
{
    crate::mesh::topology::lemma_cycle_closes(m, m.first_he(p));
    let c = choose|c: int|
        1 <= c <= m.nh() && #[trigger] m.next_iter(m.first_he(p), c as nat) == m.first_he(p);
    crate::mesh::topology::lemma_next_iter_reduce(m, m.first_he(p), c, k);
    vstd::arithmetic::div_mod::lemma_mod_bound(k, c);
}

/// Building a mesh from a boundary, validating it and converting it to the
/// computational form preserves the vertex positions and the boundary
/// patch tags elementwise: each step's contract carries both lists through
/// unchanged.
pub proof fn lemma_pipeline_preserves_data(
    vertices: Seq<Point2D>,
    boundaries: Seq<BoundaryPatch>,
    built: Modifiable2DMesh,
    validated: Safe2DMesh,
    converted: Computational2DMesh,
)
    requires
        built.0.vertices@ == vertices,
        built.0.boundaries@ == boundaries,
        validated.0 == built.0,
        converted.vertices@ == validated.0.vertices@,
        converted.boundaries@ == validated.0.boundaries@,
    ensures
        converted.vertices@ == vertices,
        converted.boundaries@ == boundaries,
{
}


/// The half-edges belonging to parent `p`.
pub open spec fn parent_hes(m: Base2DMesh, p: int) -> Set<int> {
    Set::new(|h: int| 0 <= h < m.nh() && m.par(h) == p)
}

/// The half-edges whose parent, among the first `np` parents, is a cell.
pub open spec fn cell_hes_below(m: Base2DMesh, np: int) -> Set<int> {
    Set::new(
        |h: int|
            0 <= h < m.nh() && 0 <= m.par(h) < np && m.parents@[m.par(h)] == Parent::Cell,
    )
}

/// Sum of the face counts of the first `j` cells.
pub open spec fn sum_cell_faces(cells: Seq<crate::mesh::computational_mesh::Cell>, j: int) -> int
    decreases j,
{
    if j <= 0 {
        0
    } else {
        sum_cell_faces(cells, j - 1) + cells[j - 1].faces@.len()
    }
}

/// How many of the first `k` half-edges belong to a cell parent.
pub open spec fn count_cell_hes(m: Base2DMesh, k: int) -> int
    decreases k,
{
    if k <= 0 {
        0
    } else {
        count_cell_hes(m, k - 1) + (if 0 <= m.par(k - 1) < m.np() && m.parents@[m.par(k - 1)]
            == Parent::Cell {
            1int
        } else {
            0int
        })
    }
}

/// A minimal parent cycle visits each half-edge of its parent exactly
/// once: its length is the number of half-edges with that parent.
proof fn lemma_cycle_len_counts_parent(m: Base2DMesh, p: int, len: int)
    requires
        m.check_valid(),
        parents_complete(m),
        0 <= p < m.np(),
        1 <= len <= m.nh(),
        m.next_iter(m.first_he(p), len as nat) == m.first_he(p),
        forall|k: int|
            1 <= k < len ==> #[trigger] m.next_iter(m.first_he(p), k as nat) != m.first_he(p),
    ensures
        parent_hes(m, p).finite(),
        parent_hes(m, p).len() == len,
{
    let f = m.first_he(p);
    assert(0 <= f < m.nh());
    lemma_orbit_no_return_distinct(m, f, len - 1);
    let s = Seq::new(len as nat, |k: int| m.next_iter(f, k as nat));
    assert(s.no_duplicates());
    s.unique_seq_to_set();
    assert(s.to_set() =~= parent_hes(m, p)) by {
        assert forall|x: int| s.to_set().contains(x) implies parent_hes(m, p).contains(x) by {
            let k = choose|k: int| 0 <= k < s.len() && s[k] == x;
            lemma_next_iter_in_range(m, f, k as nat);
            assert(m.par(m.next_iter(m.first_he(p), k as nat)) == p);
        }
        assert forall|x: int| parent_hes(m, p).contains(x) implies s.to_set().contains(x) by {
            assert(on_parent_cycle(m, x));
            let k0 = choose|k: int|
                0 <= k < m.nh() && #[trigger] m.next_iter(m.first_he(m.par(x)), k as nat) == x;
            lemma_next_iter_reduce(m, f, len, k0);
            vstd::arithmetic::div_mod::lemma_mod_bound(k0, len);
            assert(s[k0 % len] == x);
        }
    }
}

/// Distinct parents own disjoint half-edge sets, so the face counts of the
/// cells of a converted mesh add up to the number of half-edges whose
/// parent is a cell: the per-cell counts partition the cell half-edges.
/// The hypotheses are the conversion contract of
/// `Computational2DMesh::new_from_he`.
pub proof fn lemma_cell_face_counts_sum(m: Base2DMesh, c: Computational2DMesh)
    requires
        m.check_valid(),
        parents_complete(m),
        c.cells@.len() == cell_rank(m.parents@, m.np()),
        forall|p: int|
            0 <= p < m.np() && m.parents@[p] == Parent::Cell ==> {
                let j = #[trigger] cell_rank(m.parents@, p);
                let f = m.first_he(p);
                let cfaces = c.cells@[j].faces@;
                &&& 0 <= j < c.cells@.len()
                &&& 1 <= cfaces.len() <= m.nh()
                &&& m.next_iter(f, cfaces.len() as nat) == f
                &&& forall|k: int|
                    1 <= k < cfaces.len() ==> #[trigger] m.next_iter(f, k as nat) != f
            },
    ensures
        sum_cell_faces(c.cells@, c.cells@.len() as int) == count_cell_hes(m, m.nh()),
{
    lemma_sum_below(m, c, m.np());
    lemma_count_is_card(m, m.nh());
    assert(cell_hes_below(m, m.np()) =~= Set::new(
        |h: int|
            0 <= h < m.nh() && 0 <= m.par(h) < m.np() && m.parents@[m.par(h)] == Parent::Cell,
    ));
}

/// The prefix sums agree: the face counts of the cells ranked below `np`
/// add up to the cardinality of the cell half-edges below `np`.
proof fn lemma_sum_below(m: Base2DMesh, c: Computational2DMesh, np: int)
    requires
        m.check_valid(),
        parents_complete(m),
        0 <= np <= m.np(),
        c.cells@.len() == cell_rank(m.parents@, m.np()),
        forall|p: int|
            0 <= p < m.np() && m.parents@[p] == Parent::Cell ==> {
                let j = #[trigger] cell_rank(m.parents@, p);
                let f = m.first_he(p);
                let cfaces = c.cells@[j].faces@;
                &&& 0 <= j < c.cells@.len()
                &&& 1 <= cfaces.len() <= m.nh()
                &&& m.next_iter(f, cfaces.len() as nat) == f
                &&& forall|k: int|
                    1 <= k < cfaces.len() ==> #[trigger] m.next_iter(f, k as nat) != f
            },
    ensures
        cell_hes_below(m, np).finite(),
        sum_cell_faces(c.cells@, cell_rank(m.parents@, np)) == cell_hes_below(m, np).len(),
    decreases np,
{
    broadcast use vstd::set::group_set_axioms;

    if np == 0 {
        assert(cell_hes_below(m, 0) =~= Set::empty());
        assert(cell_hes_below(m, 0).len() == 0);
    } else {
        lemma_sum_below(m, c, np - 1);
        let p = np - 1;
        if m.parents@[p] == Parent::Cell {
            let j = cell_rank(m.parents@, p);
            let cfaces = c.cells@[j].faces@;
            lemma_cycle_len_counts_parent(m, p, cfaces.len() as int);
            assert(cell_rank(m.parents@, np) == j + 1);
            assert(sum_cell_faces(c.cells@, j + 1) == sum_cell_faces(c.cells@, j)
                + cfaces.len());
            assert(cell_hes_below(m, np) =~= cell_hes_below(m, np - 1) + parent_hes(m, p));
            assert(cell_hes_below(m, np - 1).disjoint(parent_hes(m, p)));
            lemma_set_disjoint_lens(cell_hes_below(m, np - 1), parent_hes(m, p));
            assert(cell_hes_below(m, np).len() == cell_hes_below(m, np - 1).len()
                + parent_hes(m, p).len());
        } else {
            assert(cell_rank(m.parents@, np) == cell_rank(m.parents@, np - 1));
            assert(cell_hes_below(m, np) =~= cell_hes_below(m, np - 1));
        }
    }
}

/// The recursive count of cell half-edges is the cardinality of their set.
proof fn lemma_count_is_card(m: Base2DMesh, k: int)
    requires
        0 <= k <= m.nh(),
    ensures
        Set::new(
            |h: int|
                0 <= h < k && 0 <= m.par(h) < m.np() && m.parents@[m.par(h)] == Parent::Cell,
        ).finite(),
        count_cell_hes(m, k) == Set::new(
            |h: int|
                0 <= h < k && 0 <= m.par(h) < m.np() && m.parents@[m.par(h)] == Parent::Cell,
        ).len(),
    decreases k,
{
    let below = |k: int|
        Set::new(
            |h: int|
                0 <= h < k && 0 <= m.par(h) < m.np() && m.parents@[m.par(h)] == Parent::Cell,
        );
    if k == 0 {
        assert(below(0) =~= Set::empty());
    } else {
        lemma_count_is_card(m, k - 1);
        if 0 <= m.par(k - 1) < m.np() && m.parents@[m.par(k - 1)] == Parent::Cell {
            assert(below(k) =~= below(k - 1).insert(k - 1));
            assert(!below(k - 1).contains(k - 1));
        } else {
            assert(below(k) =~= below(k - 1));
        }
    }
}

} // verus!
