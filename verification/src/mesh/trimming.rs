use vstd::prelude::*;
use crate::errors::MeshError;
use crate::mesh::half_edge::{edge_exists, has_he_at, on_parent_cycle, parents_complete,
    Base2DMesh, Modifiable2DMesh, Parent};
use crate::mesh::indices::{BoundaryPatchIndex, HalfEdgeIndex, ParentIndex, VertexIndex};
use crate::mesh::topology::{lemma_least_closure, lemma_least_origin_position, lemma_next_iter_add,
    lemma_next_iter_in_range, lemma_next_iter_reduce, lemma_next_prev_inverse,
    lemma_orbit_no_return_distinct, lemma_parent_along_orbit, lemma_parent_cycle_from_step};

verus! {


/// `h` is the half-edge of least index that originates at vertex `v` and
/// belongs to parent `p`: the anchor the trimming walk starts from.
pub open spec fn least_he_at(m: Base2DMesh, v: int, p: int, h: int) -> bool {
    &&& 0 <= h < m.nh()
    &&& m.vtx(h) == v
    &&& m.par(h) == p
    &&& forall|j: int| 0 <= j < h ==> !(#[trigger] m.vtx(j) == v && m.par(j) == p)
}

/// `c` is the length of the orbit of `h`: the first positive step count
/// that returns to `h`.
pub open spec fn min_cycle_len(m: Base2DMesh, h: int, c: int) -> bool {
    &&& 1 <= c <= m.nh()
    &&& m.next_iter(h, c as nat) == h
    &&& forall|j: int| 1 <= j < c ==> #[trigger] m.next_iter(h, j as nat) != h
}

/// `b` is the first positive position on the orbit of `h` whose origin
/// vertex is `v`.
pub open spec fn first_origin_pos(m: Base2DMesh, h: int, v: int, b: int) -> bool {
    &&& 1 <= b
    &&& m.vtx(m.next_iter(h, b as nat)) == v
    &&& forall|j: int| 1 <= j < b ==> m.vtx(#[trigger] m.next_iter(h, j as nat)) != v
}

/// Between positions `b` (exclusive) and `c` (exclusive) the orbit of `hu`
/// never returns to the first vertex: the trimmed parent's cycle visits
/// that vertex only at its anchor, so the re-parented stretch is exactly
/// the rest of the cycle.
pub open spec fn u_unique_on_stretch(m: Base2DMesh, hu: int, u: int, b: int, c: int) -> bool {
    forall|j: int| b < j < c ==> m.vtx(#[trigger] m.next_iter(hu, j as nat)) != u
}

/// How trimming rewires the cycle of `hu` (the anchor at vertex `u` with
/// parent `p`, with orbit length `c` and the second vertex first reached
/// at position `b`): the new half-edge `nh` is spliced before the anchor,
/// its twin `nh + 1` before position `b`, and the stretch from `b` on is
/// re-parented to the new cell whenever the anchor vertex does not recur.
pub open spec fn trim_splice(
    m: Base2DMesh,
    m2: Base2DMesh,
    u: int,
    p: int,
    hu: int,
    b: int,
    c: int,
) -> bool {
    let nh = m.nh();
    let np = m.np();
    &&& m2.patch(nh) == m.patch(hu)
    &&& m2.nxt(nh) == hu
    &&& m2.prv(nh) == m.next_iter(hu, (b - 1) as nat)
    &&& m2.nxt(nh + 1) == m.next_iter(hu, b as nat)
    &&& m2.prv(nh + 1) == m.next_iter(hu, (c - 1) as nat)
    &&& m2.prv(hu) == nh
    &&& m2.nxt(m.next_iter(hu, (b - 1) as nat)) == nh
    &&& m2.prv(m.next_iter(hu, b as nat)) == nh + 1
    &&& m2.nxt(m.next_iter(hu, (c - 1) as nat)) == nh + 1
    &&& forall|h: int|
        0 <= h < nh && h != m.next_iter(hu, (b - 1) as nat) && h != m.next_iter(
            hu,
            (c - 1) as nat,
        ) ==> #[trigger] m2.nxt(h) == m.nxt(h)
    &&& forall|h: int|
        0 <= h < nh && h != hu && h != m.next_iter(hu, b as nat) ==> #[trigger] m2.prv(h)
            == m.prv(h)
    &&& forall|j: int| 0 <= j < b ==> m2.par(#[trigger] m.next_iter(hu, j as nat)) == p
    &&& u_unique_on_stretch(m, hu, u, b, c) ==> forall|j: int|
        b <= j < c ==> m2.par(#[trigger] m.next_iter(hu, j as nat)) == np
}

/// Everything a successful trimming of `(u, v)` inside parent `p` does to
/// the mesh: the appended twin pair from `v` back to `u`, the new `Cell`,
/// both first-half-edge updates, the untouched data, and — through
/// `trim_splice` at the uniquely determined anchor, orbit length and
/// split position — the exact rewiring of the trimmed cycle.
pub open spec fn trim_success(m: Base2DMesh, m2: Base2DMesh, u: int, v: int, p: int) -> bool {
    let nh = m.nh();
    let np = m.np();
    &&& m2.wf()
    &&& m2.nh() == nh + 2
    &&& m2.vertices@ == m.vertices@
    &&& m2.boundaries@ == m.boundaries@
    &&& m2.parents@ == m.parents@.push(Parent::Cell)
    &&& m2.he_to_vertex@ == m.he_to_vertex@.push(VertexIndex(v as usize)).push(
        VertexIndex(u as usize),
    )
    &&& m2.he_to_twin@ == m.he_to_twin@.push(HalfEdgeIndex((nh + 1) as usize)).push(
        HalfEdgeIndex(nh as usize),
    )
    &&& m2.parent_to_first_he@ == m.parent_to_first_he@.update(
        p,
        HalfEdgeIndex(nh as usize),
    ).push(HalfEdgeIndex((nh + 1) as usize))
    &&& m2.par(nh) == p
    &&& m2.par(nh + 1) == np
    &&& m2.patch(nh + 1) is None
    &&& forall|h: int| 0 <= h < nh ==> #[trigger] m2.patch(h) == m.patch(h)
    &&& forall|h: int| 0 <= h < nh && m.par(h) != p ==> #[trigger] m2.par(h) == m.par(h)
    &&& forall|h: int| 0 <= h < nh ==> #[trigger] m2.par(h) == m.par(h) || m2.par(h) == np
    &&& forall|hu: int, b: int, c: int|
        least_he_at(m, u, p, hu) && #[trigger] min_cycle_len(m, hu, c)
            && #[trigger] first_origin_pos(m, hu, v, b) && b < c ==> trim_splice(
            m,
            m2,
            u,
            p,
            hu,
            b,
            c,
        )
}

/// Between position `b` and the closure `c` of the orbit of `hu` there is a
/// first position whose origin vertex is `u` again.
proof fn lemma_least_u_after(m: Base2DMesh, hu: int, u: int, b: int, c: int)
    requires
        0 <= b < c,
        m.vtx(m.next_iter(hu, c as nat)) == u,
    ensures
        exists|k: int|
            b < k <= c && m.vtx(#[trigger] m.next_iter(hu, k as nat)) == u && (forall|j: int|
                b < j < k ==> m.vtx(#[trigger] m.next_iter(hu, j as nat)) != u),
    decreases c - b,
{
    if exists|j: int| b < j < c && m.vtx(#[trigger] m.next_iter(hu, j as nat)) == u {
        let j0 = choose|j: int| b < j < c && m.vtx(#[trigger] m.next_iter(hu, j as nat)) == u;
        lemma_least_u_after(m, hu, u, b, j0);
        let k0 = choose|k: int|
            b < k <= j0 && m.vtx(#[trigger] m.next_iter(hu, k as nat)) == u && (forall|j: int|
                b < j < k ==> m.vtx(#[trigger] m.next_iter(hu, j as nat)) != u);
        assert(b < k0 <= c && m.vtx(m.next_iter(hu, k0 as nat)) == u);
    } else {
        assert(b < c <= c && m.vtx(m.next_iter(hu, c as nat)) == u && (forall|j: int|
            b < j < c ==> m.vtx(#[trigger] m.next_iter(hu, j as nat)) != u));
    }
}

/// Groundwork for the trimming walks, given the minimal orbit length `c` of
/// the chosen half-edge `hu`: the orbit points below `c` are pairwise
/// distinct and all carry parent `p`, the orbit predecessor of `hu` sits at
/// position `c - 1`, and the second vertex appears first at some positive
/// position strictly below `c`.
#[verifier::rlimit(100)]
#[verifier::spinoff_prover]
proof fn lemma_trim_orbit(m: Base2DMesh, hu: int, u: int, v: int, p: int, c: int)
    requires
        m.check_valid(),
        parents_complete(m),
        0 <= hu < m.nh(),
        m.vtx(hu) == u,
        m.par(hu) == p,
        u != v,
        has_he_at(m, v, p),
        1 <= c <= m.nh(),
        m.next_iter(hu, c as nat) == hu,
        forall|j: int| 1 <= j < c ==> #[trigger] m.next_iter(hu, j as nat) != hu,
    ensures
        p < m.np(),
        m.prv(hu) == m.next_iter(hu, (c - 1) as nat),
        forall|i: int, j: int|
            0 <= i < j <= c - 1 ==> #[trigger] m.next_iter(hu, i as nat) != #[trigger] m.next_iter(
                hu,
                j as nat,
            ),
        forall|j: int|
            0 <= j <= c - 1 ==> m.par(#[trigger] m.next_iter(hu, j as nat)) == p && 0
                <= m.next_iter(hu, j as nat) < m.nh(),
        exists|k: int|
            1 <= k <= c - 1 && m.vtx(#[trigger] m.next_iter(hu, k as nat)) == v && (forall|j: int|
                1 <= j < k ==> m.vtx(#[trigger] m.next_iter(hu, j as nat)) != v),
{
    assert(p < m.np());
    lemma_next_prev_inverse(m, hu);
    let w = m.next_iter(hu, (c - 1) as nat);
    lemma_next_iter_in_range(m, hu, (c - 1) as nat);
    assert(m.next_iter(hu, c as nat) == m.nxt(w));
    assert(m.prv(m.nxt(w)) == w);
    assert(m.prv(hu) == w);
    lemma_orbit_no_return_distinct(m, hu, c - 1);
    assert forall|j: int| 0 <= j <= c - 1 implies m.par(#[trigger] m.next_iter(hu, j as nat)) == p
        && 0 <= m.next_iter(hu, j as nat) < m.nh() by {
        lemma_parent_along_orbit(m, hu, j as nat);
    }
    // the second vertex sits somewhere on this orbit
    let hv = choose|h: int| 0 <= h < m.nh() && #[trigger] m.vtx(h) == v && m.par(h) == p;
    assert(on_parent_cycle(m, hu));
    assert(on_parent_cycle(m, hv));
    let f = m.first_he(p);
    let cu0 = choose|k: int|
        0 <= k < m.nh() && #[trigger] m.next_iter(m.first_he(m.par(hu)), k as nat) == hu;
    let cv0 = choose|k: int|
        0 <= k < m.nh() && #[trigger] m.next_iter(m.first_he(m.par(hv)), k as nat) == hv;
    lemma_least_closure(m, f);
    let cf = choose|k: int|
        1 <= k <= m.nh() && #[trigger] m.next_iter(f, k as nat) == f && (forall|j: int|
            1 <= j < k ==> #[trigger] m.next_iter(f, j as nat) != f);
    lemma_next_iter_reduce(m, f, cf, cu0);
    lemma_next_iter_reduce(m, f, cf, cv0);
    vstd::arithmetic::div_mod::lemma_mod_bound(cu0, cf);
    vstd::arithmetic::div_mod::lemma_mod_bound(cv0, cf);
    let cu = cu0 % cf;
    let cv = cv0 % cf;
    assert(m.next_iter(f, cu as nat) == hu);
    assert(m.next_iter(f, cv as nat) == hv);
    let d0: int = if cv > cu {
        cv - cu
    } else {
        cv + cf - cu
    };
    if cv > cu {
        lemma_next_iter_add(m, f, cu as nat, d0 as nat);
    } else {
        lemma_next_iter_add(m, f, cf as nat, cv as nat);
        assert(m.next_iter(f, (cf + cv) as nat) == hv);
        lemma_next_iter_add(m, f, cu as nat, d0 as nat);
    }
    assert(m.next_iter(hu, d0 as nat) == hv);
    assert(d0 >= 1) by {
        if d0 == 0 {
            assert(m.next_iter(hu, 0) == hu);
        }
    }
    lemma_next_iter_reduce(m, hu, c, d0);
    vstd::arithmetic::div_mod::lemma_mod_bound(d0, c);
    let d1 = d0 % c;
    assert(m.vtx(m.next_iter(hu, d1 as nat)) == v);
    assert(d1 >= 1) by {
        if d1 == 0 {
            assert(m.next_iter(hu, 0) == hu);
        }
    }
    lemma_least_origin_position(m, hu, v, d1);
    let b0 = choose|k: int|
        1 <= k <= d1 && m.vtx(#[trigger] m.next_iter(hu, k as nat)) == v && (forall|j: int|
            1 <= j < k ==> m.vtx(#[trigger] m.next_iter(hu, j as nat)) != v);
    assert(1 <= b0 <= c - 1 && m.vtx(m.next_iter(hu, b0 as nat)) == v && (forall|j: int|
        1 <= j < b0 ==> m.vtx(#[trigger] m.next_iter(hu, j as nat)) != v));
}



/// There is a least half-edge at a vertex-and-parent pair once there is
/// any.
proof fn lemma_least_he_exists(m: Base2DMesh, u: int, p: int, h: int)
    requires
        0 <= h < m.nh(),
        m.vtx(h) == u,
        m.par(h) == p,
    ensures
        exists|hu: int| #[trigger] least_he_at(m, u, p, hu),
    decreases h,
{
    if exists|j: int| 0 <= j < h && #[trigger] m.vtx(j) == u && m.par(j) == p {
        let j0 = choose|j: int| 0 <= j < h && #[trigger] m.vtx(j) == u && m.par(j) == p;
        lemma_least_he_exists(m, u, p, j0);
    } else {
        assert(least_he_at(m, u, p, h));
    }
}

/// Every half-edge with the anchor's parent sits somewhere on the anchor's
/// orbit, below the orbit length.
proof fn lemma_orbit_covers_parent(m: Base2DMesh, hu: int, c: int, x: int)
    requires
        m.check_valid(),
        parents_complete(m),
        0 <= hu < m.nh(),
        min_cycle_len(m, hu, c),
        0 <= x < m.nh(),
        m.par(x) == m.par(hu),
    ensures
        exists|j: int| 0 <= j < c && #[trigger] m.next_iter(hu, j as nat) == x,
{
    let p = m.par(hu);
    assert(p < m.np());
    assert(on_parent_cycle(m, hu));
    assert(on_parent_cycle(m, x));
    let f = m.first_he(p);
    let cu0 = choose|k: int|
        0 <= k < m.nh() && #[trigger] m.next_iter(m.first_he(m.par(hu)), k as nat) == hu;
    let cv0 = choose|k: int|
        0 <= k < m.nh() && #[trigger] m.next_iter(m.first_he(m.par(x)), k as nat) == x;
    lemma_least_closure(m, f);
    let cf = choose|k: int|
        1 <= k <= m.nh() && #[trigger] m.next_iter(f, k as nat) == f && (forall|j: int|
            1 <= j < k ==> #[trigger] m.next_iter(f, j as nat) != f);
    lemma_next_iter_reduce(m, f, cf, cu0);
    lemma_next_iter_reduce(m, f, cf, cv0);
    vstd::arithmetic::div_mod::lemma_mod_bound(cu0, cf);
    vstd::arithmetic::div_mod::lemma_mod_bound(cv0, cf);
    let cu = cu0 % cf;
    let cv = cv0 % cf;
    assert(m.next_iter(f, cu as nat) == hu);
    assert(m.next_iter(f, cv as nat) == x);
    let d0: int = if cv >= cu {
        cv - cu
    } else {
        cv + cf - cu
    };
    if cv >= cu {
        lemma_next_iter_add(m, f, cu as nat, d0 as nat);
    } else {
        lemma_next_iter_add(m, f, cf as nat, cv as nat);
        assert(m.next_iter(f, (cf + cv) as nat) == x);
        lemma_next_iter_add(m, f, cu as nat, d0 as nat);
    }
    assert(m.next_iter(hu, d0 as nat) == x);
    lemma_next_iter_reduce(m, hu, c, d0);
    vstd::arithmetic::div_mod::lemma_mod_bound(d0, c);
    assert(m.next_iter(hu, (d0 % c) as nat) == x);
}

/// The new cycle of the trimmed parent: the new half-edge, then the kept
/// stretch of the anchor's orbit.
proof fn lemma_new_parent_path(
    m: Base2DMesh,
    m2: Base2DMesh,
    u: int,
    p: int,
    hu: int,
    b: int,
    c: int,
    j: int,
)
    requires
        m.check_valid(),
        0 <= hu < m.nh(),
        min_cycle_len(m, hu, c),
        1 <= b <= c - 1,
        trim_splice(m, m2, u, p, hu, b, c),
        forall|i: int, j2: int|
            0 <= i < j2 <= c - 1 ==> #[trigger] m.next_iter(hu, i as nat)
                != #[trigger] m.next_iter(hu, j2 as nat),
        forall|j2: int|
            0 <= j2 <= c - 1 ==> 0 <= #[trigger] m.next_iter(hu, j2 as nat) < m.nh(),
        0 <= j < b,
    ensures
        m2.next_iter(m.nh(), (j + 1) as nat) == m.next_iter(hu, j as nat),
    decreases j,
{
    if j == 0 {
        assert(m2.next_iter(m.nh(), 1) == m2.nxt(m2.next_iter(m.nh(), 0)));
        assert(m2.nxt(m.nh()) == hu);
    } else {
        lemma_new_parent_path(m, m2, u, p, hu, b, c, j - 1);
        let w = m.next_iter(hu, (j - 1) as nat);
        assert(w != m.next_iter(hu, (b - 1) as nat) || j - 1 == b - 1);
        assert(j - 1 != b - 1);
        assert(w != m.next_iter(hu, (c - 1) as nat));
        assert(m2.nxt(w) == m.nxt(w));
        assert(m2.next_iter(m.nh(), (j + 1) as nat) == m2.nxt(m2.next_iter(m.nh(), j as nat)));
    }
}

/// The cycle of the new cell: the new twin, then the re-parented stretch.
proof fn lemma_new_cell_path(
    m: Base2DMesh,
    m2: Base2DMesh,
    u: int,
    p: int,
    hu: int,
    b: int,
    c: int,
    j: int,
)
    requires
        m.check_valid(),
        0 <= hu < m.nh(),
        min_cycle_len(m, hu, c),
        1 <= b <= c - 1,
        trim_splice(m, m2, u, p, hu, b, c),
        forall|i: int, j2: int|
            0 <= i < j2 <= c - 1 ==> #[trigger] m.next_iter(hu, i as nat)
                != #[trigger] m.next_iter(hu, j2 as nat),
        forall|j2: int|
            0 <= j2 <= c - 1 ==> 0 <= #[trigger] m.next_iter(hu, j2 as nat) < m.nh(),
        b <= j < c,
    ensures
        m2.next_iter(m.nh() + 1, (j - b + 1) as nat) == m.next_iter(hu, j as nat),
    decreases j,
{
    if j == b {
        assert(m2.next_iter(m.nh() + 1, 1) == m2.nxt(m2.next_iter(m.nh() + 1, 0)));
        assert(m2.nxt(m.nh() + 1) == m.next_iter(hu, b as nat));
    } else {
        lemma_new_cell_path(m, m2, u, p, hu, b, c, j - 1);
        let w = m.next_iter(hu, (j - 1) as nat);
        assert(w != m.next_iter(hu, (b - 1) as nat));
        assert(w != m.next_iter(hu, (c - 1) as nat));
        assert(m2.nxt(w) == m.nxt(w));
        assert(m2.next_iter(m.nh() + 1, (j - b + 1) as nat) == m2.nxt(
            m2.next_iter(m.nh() + 1, (j - b) as nat),
        ));
    }
}

/// Away from the trimmed parent, old `next` paths are untouched.
proof fn lemma_off_orbit_path(m: Base2DMesh, m2: Base2DMesh, u: int, p: int, hu: int, b: int, c: int, q: int, k: int)
    requires
        m.check_valid(),
        0 <= hu < m.nh(),
        min_cycle_len(m, hu, c),
        1 <= b <= c - 1,
        trim_splice(m, m2, u, p, hu, b, c),
        forall|j2: int|
            0 <= j2 <= c - 1 ==> m.par(#[trigger] m.next_iter(hu, j2 as nat)) == p && 0
                <= m.next_iter(hu, j2 as nat) < m.nh(),
        0 <= q < m.np(),
        q != p,
        0 <= k < m.nh(),
    ensures
        m2.next_iter(m.first_he(q), k as nat) == m.next_iter(m.first_he(q), k as nat),
    decreases k,
{
    let f = m.first_he(q);
    if k > 0 {
        lemma_off_orbit_path(m, m2, u, p, hu, b, c, q, k - 1);
        let w = m.next_iter(f, (k - 1) as nat);
        assert(0 <= f < m.nh());
        lemma_next_iter_in_range(m, f, (k - 1) as nat);
        assert(m.par(m.next_iter(m.first_he(q), (k - 1) as nat)) == q);
        assert(m.par(w) == q && 0 <= w < m.nh());
        assert(w != m.next_iter(hu, (b - 1) as nat)) by {
            if w == m.next_iter(hu, (b - 1) as nat) {
                assert(m.par(m.next_iter(hu, (b - 1) as nat)) == p);
            }
        }
        assert(w != m.next_iter(hu, (c - 1) as nat)) by {
            if w == m.next_iter(hu, (c - 1) as nat) {
                assert(m.par(m.next_iter(hu, (c - 1) as nat)) == p);
            }
        }
        assert(m2.nxt(w) == m.nxt(w));
        assert(m2.next_iter(f, k as nat) == m2.nxt(m2.next_iter(f, (k - 1) as nat)));
    }
}


/// Trimming preserves every integrity invariant of the mesh, provided the
/// trimmed parent's cycle returns to the first vertex only at its anchor
/// (on a cycle that revisits that vertex between the chord's two
/// endpoints, the stretch past the second visit keeps the old parent but
/// leaves its new cycle, so the result must be re-checked instead).
#[verifier::rlimit(100)]
#[verifier::spinoff_prover]
pub proof fn lemma_trimming_preserves_valid(m: Base2DMesh, m2: Base2DMesh, u: int, v: int, p: int)
    requires
        m.check_valid(),
        parents_complete(m),
        u != v,
        0 <= u < m.nv(),
        0 <= v < m.nv(),
        has_he_at(m, u, p),
        has_he_at(m, v, p),
        m.nh() + 2 <= usize::MAX,
        m.np() + 1 <= usize::MAX,
        trim_success(m, m2, u, v, p),
        forall|hu: int, b: int, c: int|
            least_he_at(m, u, p, hu) && #[trigger] min_cycle_len(m, hu, c)
                && #[trigger] first_origin_pos(m, hu, v, b) ==> u_unique_on_stretch(m, hu, u, b, c),
    ensures
        m2.check_valid(),
        parents_complete(m2),
{
    let nh = m.nh();
    let np = m.np();
    let h0 = choose|h: int| 0 <= h < m.nh() && #[trigger] m.vtx(h) == u && m.par(h) == p;
    lemma_least_he_exists(m, u, p, h0);
    let hu = choose|hu: int| #[trigger] least_he_at(m, u, p, hu);
    lemma_least_closure(m, hu);
    let c = choose|k: int|
        1 <= k <= m.nh() && #[trigger] m.next_iter(hu, k as nat) == hu && (forall|j: int|
            1 <= j < k ==> #[trigger] m.next_iter(hu, j as nat) != hu);
    lemma_trim_orbit(m, hu, u, v, p, c);
    let b = choose|k: int|
        1 <= k <= c - 1 && m.vtx(#[trigger] m.next_iter(hu, k as nat)) == v && (forall|j: int|
            1 <= j < k ==> m.vtx(#[trigger] m.next_iter(hu, j as nat)) != v);
    assert(min_cycle_len(m, hu, c));
    assert(first_origin_pos(m, hu, v, b));
    assert(trim_splice(m, m2, u, p, hu, b, c));
    assert(u_unique_on_stretch(m, hu, u, b, c));
    let eb1 = m.next_iter(hu, (b - 1) as nat);
    let ec1 = m.next_iter(hu, (c - 1) as nat);
    let eb = m.next_iter(hu, b as nat);
    assert(m.next_iter(hu, 0) == hu);
    assert(hu == m.next_iter(hu, 0nat));
    assert(m2.nh() == nh + 2 && m2.nv() == m.nv() && m2.np() == np + 1);
    assert(m.prv(hu) == ec1) by {
        lemma_next_prev_inverse(m, hu);
        assert(m.next_iter(hu, c as nat) == m.nxt(ec1));
        assert(m.prv(m.nxt(ec1)) == ec1);
    }
    assert(m.prv(eb) == eb1) by {
        assert(m.next_iter(hu, b as nat) == m.nxt(eb1));
        assert(m.prv(m.nxt(eb1)) == eb1);
    }
    // coverage: the orbit positions below `c` are exactly the half-edges
    // of the trimmed parent
    assert forall|x: int| 0 <= x < nh && m.par(x) == p implies exists|j: int|
        0 <= j < c && #[trigger] m.next_iter(hu, j as nat) == x by {
        lemma_orbit_covers_parent(m, hu, c, x);
    }
    // ranges and the twin involution
    assert forall|x: int| 0 <= x < m2.nh() implies #[trigger] m2.vtx(x) < m2.nv() by {
        if x < nh {
            assert(m2.he_to_vertex@[x] == m.he_to_vertex@[x]);
            assert(m.vtx(x) < m.nv());
        }
    }
    assert forall|x: int| 0 <= x < m2.nh() implies #[trigger] m2.twn(x) < m2.nh() && m2.twn(
        m2.twn(x),
    ) == x by {
        if x < nh {
            assert(m2.he_to_twin@[x] == m.he_to_twin@[x]);
            assert(m.twn(x) < m.nh());
            assert(m2.he_to_twin@[m.twn(x)] == m.he_to_twin@[m.twn(x)]);
            assert(m.twn(m.twn(x)) == x);
        }
    }
    assert forall|x: int| 0 <= x < m2.nh() implies #[trigger] m2.nxt(x) < m2.nh() by {
        if x < nh {
            if x != eb1 && x != ec1 {
                assert(m2.nxt(x) == m.nxt(x));
                assert(m.nxt(x) < m.nh());
            }
        }
    }
    assert forall|x: int| 0 <= x < m2.nh() implies #[trigger] m2.prv(x) < m2.nh() by {
        if x < nh {
            if x != hu && x != eb {
                assert(m2.prv(x) == m.prv(x));
                assert(m.prv(x) < m.nh());
            }
        }
    }
    assert forall|x: int| 0 <= x < m2.nh() implies #[trigger] m2.par(x) < m2.np() by {
        if x < nh {
            assert(m2.par(x) == m.par(x) || m2.par(x) == np);
            assert(m.par(x) < m.np());
        }
    }
    // `prev` undoes `next`
    assert forall|x: int| 0 <= x < m2.nh() implies m2.prv(#[trigger] m2.nxt(x)) == x by {
        if x == nh {
            assert(m2.nxt(nh) == hu && m2.prv(hu) == nh);
        } else if x == nh + 1 {
            assert(m2.nxt(nh + 1) == eb && m2.prv(eb) == nh + 1);
        } else if x == eb1 {
            assert(m2.nxt(eb1) == nh && m2.prv(nh) == eb1);
        } else if x == ec1 {
            assert(m2.nxt(ec1) == nh + 1 && m2.prv(nh + 1) == ec1);
        } else {
            assert(m2.nxt(x) == m.nxt(x));
            assert(m.prv(m.nxt(x)) == x);
            assert(m.nxt(x) < m.nh());
            assert(m.nxt(x) != hu) by {
                if m.nxt(x) == hu {
                    assert(m.prv(m.nxt(x)) == x);
                }
            }
            assert(m.nxt(x) != eb) by {
                if m.nxt(x) == eb {
                    assert(m.prv(m.nxt(x)) == x);
                }
            }
            assert(m2.prv(m.nxt(x)) == m.prv(m.nxt(x)));
        }
    }
    // the parent is constant along the new `next`
    assert forall|x: int| 0 <= x < m2.nh() implies m2.par(#[trigger] m2.nxt(x)) == m2.par(x) by {
        if x == nh {
            assert(m2.par(m.next_iter(hu, 0nat)) == p);
        } else if x == nh + 1 {
            assert(m2.par(m.next_iter(hu, b as nat)) == np);
        } else if x == eb1 {
            assert(m2.par(m.next_iter(hu, (b - 1) as nat)) == p);
        } else if x == ec1 {
            assert(m2.par(m.next_iter(hu, (c - 1) as nat)) == np);
        } else if m.par(x) == p {
            let j = choose|j: int| 0 <= j < c && #[trigger] m.next_iter(hu, j as nat) == x;
            assert(j != b - 1 && j != c - 1) by {
                if j < c - 1 {
                    assert(m.next_iter(hu, j as nat) != m.next_iter(hu, (c - 1) as nat) || j == c
                        - 1);
                }
                if j < b - 1 || (b - 1 < j && j <= c - 1) {
                    assert(m.next_iter(hu, j as nat) != m.next_iter(hu, (b - 1) as nat) || j == b
                        - 1);
                }
            }
            assert(m2.nxt(x) == m.nxt(x));
            assert(m.nxt(x) == m.next_iter(hu, (j + 1) as nat));
            if j < b - 1 {
                assert(m2.par(m.next_iter(hu, j as nat)) == p);
                assert(m2.par(m.next_iter(hu, (j + 1) as nat)) == p);
            } else {
                assert(b <= j < c - 1);
                assert(m2.par(m.next_iter(hu, j as nat)) == np);
                assert(m2.par(m.next_iter(hu, (j + 1) as nat)) == np);
            }
        } else {
            assert(x != eb1 && x != ec1) by {
                assert(m.par(m.next_iter(hu, (b - 1) as nat)) == p);
                assert(m.par(m.next_iter(hu, (c - 1) as nat)) == p);
            }
            assert(m2.nxt(x) == m.nxt(x));
            crate::mesh::topology::lemma_parent_along_orbit(m, x, 1);
            assert(m.next_iter(x, 0) == x && m.next_iter(x, 1) == m.nxt(x));
            assert(m.par(m.nxt(x)) == m.par(x));
            assert(m.nxt(x) < m.nh());
            assert(m2.par(m.nxt(x)) == m.par(m.nxt(x)));
        }
    }
    assert forall|q: int| 0 <= q < m2.np() implies m2.par(#[trigger] m2.first_he(q)) == q by {
        if q == p {
            assert(m2.first_he(p) == nh);
        } else if q == np {
            assert(m2.first_he(np) == nh + 1);
        } else {
            assert(m2.parent_to_first_he@[q] == m.parent_to_first_he@[q]);
            assert(0 <= m.first_he(q) < m.nh());
            let k0: int = 0;
            assert(m.next_iter(m.first_he(q), k0 as nat) == m.first_he(q));
            assert(m.par(m.next_iter(m.first_he(q), k0 as nat)) == q);
            assert(m.first_he(q) != eb1 && m.first_he(q) != ec1) by {
                assert(m.par(m.next_iter(hu, (b - 1) as nat)) == p);
                assert(m.par(m.next_iter(hu, (c - 1) as nat)) == p);
            }
            assert(m2.par(m.first_he(q)) == m.par(m.first_he(q)));
        }
    }
    lemma_parent_cycle_from_step(m2);
    assert(m2.check_valid());
    // completeness: everything is reachable from its parent's new cycle
    assert forall|x: int| 0 <= x < m2.nh() implies #[trigger] on_parent_cycle(m2, x) by {
        if x == nh {
            let k0: int = 0;
            assert(m2.next_iter(m2.first_he(m2.par(nh)), k0 as nat) == nh);
        } else if x == nh + 1 {
            let k0: int = 0;
            assert(m2.next_iter(m2.first_he(m2.par(nh + 1)), k0 as nat) == nh + 1);
        } else if m.par(x) == p {
            let j = choose|j: int| 0 <= j < c && #[trigger] m.next_iter(hu, j as nat) == x;
            if j < b {
                lemma_new_parent_path(m, m2, u, p, hu, b, c, j);
                assert(m2.par(x) == p);
                assert(m2.first_he(m2.par(x)) == nh);
                assert(m2.next_iter(m2.first_he(m2.par(x)), (j + 1) as nat) == x);
            } else {
                lemma_new_cell_path(m, m2, u, p, hu, b, c, j);
                assert(m2.par(x) == np);
                assert(m2.first_he(m2.par(x)) == nh + 1);
                assert(m2.next_iter(m2.first_he(m2.par(x)), (j - b + 1) as nat) == x);
            }
        } else {
            let q = m.par(x);
            assert(on_parent_cycle(m, x));
            let k = choose|k: int|
                0 <= k < m.nh() && #[trigger] m.next_iter(m.first_he(m.par(x)), k as nat) == x;
            lemma_off_orbit_path(m, m2, u, p, hu, b, c, q, k);
            assert(m2.parent_to_first_he@[q] == m.parent_to_first_he@[q]);
            assert(m2.par(x) == q);
            assert(m2.next_iter(m2.first_he(m2.par(x)), k as nat) == x);
        }
    }
}

/// Reassembles the trimming contract from the facts the walks established:
/// given the spliced arrays and the positional parent assignment along the
/// orbit of the anchor `hu`, the full success relation holds.
#[verifier::rlimit(100)]
#[verifier::spinoff_prover]
proof fn lemma_establish_trim_success(
    om: Base2DMesh,
    m2: Base2DMesh,
    uu: int,
    vv: int,
    pp: int,
    hu: int,
    b: int,
    c: int,
    g: int,
)
    requires
        om.check_valid(),
        uu != vv,
        om.nh() + 2 <= usize::MAX,
        om.np() + 1 <= usize::MAX,
        0 <= hu < om.nh(),
        om.vtx(hu) == uu,
        om.par(hu) == pp,
        0 <= pp < om.np(),
        least_he_at(om, uu, pp, hu),
        min_cycle_len(om, hu, c),
        first_origin_pos(om, hu, vv, b),
        1 <= b <= c - 1,
        b < g <= c,
        om.vtx(om.next_iter(hu, g as nat)) == uu,
        forall|j: int| b < j < g ==> om.vtx(#[trigger] om.next_iter(hu, j as nat)) != uu,
        forall|i: int, j: int|
            0 <= i < j <= c - 1 ==> #[trigger] om.next_iter(hu, i as nat) != #[trigger] om.next_iter(
                hu,
                j as nat,
            ),
        forall|j: int|
            0 <= j <= c - 1 ==> om.par(#[trigger] om.next_iter(hu, j as nat)) == pp && 0
                <= om.next_iter(hu, j as nat) < om.nh(),
        om.prv(hu) == om.next_iter(hu, (c - 1) as nat),
        m2.wf(),
        m2.vertices@ == om.vertices@,
        m2.boundaries@ == om.boundaries@,
        m2.parents@ == om.parents@.push(Parent::Cell),
        m2.he_to_vertex@ == om.he_to_vertex@.push(VertexIndex(vv as usize)).push(
            VertexIndex(uu as usize),
        ),
        m2.he_to_twin@ == om.he_to_twin@.push(HalfEdgeIndex((om.nh() + 1) as usize)).push(
            HalfEdgeIndex(om.nh() as usize),
        ),
        m2.parent_to_first_he@ == om.parent_to_first_he@.update(
            pp,
            HalfEdgeIndex(om.nh() as usize),
        ).push(HalfEdgeIndex((om.nh() + 1) as usize)),
        m2.he_to_next_he@ == om.he_to_next_he@.push(HalfEdgeIndex(hu as usize)).push(
            HalfEdgeIndex(usize::MAX),
        ).update(om.prv(hu), HalfEdgeIndex((om.nh() + 1) as usize)).update(
            om.nh() + 1,
            HalfEdgeIndex(om.next_iter(hu, b as nat) as usize),
        ).update(om.next_iter(hu, (b - 1) as nat), HalfEdgeIndex(om.nh() as usize)),
        m2.he_to_prev_he@ == om.he_to_prev_he@.push(HalfEdgeIndex(usize::MAX)).push(
            HalfEdgeIndex(om.prv(hu) as usize),
        ).update(hu, HalfEdgeIndex(om.nh() as usize)).update(
            om.nh(),
            HalfEdgeIndex(om.next_iter(hu, (b - 1) as nat) as usize),
        ).update(om.next_iter(hu, b as nat), HalfEdgeIndex((om.nh() + 1) as usize)),
        m2.he_to_parent@.len() == om.nh() + 2,
        m2.he_to_parent@[om.nh()] == (ParentIndex(pp as usize), om.patch(hu)),
        m2.he_to_parent@[om.nh() + 1] == (
            ParentIndex(om.np() as usize),
            None::<BoundaryPatchIndex>,
        ),
        forall|h: int|
            0 <= h < om.nh() ==> (#[trigger] m2.he_to_parent@[h]).1 == om.he_to_parent@[h].1,
        forall|h: int|
            0 <= h < om.nh() && om.par(h) != pp ==> (#[trigger] m2.he_to_parent@[h]).0.0
                == om.he_to_parent@[h].0.0,
        forall|h: int|
            0 <= h < om.nh() ==> (#[trigger] m2.he_to_parent@[h]).0.0 == om.he_to_parent@[h].0.0
                || m2.he_to_parent@[h].0.0 == om.np(),
        forall|j: int|
            0 <= j < b ==> m2.he_to_parent@[#[trigger] om.next_iter(hu, j as nat)].0.0 == pp,
        forall|j: int|
            b <= j < g ==> m2.he_to_parent@[#[trigger] om.next_iter(hu, j as nat)].0.0
                == om.np(),
        forall|j: int|
            g <= j <= c - 1 ==> m2.he_to_parent@[#[trigger] om.next_iter(hu, j as nat)].0.0
                == pp,
    ensures
        trim_success(om, m2, uu, vv, pp),
{
    lemma_next_iter_in_range(om, hu, b as nat);
    lemma_next_iter_in_range(om, hu, (b - 1) as nat);
    lemma_next_iter_in_range(om, hu, (c - 1) as nat);
    assert(m2.nxt(om.nh()) == hu);
    assert(m2.prv(om.nh()) == om.next_iter(hu, (b - 1) as nat));
    assert(m2.nxt(om.nh() + 1) == om.next_iter(hu, b as nat));
    assert(m2.prv(om.nh() + 1) == om.next_iter(hu, (c - 1) as nat));
    assert(m2.prv(hu) == om.nh());
    assert(m2.nxt(om.next_iter(hu, (b - 1) as nat)) == om.nh());
    assert(m2.prv(om.next_iter(hu, b as nat)) == om.nh() + 1);
    assert(m2.nxt(om.next_iter(hu, (c - 1) as nat)) == om.nh() + 1);
    assert forall|h: int|
        0 <= h < om.nh() && h != om.next_iter(hu, (b - 1) as nat) && h != om.next_iter(
            hu,
            (c - 1) as nat,
        ) implies #[trigger] m2.nxt(h) == om.nxt(h) by {
        assert(m2.he_to_next_he@[h] == om.he_to_next_he@[h]);
    }
    assert forall|h: int|
        0 <= h < om.nh() && h != hu && h != om.next_iter(hu, b as nat) implies #[trigger] m2.prv(
        h,
    ) == om.prv(h) by {
        assert(m2.he_to_prev_he@[h] == om.he_to_prev_he@[h]);
    }
    assert forall|h: int| 0 <= h < om.nh() implies #[trigger] m2.patch(h) == om.patch(h) by {
        assert((m2.he_to_parent@[h]).1 == om.he_to_parent@[h].1);
    }
    assert forall|h: int|
        0 <= h < om.nh() && om.par(h) != pp implies #[trigger] m2.par(h) == om.par(h) by {
        assert((m2.he_to_parent@[h]).0.0 == om.he_to_parent@[h].0.0);
    }
    assert forall|h: int|
        0 <= h < om.nh() implies #[trigger] m2.par(h) == om.par(h) || m2.par(h) == om.np() by {
        assert((m2.he_to_parent@[h]).0.0 == om.he_to_parent@[h].0.0 || m2.he_to_parent@[h].0.0
            == om.np());
    }
    assert forall|j: int|
        0 <= j < b implies m2.par(#[trigger] om.next_iter(hu, j as nat)) == pp by {
        assert(m2.he_to_parent@[om.next_iter(hu, j as nat)].0.0 == pp);
    }
    if u_unique_on_stretch(om, hu, uu, b, c) {
        assert(g == c) by {
            if g < c {
                assert(om.vtx(om.next_iter(hu, g as nat)) == uu);
            }
        }
        assert forall|j: int|
            b <= j < c implies m2.par(#[trigger] om.next_iter(hu, j as nat)) == om.np() by {
            assert(m2.he_to_parent@[om.next_iter(hu, j as nat)].0.0 == om.np());
        }
    }
    assert(trim_splice(om, m2, uu, pp, hu, b, c));
    assert forall|hu2: int, b2: int, c2: int|
        least_he_at(om, uu, pp, hu2) && #[trigger] min_cycle_len(om, hu2, c2)
            && #[trigger] first_origin_pos(om, hu2, vv, b2) && b2 < c2 implies trim_splice(
        om,
        m2,
        uu,
        pp,
        hu2,
        b2,
        c2,
    ) by {
        assert(hu2 == hu) by {
            if hu2 < hu {
                assert(!(om.vtx(hu2) == uu && om.par(hu2) == pp));
            }
            if hu < hu2 {
                assert(!(om.vtx(hu) == uu && om.par(hu) == pp));
            }
        }
        assert(c2 == c) by {
            if c2 < c {
                assert(om.next_iter(hu, c2 as nat) != hu);
            }
            if c < c2 {
                assert(om.next_iter(hu, c as nat) != hu);
            }
        }
        assert(b2 == b) by {
            if b2 < b {
                assert(om.vtx(om.next_iter(hu, b2 as nat)) != vv);
            }
            if b < b2 {
                assert(om.vtx(om.next_iter(hu, b as nat)) != vv);
            }
        }
    }
    assert(m2.par(om.nh()) == pp);
    assert(m2.par(om.nh() + 1) == om.np());
    assert(m2.patch(om.nh() + 1) is None);
    assert(m2.patch(om.nh()) == om.patch(hu));
    assert(trim_success(om, m2, uu, vv, pp));
}

impl Modifiable2DMesh {
    /// Whether some half-edge already runs from `u` to `v`.
    fn edge_exists_check(&self, u: VertexIndex, v: VertexIndex) -> (r: bool)
        requires
            self.0.check_valid(),
        ensures
            r == edge_exists(self.0, u.0 as int, v.0 as int),
    {
        let nh = self.0.he_to_vertex.len();
        for i in 0..nh
            invariant
                self.0.check_valid(),
                nh == self.0.nh(),
                forall|h: int|
                    0 <= h < i ==> !(#[trigger] self.0.vtx(h) == u.0 && self.0.vtx(self.0.twn(h))
                        == v.0),
        {
            proof {
                assert(self.0.twn(i as int) < self.0.nh());
            }
            if self.0.he_to_vertex[i].0 == u.0 && self.0.he_to_vertex[self.0.he_to_twin[i].0].0
                == v.0 {
                proof {
                    assert(self.0.vtx(i as int) == u.0);
                    assert(self.0.vtx(self.0.twn(i as int)) == v.0);
                    assert(edge_exists(self.0, u.0 as int, v.0 as int));
                }
                return true;
            }
        }
        false
    }

    /// The half-edge of least index that originates at `v` and belongs to
    /// `parent`, when there is one.
    fn find_he_at(&self, v: VertexIndex, parent: ParentIndex) -> (r: Option<HalfEdgeIndex>)
        requires
            self.0.check_valid(),
        ensures
            r is Some <==> has_he_at(self.0, v.0 as int, parent.0 as int),
            r matches Some(x) ==> least_he_at(self.0, v.0 as int, parent.0 as int, x.0 as int),
    {
        let nh = self.0.he_to_vertex.len();
        for i in 0..nh
            invariant
                self.0.check_valid(),
                nh == self.0.nh(),
                forall|h: int|
                    0 <= h < i ==> !(#[trigger] self.0.vtx(h) == v.0 && self.0.par(h)
                        == parent.0),
        {
            if self.0.he_to_vertex[i].0 == v.0 && self.0.he_to_parent[i].0.0 == parent.0 {
                proof {
                    assert(self.0.vtx(i as int) == v.0);
                    assert(self.0.par(i as int) == parent.0);
                    assert(has_he_at(self.0, v.0 as int, parent.0 as int));
                }
                return Some(HalfEdgeIndex(i));
            }
        }
        proof {
            assert(!has_he_at(self.0, v.0 as int, parent.0 as int));
        }
        None
    }

    /// Adds an edge between two vertices that both lie on the cycle of
    /// `parent`, splitting its region in two: the stretch of the old cycle
    /// from the first vertex up to the second stays with `parent`, the rest
    /// is re-parented to a new `Cell` appended behind the existing parents,
    /// and the two new half-edges (the last two indices, a twin pair from
    /// the second vertex back to the first and its reverse) close the two
    /// cycles.
    ///
    /// The straight segment between the two vertices must not cross any
    /// existing half-edge; that geometric premise is the caller's burden
    /// and is not checked here.
    ///
    /// Only half-edges of `parent` can change parent, no patch label and no
    /// vertex moves, and `next`/`prev` links are either kept or redirected
    /// onto the two new half-edges.
    #[verifier::rlimit(100)]
    #[verifier::spinoff_prover]
    pub fn trimming(
        &mut self,
        vertices: (VertexIndex, VertexIndex),
        parent: ParentIndex,
    ) -> (r: Result<ParentIndex, MeshError>)
        requires
            old(self).0.check_valid(),
            parents_complete(old(self).0),
            old(self).0.nh() + 2 <= usize::MAX,
            old(self).0.np() + 1 <= usize::MAX,
        ensures
            final(self).0.wf(),
            vertices.0.0 == vertices.1.0 ==> r == Err::<ParentIndex, MeshError>(
                MeshError::WrongMeshInitialisation,
            ) && final(self).0 == old(self).0,
            vertices.0.0 != vertices.1.0 && vertices.0.0 >= old(self).0.nv() ==> r == Err::<
                ParentIndex,
                MeshError,
            >(
                MeshError::VertexIndexOutOfBound {
                    got: vertices.0,
                    len: old(self).0.nv() as usize,
                },
            ) && final(self).0 == old(self).0,
            vertices.0.0 != vertices.1.0 && vertices.0.0 < old(self).0.nv() && vertices.1.0
                >= old(self).0.nv() ==> r == Err::<
                ParentIndex,
                MeshError,
            >(
                MeshError::VertexIndexOutOfBound {
                    got: vertices.1,
                    len: old(self).0.nv() as usize,
                },
            ) && final(self).0 == old(self).0,
            vertices.0.0 != vertices.1.0 && vertices.0.0 < old(self).0.nv() && vertices.1.0
                < old(self).0.nv() && edge_exists(
                old(self).0,
                vertices.0.0 as int,
                vertices.1.0 as int,
            ) ==> r == Err::<ParentIndex, MeshError>(MeshError::AlreadyExists) && final(self).0
                == old(self).0,
            vertices.0.0 != vertices.1.0 && vertices.0.0 < old(self).0.nv() && vertices.1.0
                < old(self).0.nv() && !edge_exists(
                old(self).0,
                vertices.0.0 as int,
                vertices.1.0 as int,
            ) && !has_he_at(old(self).0, vertices.0.0 as int, parent.0 as int) ==> r == Err::<
                ParentIndex,
                MeshError,
            >(MeshError::ParentDoesNotContainVertex { vertex: vertices.0, parent })
                && final(self).0 == old(self).0,
            vertices.0.0 != vertices.1.0 && vertices.0.0 < old(self).0.nv() && vertices.1.0
                < old(self).0.nv() && !edge_exists(
                old(self).0,
                vertices.0.0 as int,
                vertices.1.0 as int,
            ) && has_he_at(old(self).0, vertices.0.0 as int, parent.0 as int) && !has_he_at(
                old(self).0,
                vertices.1.0 as int,
                parent.0 as int,
            ) ==> r == Err::<ParentIndex, MeshError>(
                MeshError::ParentDoesNotContainVertex { vertex: vertices.1, parent },
            ) && final(self).0 == old(self).0,
            vertices.0.0 != vertices.1.0 && vertices.0.0 < old(self).0.nv() && vertices.1.0
                < old(self).0.nv() && !edge_exists(
                old(self).0,
                vertices.0.0 as int,
                vertices.1.0 as int,
            ) && has_he_at(old(self).0, vertices.0.0 as int, parent.0 as int) && has_he_at(
                old(self).0,
                vertices.1.0 as int,
                parent.0 as int,
            ) ==> r == Ok::<ParentIndex, MeshError>(ParentIndex(old(self).0.np() as usize))
                && trim_success(
                old(self).0,
                final(self).0,
                vertices.0.0 as int,
                vertices.1.0 as int,
                parent.0 as int,
            ),
    {
        let ghost om = old(self).0;
        if vertices.0.0 == vertices.1.0 {
            return Err(MeshError::WrongMeshInitialisation);
        }
        let num_v = self.0.vertices.len();
        if vertices.0.0 >= num_v {
            return Err(MeshError::VertexIndexOutOfBound { got: vertices.0, len: num_v });
        }
        if vertices.1.0 >= num_v {
            return Err(MeshError::VertexIndexOutOfBound { got: vertices.1, len: num_v });
        }

        if self.edge_exists_check(vertices.0, vertices.1) {
            return Err(MeshError::AlreadyExists);
        }
        let he_u = match self.find_he_at(vertices.0, parent) {
            None => {
                return Err(MeshError::ParentDoesNotContainVertex { vertex: vertices.0, parent });
            },
            Some(x) => x,
        };
        if self.find_he_at(vertices.1, parent).is_none() {
            return Err(MeshError::ParentDoesNotContainVertex { vertex: vertices.1, parent });
        }

        // Ghost groundwork.  The walks below follow the closed orbit of
        // `he_u`, all of whose half-edges carry `parent`; `c` is the orbit
        // length and `b` the first position whose origin is the second
        // vertex.
        let ghost hu = he_u.0 as int;
        let ghost uu = vertices.0.0 as int;
        let ghost vv = vertices.1.0 as int;
        let ghost pp = parent.0 as int;
        let ghost c = choose|k: int|
            1 <= k <= om.nh() && #[trigger] om.next_iter(hu, k as nat) == hu && (forall|j: int|
                1 <= j < k ==> #[trigger] om.next_iter(hu, j as nat) != hu);
        proof {
            lemma_least_closure(om, hu);
            assert(1 <= c <= om.nh() && om.next_iter(hu, c as nat) == hu && (forall|j: int|
                1 <= j < c ==> #[trigger] om.next_iter(hu, j as nat) != hu));
            lemma_trim_orbit(om, hu, uu, vv, pp, c);
        }
        let ghost b = choose|k: int|
            1 <= k <= c - 1 && om.vtx(#[trigger] om.next_iter(hu, k as nat)) == vv && (forall|
                j: int,
            |
                1 <= j < k ==> om.vtx(#[trigger] om.next_iter(hu, j as nat)) != vv);

        // splice in the new twin pair
        let new_he = self.0.he_to_vertex.len();
        self.0.he_to_vertex.push(vertices.1);
        self.0.he_to_vertex.push(vertices.0);
        self.0.he_to_twin.push(HalfEdgeIndex(new_he + 1));
        self.0.he_to_twin.push(HalfEdgeIndex(new_he));
        let new_cell = self.0.parents.len();
        self.0.parents.push(Parent::Cell);
        let patch_u = self.0.he_to_parent[he_u.0].1;
        self.0.he_to_parent.push((parent, patch_u));
        self.0.he_to_parent.push((ParentIndex(new_cell), None));
        self.0.he_to_next_he.push(he_u);
        self.0.he_to_next_he.push(HalfEdgeIndex(usize::MAX));
        self.0.he_to_prev_he.push(HalfEdgeIndex(usize::MAX));
        let prev_he_u = self.0.he_to_prev_he[he_u.0];
        self.0.he_to_next_he.set(prev_he_u.0, HalfEdgeIndex(new_he + 1));
        self.0.he_to_prev_he.push(prev_he_u);
        self.0.he_to_prev_he.set(he_u.0, HalfEdgeIndex(new_he));

        // first walk: re-assert `parent` along the kept stretch, up to the
        // first half-edge whose origin is the second vertex
        let mut current = he_u;
        let ghost mut pos: int = 0;
        while self.0.he_to_vertex[current.0].0 != vertices.1.0
            invariant
                om.check_valid(),
                uu == vertices.0.0 && vv == vertices.1.0 && pp == parent.0 && hu == he_u.0,
                uu != vv,
                new_he == om.nh(),
                new_cell == om.np(),
                om.nh() + 2 <= usize::MAX,
                0 <= hu < om.nh(),
                om.vtx(hu) == uu,
                om.par(hu) == pp,
                pp < om.np(),
                patch_u == om.patch(hu),
                1 <= c <= om.nh(),
                om.next_iter(hu, c as nat) == hu,
                1 <= b <= c - 1,
                om.vtx(om.next_iter(hu, b as nat)) == vv,
                forall|j: int| 1 <= j < b ==> om.vtx(#[trigger] om.next_iter(hu, j as nat)) != vv,
                forall|i: int, j: int|
                    0 <= i < j <= c - 1 ==> #[trigger] om.next_iter(hu, i as nat)
                        != #[trigger] om.next_iter(hu, j as nat),
                forall|j: int|
                    0 <= j <= c - 1 ==> om.par(#[trigger] om.next_iter(hu, j as nat)) == pp && 0
                        <= om.next_iter(hu, j as nat) < om.nh(),
                om.prv(hu) == om.next_iter(hu, (c - 1) as nat),
                prev_he_u.0 == om.prv(hu),
                0 <= pos <= b,
                current.0 == om.next_iter(hu, pos as nat),
                current.0 < om.nh(),
                self.0.vertices@ == om.vertices@,
                self.0.boundaries@ == om.boundaries@,
                self.0.parents@ == om.parents@.push(Parent::Cell),
                self.0.parent_to_first_he@ == om.parent_to_first_he@,
                self.0.he_to_vertex@ == om.he_to_vertex@.push(vertices.1).push(vertices.0),
                self.0.he_to_twin@ == om.he_to_twin@.push(HalfEdgeIndex((new_he + 1) as usize)).push(
                    HalfEdgeIndex(new_he as usize),
                ),
                self.0.he_to_next_he@ == om.he_to_next_he@.push(he_u).push(
                    HalfEdgeIndex(usize::MAX),
                ).update(om.prv(hu), HalfEdgeIndex((new_he + 1) as usize)),
                self.0.he_to_prev_he@ == om.he_to_prev_he@.push(HalfEdgeIndex(usize::MAX)).push(
                    prev_he_u,
                ).update(hu, HalfEdgeIndex(new_he as usize)),
                self.0.he_to_parent@ == om.he_to_parent@.push((parent, om.patch(hu))).push(
                    (ParentIndex(new_cell as usize), None::<BoundaryPatchIndex>),
                ),
            decreases b - pos,
        {
            proof {
                if pos == b {
                    assert(self.0.he_to_vertex@[current.0 as int]
                        == om.he_to_vertex@[current.0 as int]);
                    assert(om.vtx(om.next_iter(hu, b as nat)) == vv);
                    assert(false);
                }
            }
            let ghost before = self.0.he_to_parent@;
            let cur_parent = self.0.he_to_parent[current.0];
            self.0.he_to_parent.set(current.0, (parent, cur_parent.1));
            proof {
                assert(om.par(om.next_iter(hu, pos as nat)) == pp);
                assert(before[current.0 as int].0.0 == parent.0);
                assert(before[current.0 as int] == (parent, cur_parent.1));
                assert(self.0.he_to_parent@ =~= before);
                assert(current.0 != om.prv(hu)) by {
                    if pos < c - 1 {
                        assert(om.next_iter(hu, pos as nat) != om.next_iter(hu, (c - 1) as nat));
                    }
                }
                assert(self.0.he_to_next_he@[current.0 as int]
                    == om.he_to_next_he@[current.0 as int]);
            }
            current = self.0.he_to_next_he[current.0];
            proof {
                pos = pos + 1;
                lemma_next_iter_in_range(om, hu, pos as nat);
            }
        }
        proof {
            assert(pos == b) by {
                if pos < b {
                    assert(self.0.he_to_vertex@[current.0 as int]
                        == om.he_to_vertex@[current.0 as int]);
                    if pos == 0 {
                        assert(om.vtx(hu) == uu);
                    } else {
                        assert(om.vtx(om.next_iter(hu, pos as nat)) != vv);
                    }
                }
            }
        }
        let ghost ek = current;

        // close the two cycles through the new pair
        let prev_ek = self.0.he_to_prev_he[current.0];
        proof {
            assert(current.0 != hu) by {
                assert(om.vtx(om.next_iter(hu, b as nat)) == vv);
            }
            assert(prev_ek.0 == om.prv(current.0 as int));
            assert(om.prv(current.0 as int) < om.nh());
            lemma_next_prev_inverse(om, current.0 as int);
            assert(om.next_iter(hu, b as nat) == om.nxt(om.next_iter(hu, (b - 1) as nat)));
            assert(om.prv(om.nxt(om.next_iter(hu, (b - 1) as nat))) == om.next_iter(
                hu,
                (b - 1) as nat,
            ));
            assert(prev_ek.0 == om.next_iter(hu, (b - 1) as nat));
        }
        self.0.he_to_prev_he.set(new_he, prev_ek);
        self.0.he_to_next_he.set(new_he + 1, current);
        self.0.he_to_next_he.set(prev_ek.0, HalfEdgeIndex(new_he));
        self.0.he_to_prev_he.set(current.0, HalfEdgeIndex(new_he + 1));

        let ghost g = choose|k: int|
            b < k <= c && om.vtx(#[trigger] om.next_iter(hu, k as nat)) == uu && (forall|j: int|
                b < j < k ==> om.vtx(#[trigger] om.next_iter(hu, j as nat)) != uu);
        proof {
            assert(om.vtx(om.next_iter(hu, c as nat)) == uu);
            lemma_least_u_after(om, hu, uu, b, c);
            assert(b < g <= c && om.vtx(om.next_iter(hu, g as nat)) == uu && (forall|j: int|
                b < j < g ==> om.vtx(#[trigger] om.next_iter(hu, j as nat)) != uu));
            assert forall|j: int|
                0 <= j <= c - 1 implies self.0.he_to_parent@[#[trigger] om.next_iter(
                hu,
                j as nat,
            )].0.0 == pp by {
                assert(0 <= om.next_iter(hu, j as nat) < om.nh());
                assert(self.0.he_to_parent@[om.next_iter(hu, j as nat)] == om.he_to_parent@[
                    om.next_iter(hu, j as nat)]);
                assert(om.par(om.next_iter(hu, j as nat)) == pp);
            }
        }

        // second walk: re-parent the split-off stretch to the new cell
        let ghost mut pos2: int = b;
        while self.0.he_to_vertex[current.0].0 != vertices.0.0
            invariant
                om.check_valid(),
                uu == vertices.0.0 && vv == vertices.1.0 && pp == parent.0 && hu == he_u.0,
                uu != vv,
                new_he == om.nh(),
                new_cell == om.np(),
                om.nh() + 2 <= usize::MAX,
                0 <= hu < om.nh(),
                om.vtx(hu) == uu,
                1 <= c <= om.nh(),
                om.next_iter(hu, c as nat) == hu,
                1 <= b <= c - 1,
                b < g <= c,
                om.vtx(om.next_iter(hu, b as nat)) == vv,
                om.vtx(om.next_iter(hu, g as nat)) == uu,
                forall|j: int| b < j < g ==> om.vtx(#[trigger] om.next_iter(hu, j as nat)) != uu,
                forall|i: int, j: int|
                    0 <= i < j <= c - 1 ==> #[trigger] om.next_iter(hu, i as nat)
                        != #[trigger] om.next_iter(hu, j as nat),
                forall|j: int|
                    0 <= j <= c - 1 ==> om.par(#[trigger] om.next_iter(hu, j as nat)) == pp && 0
                        <= om.next_iter(hu, j as nat) < om.nh(),
                om.prv(hu) == om.next_iter(hu, (c - 1) as nat),
                prev_he_u.0 == om.prv(hu),
                ek.0 == om.next_iter(hu, b as nat),
                prev_ek.0 == om.next_iter(hu, (b - 1) as nat),
                b <= pos2 <= g,
                pos2 < g ==> current.0 == om.next_iter(hu, pos2 as nat) && current.0 < om.nh(),
                pos2 == g ==> (g < c && current.0 == om.next_iter(hu, g as nat) && current.0
                    < om.nh()) || (g == c && current.0 == new_he + 1),
                self.0.vertices@ == om.vertices@,
                self.0.boundaries@ == om.boundaries@,
                self.0.parents@ == om.parents@.push(Parent::Cell),
                self.0.parent_to_first_he@ == om.parent_to_first_he@,
                self.0.he_to_vertex@ == om.he_to_vertex@.push(vertices.1).push(vertices.0),
                self.0.he_to_twin@ == om.he_to_twin@.push(HalfEdgeIndex((new_he + 1) as usize)).push(
                    HalfEdgeIndex(new_he as usize),
                ),
                self.0.he_to_next_he@ == om.he_to_next_he@.push(he_u).push(
                    HalfEdgeIndex(usize::MAX),
                ).update(om.prv(hu), HalfEdgeIndex((new_he + 1) as usize)).update(new_he + 1, ek).update(
                    om.next_iter(hu, (b - 1) as nat),
                    HalfEdgeIndex(new_he as usize),
                ),
                self.0.he_to_prev_he@ == om.he_to_prev_he@.push(HalfEdgeIndex(usize::MAX)).push(
                    prev_he_u,
                ).update(hu, HalfEdgeIndex(new_he as usize)).update(new_he as int, prev_ek).update(
                    ek.0 as int,
                    HalfEdgeIndex((new_he + 1) as usize),
                ),
                self.0.he_to_parent@.len() == om.nh() + 2,
                self.0.he_to_parent@[om.nh()] == (parent, om.patch(hu)),
                self.0.he_to_parent@[om.nh() + 1] == (
                    ParentIndex(new_cell as usize),
                    None::<BoundaryPatchIndex>,
                ),
                forall|h: int|
                    0 <= h < om.nh() ==> (#[trigger] self.0.he_to_parent@[h]).1
                        == om.he_to_parent@[h].1,
                forall|h: int|
                    0 <= h < om.nh() && om.par(h) != pp ==> (#[trigger] self.0.he_to_parent@[h]).0.0
                        == om.he_to_parent@[h].0.0,
                forall|h: int|
                    0 <= h < om.nh() ==> (#[trigger] self.0.he_to_parent@[h]).0.0
                        == om.he_to_parent@[h].0.0 || self.0.he_to_parent@[h].0.0 == new_cell,
                forall|j: int|
                    0 <= j < b ==> self.0.he_to_parent@[#[trigger] om.next_iter(
                        hu,
                        j as nat,
                    )].0.0 == pp,
                forall|j: int|
                    b <= j < pos2 ==> self.0.he_to_parent@[#[trigger] om.next_iter(
                        hu,
                        j as nat,
                    )].0.0 == new_cell,
                forall|j: int|
                    pos2 <= j <= c - 1 ==> self.0.he_to_parent@[#[trigger] om.next_iter(
                        hu,
                        j as nat,
                    )].0.0 == pp,
            decreases g - pos2,
        {
            proof {
                if pos2 == g {
                    if g < c {
                        assert(self.0.he_to_vertex@[current.0 as int]
                            == om.he_to_vertex@[current.0 as int]);
                        assert(om.vtx(om.next_iter(hu, g as nat)) == uu);
                    } else {
                        assert(self.0.he_to_vertex@[new_he + 1] == vertices.0);
                    }
                    assert(false);
                }
            }
            let ghost before = self.0.he_to_parent@;
            let cur_parent = self.0.he_to_parent[current.0];
            self.0.he_to_parent.set(current.0, (ParentIndex(new_cell), cur_parent.1));
            proof {
                assert(om.par(om.next_iter(hu, pos2 as nat)) == pp);
                assert forall|h: int|
                    0 <= h < om.nh() implies (#[trigger] self.0.he_to_parent@[h]).1
                    == om.he_to_parent@[h].1 by {
                    if h != current.0 as int {
                        assert(self.0.he_to_parent@[h] == before[h]);
                    }
                }
                assert forall|h: int|
                    0 <= h < om.nh() && om.par(h) != pp implies (
                #[trigger] self.0.he_to_parent@[h]).0.0 == om.he_to_parent@[h].0.0 by {
                    if h != current.0 as int {
                        assert(self.0.he_to_parent@[h] == before[h]);
                    } else {
                        assert(om.par(h) == pp);
                    }
                }
                assert forall|h: int|
                    0 <= h < om.nh() implies (#[trigger] self.0.he_to_parent@[h]).0.0
                    == om.he_to_parent@[h].0.0 || self.0.he_to_parent@[h].0.0 == new_cell by {
                    if h != current.0 as int {
                        assert(self.0.he_to_parent@[h] == before[h]);
                    }
                }
                assert(current.0 != om.next_iter(hu, (b - 1) as nat)) by {
                    if pos2 != b - 1 {
                        assert(om.next_iter(hu, pos2 as nat) != om.next_iter(hu, (b - 1) as nat));
                    }
                }
                assert forall|j: int|
                    0 <= j < b implies self.0.he_to_parent@[#[trigger] om.next_iter(
                    hu,
                    j as nat,
                )].0.0 == pp by {
                    assert(om.next_iter(hu, j as nat) != om.next_iter(hu, pos2 as nat));
                    assert(self.0.he_to_parent@[om.next_iter(hu, j as nat)] == before[om.next_iter(
                        hu,
                        j as nat,
                    )]);
                }
                assert forall|j: int|
                    b <= j <= pos2 implies self.0.he_to_parent@[#[trigger] om.next_iter(
                    hu,
                    j as nat,
                )].0.0 == new_cell by {
                    if j < pos2 {
                        assert(om.next_iter(hu, j as nat) != om.next_iter(hu, pos2 as nat));
                        assert(self.0.he_to_parent@[om.next_iter(hu, j as nat)]
                            == before[om.next_iter(hu, j as nat)]);
                    }
                }
                assert forall|j: int|
                    pos2 + 1 <= j <= c - 1 implies self.0.he_to_parent@[#[trigger] om.next_iter(
                    hu,
                    j as nat,
                )].0.0 == pp by {
                    assert(om.next_iter(hu, j as nat) != om.next_iter(hu, pos2 as nat));
                    assert(self.0.he_to_parent@[om.next_iter(hu, j as nat)] == before[om.next_iter(
                        hu,
                        j as nat,
                    )]);
                }
            }
            if current.0 == prev_he_u.0 {
                proof {
                    assert(pos2 == c - 1) by {
                        if pos2 < c - 1 {
                            assert(om.next_iter(hu, pos2 as nat) != om.next_iter(
                                hu,
                                (c - 1) as nat,
                            ));
                        }
                    }
                    assert(g == c) by {
                        if g < c {
                            assert(pos2 < g);
                        }
                    }
                    assert(om.prv(hu) != om.next_iter(hu, (b - 1) as nat)) by {
                        assert(om.next_iter(hu, (c - 1) as nat) != om.next_iter(
                            hu,
                            (b - 1) as nat,
                        ));
                    }
                }
                current = self.0.he_to_next_he[current.0];
                proof {
                    assert(current.0 == new_he + 1);
                    pos2 = g;
                }
            } else {
                proof {
                    assert(current.0 != om.prv(hu));
                    assert(current.0 != new_he + 1);
                    assert(current.0 != om.next_iter(hu, (b - 1) as nat));
                    assert(self.0.he_to_next_he@[current.0 as int]
                        == om.he_to_next_he@[current.0 as int]);
                }
                current = self.0.he_to_next_he[current.0];
                proof {
                    pos2 = pos2 + 1;
                    lemma_next_iter_in_range(om, hu, pos2 as nat);
                    if pos2 == g && g == c {
                        assert(current.0 == om.next_iter(hu, c as nat));
                        assert(om.vtx(hu) == uu);
                        assert(false);
                    }
                }
            }
        }

        proof {
            assert(pos2 == g) by {
                if pos2 < g {
                    assert(self.0.he_to_vertex@[current.0 as int]
                        == om.he_to_vertex@[current.0 as int]);
                    if pos2 == b {
                        assert(om.vtx(om.next_iter(hu, b as nat)) == vv);
                    } else {
                        assert(om.vtx(om.next_iter(hu, pos2 as nat)) != uu);
                    }
                }
            }
            assert(parent.0 < self.0.parent_to_first_he@.len());
        }
        self.0.parent_to_first_he.set(parent.0, HalfEdgeIndex(new_he));
        self.0.parent_to_first_he.push(HalfEdgeIndex(new_he + 1));

        proof {
            assert forall|p2: int|
                0 <= p2 < self.0.np() implies 0 <= #[trigger] self.0.first_he(p2)
                < self.0.nh() by {
                if p2 < om.np() && p2 != pp {
                    assert(self.0.parent_to_first_he@[p2] == om.parent_to_first_he@[p2]);
                    assert(0 <= om.first_he(p2) < om.nh());
                }
            }
            assert(prev_he_u == HalfEdgeIndex(om.prv(hu) as usize));
            assert(ek == HalfEdgeIndex(om.next_iter(hu, b as nat) as usize)) by {
                lemma_next_iter_in_range(om, hu, b as nat);
            }
            assert(prev_ek == HalfEdgeIndex(om.next_iter(hu, (b - 1) as nat) as usize)) by {
                lemma_next_iter_in_range(om, hu, (b - 1) as nat);
            }
            lemma_establish_trim_success(om, self.0, uu, vv, pp, hu, b, c, g);
        }

        Ok(ParentIndex(new_cell))
    }
}

} // verus!
