use vstd::prelude::*;
use vstd::set_lib::{lemma_int_range, lemma_len_subset, set_int_range};
use crate::mesh::half_edge::Base2DMesh;

verus! {

/// Iterating `next` from a real half-edge stays among the half-edges.
pub proof fn lemma_next_iter_in_range(m: Base2DMesh, start: int, k: nat)
    requires
        m.next_in_range(),
        0 <= start < m.nh(),
    ensures
        0 <= m.next_iter(start, k) < m.nh(),
    decreases k,
{
    if k > 0 {
        lemma_next_iter_in_range(m, start, (k - 1) as nat);
    }
}

/// Splitting an iteration count: `j + k` steps are `j` steps, then `k` steps.
pub proof fn lemma_next_iter_add(m: Base2DMesh, start: int, j: nat, k: nat)
    ensures
        m.next_iter(start, j + k) == m.next_iter(m.next_iter(start, j), k),
    decreases k,
{
    if k > 0 {
        lemma_next_iter_add(m, start, j, (k - 1) as nat);
    }
}

/// While the orbit of `start` has not returned to `start`, its points are
/// pairwise distinct (`prev` undoing `next` makes `next` injective).
pub proof fn lemma_orbit_no_return_distinct(m: Base2DMesh, start: int, k: int)
    requires
        m.next_in_range(),
        m.prev_in_range(),
        m.next_prev_ok(),
        0 <= start < m.nh(),
        0 <= k <= m.nh(),
        forall|j: int| 1 <= j <= k ==> #[trigger] m.next_iter(start, j as nat) != start,
    ensures
        forall|i: int, j: int|
            0 <= i < j <= k ==> #[trigger] m.next_iter(start, i as nat) != #[trigger] m.next_iter(
                start,
                j as nat,
            ),
    decreases k,
{
    if k > 0 {
        lemma_orbit_no_return_distinct(m, start, k - 1);
        assert forall|i: int, j: int| 0 <= i < j <= k implies #[trigger] m.next_iter(
            start,
            i as nat,
        ) != #[trigger] m.next_iter(start, j as nat) by {
            if j == k && m.next_iter(start, i as nat) == m.next_iter(start, j as nat) {
                if i == 0 {
                    assert(m.next_iter(start, k as nat) != start);
                    assert(false);
                } else {
                    let a = m.next_iter(start, (i - 1) as nat);
                    let b = m.next_iter(start, (k - 1) as nat);
                    lemma_next_iter_in_range(m, start, (i - 1) as nat);
                    lemma_next_iter_in_range(m, start, (k - 1) as nat);
                    assert(m.next_iter(start, i as nat) == m.nxt(a));
                    assert(m.next_iter(start, k as nat) == m.nxt(b));
                    assert(m.prv(m.nxt(a)) == a);
                    assert(m.prv(m.nxt(b)) == b);
                    assert(a == b);
                    assert(false);
                }
            }
        }
    }
}

/// The cycle through `next` starting at any half-edge closes within `nh`
/// steps, as soon as every half-edge's `prev` undoes its `next`.  This is
/// the guarantee behind every cycle walk of the crate: `next` is a
/// permutation of the half-edges, so each orbit is a closed cycle.
pub proof fn lemma_cycle_closes(m: Base2DMesh, start: int)
    requires
        m.next_in_range(),
        m.prev_in_range(),
        m.next_prev_ok(),
        0 <= start < m.nh(),
    ensures
        m.cycle_closes(start),
{
    let n = m.nh();
    if forall|j: int| 1 <= j <= n ==> #[trigger] m.next_iter(start, j as nat) != start {
        lemma_orbit_no_return_distinct(m, start, n);
        let s = Seq::new((n + 1) as nat, |k: int| m.next_iter(start, k as nat));
        assert(s.no_duplicates());
        s.unique_seq_to_set();
        assert forall|x: int| s.to_set().contains(x) implies set_int_range(0, n).contains(x) by {
            let k = choose|k: int| 0 <= k < s.len() && s[k] == x;
            lemma_next_iter_in_range(m, start, k as nat);
        }
        lemma_int_range(0, n);
        lemma_len_subset(s.to_set(), set_int_range(0, n));
        assert(false);
    }
}

/// Once the orbit closes after `c` steps, any iteration count can be
/// reduced modulo `c`.
pub proof fn lemma_next_iter_reduce(m: Base2DMesh, start: int, c: int, k: int)
    requires
        1 <= c,
        0 <= k,
        m.next_iter(start, c as nat) == start,
    ensures
        m.next_iter(start, k as nat) == m.next_iter(start, (k % c) as nat),
    decreases k,
{
    if k >= c {
        lemma_next_iter_add(m, start, c as nat, (k - c) as nat);
        assert(m.next_iter(start, k as nat) == m.next_iter(start, (k - c) as nat));
        lemma_next_iter_reduce(m, start, c, k - c);
        assert((k - c) % c == k % c) by {
            vstd::arithmetic::div_mod::lemma_mod_sub_multiples_vanish(k, c);
        }
    } else {
        assert(k % c == k) by {
            vstd::arithmetic::div_mod::lemma_small_mod(k as nat, c as nat);
        }
    }
}


/// On a mesh where every orbit closes, `next` also undoes `prev`.
pub proof fn lemma_next_prev_inverse(m: Base2DMesh, h: int)
    requires
        m.next_in_range(),
        m.prev_in_range(),
        m.next_prev_ok(),
        0 <= h < m.nh(),
    ensures
        m.nxt(m.prv(h)) == h,
{
    lemma_cycle_closes(m, h);
    let c = choose|k: int| 1 <= k <= m.nh() && #[trigger] m.next_iter(h, k as nat) == h;
    let w = m.next_iter(h, (c - 1) as nat);
    lemma_next_iter_in_range(m, h, (c - 1) as nat);
    assert(m.next_iter(h, c as nat) == m.nxt(w));
    assert(m.prv(m.nxt(w)) == w);
}

/// There is a first position (at or before any given one) whose origin
/// vertex is `v` along the orbit of `start`.
pub proof fn lemma_least_origin_position(m: Base2DMesh, start: int, v: int, d: int)
    requires
        1 <= d,
        m.vtx(m.next_iter(start, d as nat)) == v,
    ensures
        exists|b: int|
            1 <= b <= d && m.vtx(#[trigger] m.next_iter(start, b as nat)) == v && (forall|j: int|
                1 <= j < b ==> m.vtx(#[trigger] m.next_iter(start, j as nat)) != v),
    decreases d,
{
    if exists|j: int| 1 <= j < d && m.vtx(#[trigger] m.next_iter(start, j as nat)) == v {
        let j0 = choose|j: int|
            1 <= j < d && m.vtx(#[trigger] m.next_iter(start, j as nat)) == v;
        lemma_least_origin_position(m, start, v, j0);
    } else {
        assert(1 <= d <= d && m.vtx(m.next_iter(start, d as nat)) == v && (forall|j: int|
            1 <= j < d ==> m.vtx(#[trigger] m.next_iter(start, j as nat)) != v));
    }
}


/// A minimal closure length: the orbit of `start` first returns to `start`
/// after exactly `c` steps for some `c`, and not before.
pub proof fn lemma_least_closure(m: Base2DMesh, start: int)
    requires
        m.next_in_range(),
        m.prev_in_range(),
        m.next_prev_ok(),
        0 <= start < m.nh(),
    ensures
        exists|c: int|
            1 <= c <= m.nh() && #[trigger] m.next_iter(start, c as nat) == start && (forall|
                j: int,
            |
                1 <= j < c ==> #[trigger] m.next_iter(start, j as nat) != start),
{
    lemma_cycle_closes(m, start);
    let c0 = choose|k: int| 1 <= k <= m.nh() && #[trigger] m.next_iter(start, k as nat) == start;
    lemma_least_closure_below(m, start, c0);
}

proof fn lemma_least_closure_below(m: Base2DMesh, start: int, d: int)
    requires
        1 <= d <= m.nh(),
        m.next_iter(start, d as nat) == start,
    ensures
        exists|c: int|
            1 <= c <= m.nh() && #[trigger] m.next_iter(start, c as nat) == start && (forall|
                j: int,
            |
                1 <= j < c ==> #[trigger] m.next_iter(start, j as nat) != start),
    decreases d,
{
    if exists|j: int| 1 <= j < d && #[trigger] m.next_iter(start, j as nat) == start {
        let j0 = choose|j: int| 1 <= j < d && #[trigger] m.next_iter(start, j as nat) == start;
        lemma_least_closure_below(m, start, j0);
    } else {
        assert(1 <= d <= m.nh() && m.next_iter(start, d as nat) == start && (forall|j: int|
            1 <= j < d ==> #[trigger] m.next_iter(start, j as nat) != start));
    }
}

/// The parent is constant along `next` orbits on a checked and complete
/// mesh: the whole orbit of a half-edge stays inside its parent's cycle.
pub proof fn lemma_parent_along_orbit(m: Base2DMesh, h: int, k: nat)
    requires
        m.check_valid(),
        crate::mesh::half_edge::parents_complete(m),
        0 <= h < m.nh(),
    ensures
        m.par(m.next_iter(h, k)) == m.par(h),
        0 <= m.next_iter(h, k) < m.nh(),
    decreases k,
{
    lemma_next_iter_in_range(m, h, k);
    if k > 0 {
        lemma_parent_along_orbit(m, h, (k - 1) as nat);
        let w = m.next_iter(h, (k - 1) as nat);
        lemma_parent_step(m, w);
    }
}

proof fn lemma_parent_step(m: Base2DMesh, w: int)
    requires
        m.check_valid(),
        crate::mesh::half_edge::parents_complete(m),
        0 <= w < m.nh(),
    ensures
        m.par(m.nxt(w)) == m.par(w),
{
    let p = m.par(w);
    let f = m.first_he(p);
    assert(crate::mesh::half_edge::on_parent_cycle(m, w));
    let s = choose|k: int|
        0 <= k < m.nh() && #[trigger] m.next_iter(m.first_he(m.par(w)), k as nat) == w;
    lemma_next_iter_add(m, f, s as nat, 1);
    assert(m.next_iter(f, (s + 1) as nat) == m.nxt(w));
    if s + 1 < m.nh() {
        assert(m.par(m.next_iter(f, (s + 1) as nat)) == p);
    } else {
        lemma_cycle_closes(m, f);
        let cf = choose|k: int| 1 <= k <= m.nh() && #[trigger] m.next_iter(f, k as nat) == f;
        lemma_next_iter_reduce(m, f, cf, s + 1);
        vstd::arithmetic::div_mod::lemma_mod_bound(s + 1, cf);
        assert(m.par(m.next_iter(f, ((s + 1) % cf) as nat)) == p);
    }
}


/// If the parent is constant along `next` and every parent's first
/// half-edge names that parent, every parent cycle names its parent.
pub proof fn lemma_parent_cycle_from_step(m: Base2DMesh)
    requires
        m.wf(),
        m.next_in_range(),
        forall|h: int| 0 <= h < m.nh() ==> m.par(#[trigger] m.nxt(h)) == m.par(h),
        forall|p: int| 0 <= p < m.np() ==> m.par(#[trigger] m.first_he(p)) == p,
    ensures
        m.parent_cycle_ok(),
{
    assert forall|p: int, k: int|
        0 <= p < m.np() && 0 <= k < m.nh() implies #[trigger] m.par(
        m.next_iter(m.first_he(p), k as nat),
    ) == p by {
        lemma_parent_cycle_from_step_at(m, p, k as nat);
    }
}

proof fn lemma_parent_cycle_from_step_at(m: Base2DMesh, p: int, k: nat)
    requires
        m.wf(),
        m.next_in_range(),
        forall|h: int| 0 <= h < m.nh() ==> m.par(#[trigger] m.nxt(h)) == m.par(h),
        forall|q: int| 0 <= q < m.np() ==> m.par(#[trigger] m.first_he(q)) == q,
        0 <= p < m.np(),
    ensures
        m.par(m.next_iter(m.first_he(p), k)) == p,
    decreases k,
{
    if k > 0 {
        lemma_parent_cycle_from_step_at(m, p, (k - 1) as nat);
        lemma_next_iter_in_range(m, m.first_he(p), (k - 1) as nat);
    }
}

} // verus!
