//! Counting and collecting the candidate states of a rectangle that satisfy a predicate.
use vstd::prelude::*;

verus! {

/// The number of quantities `q` in `q_lo..q_hi` with `p(t, q)`.
pub open spec fn count_row(p: spec_fn(int, int) -> bool, t: int, q_lo: int, q_hi: int) -> nat
    decreases q_hi - q_lo,
{
    if q_hi <= q_lo {
        0
    } else {
        count_row(p, t, q_lo, q_hi - 1) + if p(t, q_hi - 1) {
            1nat
        } else {
            0nat
        }
    }
}

/// The number of states `(t, q)` in `id_lo..id_hi` times `q_lo..q_hi` with `p(t, q)`.
pub open spec fn count_points(
    p: spec_fn(int, int) -> bool,
    id_lo: int,
    id_hi: int,
    q_lo: int,
    q_hi: int,
) -> nat
    decreases id_hi - id_lo,
{
    if id_hi <= id_lo {
        0
    } else {
        count_points(p, id_lo, id_hi - 1, q_lo, q_hi) + count_row(p, id_hi - 1, q_lo, q_hi)
    }
}

/// The states `(t, q)` in `id_lo..id_hi` times `q_lo..q_hi` with `p(t, q)`.
pub open spec fn points_where(
    p: spec_fn(int, int) -> bool,
    id_lo: int,
    id_hi: int,
    q_lo: int,
    q_hi: int,
) -> Set<(usize, usize)> {
    Set::new(
        |k: (usize, usize)|
            id_lo <= k.0 < id_hi && q_lo <= k.1 < q_hi && p(k.0 as int, k.1 as int),
    )
}

/// Counting a row splits at any quantity.
pub proof fn lemma_count_row_split(p: spec_fn(int, int) -> bool, t: int, q_lo: int, q_mid: int, q_hi: int)
    requires
        q_lo <= q_mid <= q_hi,
    ensures
        count_row(p, t, q_lo, q_hi) == count_row(p, t, q_lo, q_mid) + count_row(p, t, q_mid, q_hi),
    decreases q_hi - q_mid,
{
    if q_hi > q_mid {
        lemma_count_row_split(p, t, q_lo, q_mid, q_hi - 1);
    }
}

/// Counting a rectangle splits at any id.
pub proof fn lemma_count_points_split(
    p: spec_fn(int, int) -> bool,
    id_lo: int,
    id_mid: int,
    id_hi: int,
    q_lo: int,
    q_hi: int,
)
    requires
        id_lo <= id_mid <= id_hi,
    ensures
        count_points(p, id_lo, id_hi, q_lo, q_hi) == count_points(p, id_lo, id_mid, q_lo, q_hi)
            + count_points(p, id_mid, id_hi, q_lo, q_hi),
    decreases id_hi - id_mid,
{
    if id_hi > id_mid {
        lemma_count_points_split(p, id_lo, id_mid, id_hi - 1, q_lo, q_hi);
    }
}

/// Two predicates that agree on a row count the same.
pub proof fn lemma_count_row_ext(
    p: spec_fn(int, int) -> bool,
    p2: spec_fn(int, int) -> bool,
    t: int,
    q_lo: int,
    q_hi: int,
)
    requires
        forall|q: int| q_lo <= q < q_hi ==> #[trigger] p(t, q) == p2(t, q),
    ensures
        count_row(p, t, q_lo, q_hi) == count_row(p2, t, q_lo, q_hi),
    decreases q_hi - q_lo,
{
    if q_hi > q_lo {
        lemma_count_row_ext(p, p2, t, q_lo, q_hi - 1);
    }
}

/// Two predicates that agree on a rectangle count the same.
pub proof fn lemma_count_points_ext(
    p: spec_fn(int, int) -> bool,
    p2: spec_fn(int, int) -> bool,
    id_lo: int,
    id_hi: int,
    q_lo: int,
    q_hi: int,
)
    requires
        forall|t: int, q: int| id_lo <= t < id_hi && q_lo <= q < q_hi ==> #[trigger] p(t, q) == p2(t, q),
    ensures
        count_points(p, id_lo, id_hi, q_lo, q_hi) == count_points(p2, id_lo, id_hi, q_lo, q_hi),
    decreases id_hi - id_lo,
{
    if id_hi > id_lo {
        lemma_count_points_ext(p, p2, id_lo, id_hi - 1, q_lo, q_hi);
        lemma_count_row_ext(p, p2, id_hi - 1, q_lo, q_hi);
    }
}

/// A row on which the predicate always holds counts its width.
pub proof fn lemma_count_row_all(p: spec_fn(int, int) -> bool, t: int, q_lo: int, q_hi: int)
    requires
        q_lo <= q_hi,
        forall|q: int| q_lo <= q < q_hi ==> #[trigger] p(t, q),
    ensures
        count_row(p, t, q_lo, q_hi) == q_hi - q_lo,
    decreases q_hi - q_lo,
{
    if q_hi > q_lo {
        lemma_count_row_all(p, t, q_lo, q_hi - 1);
    }
}

/// A row on which the predicate never holds counts zero.
pub proof fn lemma_count_row_none(p: spec_fn(int, int) -> bool, t: int, q_lo: int, q_hi: int)
    requires
        forall|q: int| q_lo <= q < q_hi ==> !#[trigger] p(t, q),
    ensures
        count_row(p, t, q_lo, q_hi) == 0,
    decreases q_hi - q_lo,
{
    if q_hi > q_lo {
        lemma_count_row_none(p, t, q_lo, q_hi - 1);
    }
}

/// A rectangle on which the predicate always holds counts its area.
pub proof fn lemma_count_points_all(
    p: spec_fn(int, int) -> bool,
    id_lo: int,
    id_hi: int,
    q_lo: int,
    q_hi: int,
)
    requires
        id_lo <= id_hi,
        q_lo <= q_hi,
        forall|t: int, q: int| id_lo <= t < id_hi && q_lo <= q < q_hi ==> #[trigger] p(t, q),
    ensures
        count_points(p, id_lo, id_hi, q_lo, q_hi) == (id_hi - id_lo) * (q_hi - q_lo),
    decreases id_hi - id_lo,
{
    if id_hi > id_lo {
        lemma_count_points_all(p, id_lo, id_hi - 1, q_lo, q_hi);
        lemma_count_row_all(p, id_hi - 1, q_lo, q_hi);
        assert((id_hi - 1 - id_lo) * (q_hi - q_lo) + (q_hi - q_lo) == (id_hi - id_lo) * (q_hi
            - q_lo)) by (nonlinear_arith);
    } else {
        assert((id_hi - id_lo) * (q_hi - q_lo) == 0) by (nonlinear_arith)
            requires
                id_hi == id_lo,
        ;
    }
}

/// A rectangle on which the predicate never holds counts zero.
pub proof fn lemma_count_points_none(
    p: spec_fn(int, int) -> bool,
    id_lo: int,
    id_hi: int,
    q_lo: int,
    q_hi: int,
)
    requires
        forall|t: int, q: int| id_lo <= t < id_hi && q_lo <= q < q_hi ==> !#[trigger] p(t, q),
    ensures
        count_points(p, id_lo, id_hi, q_lo, q_hi) == 0,
    decreases id_hi - id_lo,
{
    if id_hi > id_lo {
        lemma_count_points_none(p, id_lo, id_hi - 1, q_lo, q_hi);
        lemma_count_row_none(p, id_hi - 1, q_lo, q_hi);
    }
}

/// A rectangle counts at most its area.
pub proof fn lemma_count_points_bound(
    p: spec_fn(int, int) -> bool,
    id_lo: int,
    id_hi: int,
    q_lo: int,
    q_hi: int,
)
    requires
        id_lo <= id_hi,
        q_lo <= q_hi,
    ensures
        count_points(p, id_lo, id_hi, q_lo, q_hi) <= (id_hi - id_lo) * (q_hi - q_lo),
    decreases id_hi - id_lo,
{
    if id_hi > id_lo {
        lemma_count_points_bound(p, id_lo, id_hi - 1, q_lo, q_hi);
        lemma_count_row_bound(p, id_hi - 1, q_lo, q_hi);
        assert((id_hi - 1 - id_lo) * (q_hi - q_lo) + (q_hi - q_lo) == (id_hi - id_lo) * (q_hi
            - q_lo)) by (nonlinear_arith);
    } else {
        assert((id_hi - id_lo) * (q_hi - q_lo) == 0) by (nonlinear_arith)
            requires
                id_hi == id_lo,
        ;
    }
}

/// A row counts at most its width.
pub proof fn lemma_count_row_bound(p: spec_fn(int, int) -> bool, t: int, q_lo: int, q_hi: int)
    requires
        q_lo <= q_hi,
    ensures
        count_row(p, t, q_lo, q_hi) <= q_hi - q_lo,
    decreases q_hi - q_lo,
{
    if q_hi > q_lo {
        lemma_count_row_bound(p, t, q_lo, q_hi - 1);
    }
}

/// The states of one row satisfying the predicate are as many as the row counts.
pub proof fn lemma_row_set_len(p: spec_fn(int, int) -> bool, t: int, q_lo: int, q_hi: int)
    requires
        0 <= t <= usize::MAX,
        0 <= q_lo,
        q_hi <= usize::MAX + 1,
    ensures
        points_where(p, t, t + 1, q_lo, q_hi).finite(),
        points_where(p, t, t + 1, q_lo, q_hi).len() == count_row(p, t, q_lo, q_hi),
    decreases q_hi - q_lo,
{
    if q_hi <= q_lo {
        assert(points_where(p, t, t + 1, q_lo, q_hi) =~= Set::empty());
    } else {
        lemma_row_set_len(p, t, q_lo, q_hi - 1);
        let prev = points_where(p, t, t + 1, q_lo, q_hi - 1);
        let k = (t as usize, (q_hi - 1) as usize);
        if p(t, q_hi - 1) {
            assert(points_where(p, t, t + 1, q_lo, q_hi) =~= prev.insert(k));
            assert(!prev.contains(k));
        } else {
            assert(points_where(p, t, t + 1, q_lo, q_hi) =~= prev);
        }
    }
}

/// The states of a rectangle satisfying the predicate are as many as the rectangle counts.
pub proof fn lemma_points_where_len(
    p: spec_fn(int, int) -> bool,
    id_lo: int,
    id_hi: int,
    q_lo: int,
    q_hi: int,
)
    requires
        0 <= id_lo,
        id_hi <= usize::MAX + 1,
        0 <= q_lo,
        q_hi <= usize::MAX + 1,
    ensures
        points_where(p, id_lo, id_hi, q_lo, q_hi).finite(),
        points_where(p, id_lo, id_hi, q_lo, q_hi).len() == count_points(p, id_lo, id_hi, q_lo, q_hi),
    decreases id_hi - id_lo,
{
    if id_hi <= id_lo {
        assert(points_where(p, id_lo, id_hi, q_lo, q_hi) =~= Set::empty());
    } else {
        lemma_points_where_len(p, id_lo, id_hi - 1, q_lo, q_hi);
        lemma_row_set_len(p, id_hi - 1, q_lo, q_hi);
        let s1 = points_where(p, id_lo, id_hi - 1, q_lo, q_hi);
        let s2 = points_where(p, id_hi - 1, id_hi, q_lo, q_hi);
        assert(points_where(p, id_lo, id_hi, q_lo, q_hi) =~= s1 + s2);
        assert(s1.disjoint(s2));
        vstd::set_lib::lemma_set_disjoint_lens(s1, s2);
    }
}

/// A predicate and its negation count a row's width between them.
pub proof fn lemma_count_row_complement(
    p: spec_fn(int, int) -> bool,
    r: spec_fn(int, int) -> bool,
    t: int,
    q_lo: int,
    q_hi: int,
)
    requires
        q_lo <= q_hi,
        forall|q: int| q_lo <= q < q_hi ==> #[trigger] r(t, q) == !p(t, q),
    ensures
        count_row(p, t, q_lo, q_hi) + count_row(r, t, q_lo, q_hi) == q_hi - q_lo,
    decreases q_hi - q_lo,
{
    if q_hi > q_lo {
        lemma_count_row_complement(p, r, t, q_lo, q_hi - 1);
    }
}

/// A predicate and its negation count a rectangle's area between them.
pub proof fn lemma_count_points_complement(
    p: spec_fn(int, int) -> bool,
    r: spec_fn(int, int) -> bool,
    id_lo: int,
    id_hi: int,
    q_lo: int,
    q_hi: int,
)
    requires
        id_lo <= id_hi,
        q_lo <= q_hi,
        forall|t: int, q: int|
            id_lo <= t < id_hi && q_lo <= q < q_hi ==> #[trigger] r(t, q) == !p(t, q),
    ensures
        count_points(p, id_lo, id_hi, q_lo, q_hi) + count_points(r, id_lo, id_hi, q_lo, q_hi) == (
        id_hi - id_lo) * (q_hi - q_lo),
    decreases id_hi - id_lo,
{
    if id_hi > id_lo {
        lemma_count_points_complement(p, r, id_lo, id_hi - 1, q_lo, q_hi);
        lemma_count_row_complement(p, r, id_hi - 1, q_lo, q_hi);
        assert((id_hi - 1 - id_lo) * (q_hi - q_lo) + (q_hi - q_lo) == (id_hi - id_lo) * (q_hi
            - q_lo)) by (nonlinear_arith);
    } else {
        assert((id_hi - id_lo) * (q_hi - q_lo) == 0) by (nonlinear_arith)
            requires
                id_hi == id_lo,
        ;
    }
}

} // verus!
