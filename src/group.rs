use vstd::prelude::*;

verus! {

/// Position in the whole sequence of item `j` of group `k`, for groups of `n`.
pub open spec fn pos(k: int, n: int, j: int) -> int {
    k * n + j
}

/// Item `j` of group `k` is a clone of item `k * n + j` of `xs`, which lies
/// before position `bound`.
pub open spec fn groups_cover<T: Clone>(xs: Seq<T>, out: Seq<Vec<T>>, n: int, bound: int) -> bool {
    forall|k: int, j: int|
        0 <= k < out.len() && 0 <= j < out[k]@.len() ==> pos(k, n, j) < bound
            && cloned(xs[pos(k, n, j)], #[trigger] out[k]@[j])
}

proof fn lemma_cover_push<T: Clone>(
    xs: Seq<T>,
    out: Seq<Vec<T>>,
    gv: Seq<T>,
    g: Vec<T>,
    n: int,
    lo: int,
    hi: int,
)
    requires
        groups_cover(xs, out, n, lo),
        out.len() * n == lo,
        0 <= lo <= hi <= xs.len(),
        g@ == gv,
        gv.len() == hi - lo,
        forall|t: int| 0 <= t < gv.len() ==> cloned(xs[lo + t], #[trigger] gv[t]),
    ensures
        groups_cover(xs, out.push(g), n, hi),
{
    let o2 = out.push(g);
    assert forall|k: int, j: int| 0 <= k < o2.len() && 0 <= j < #[trigger] o2[k]@.len() implies
        #[trigger] pos(k, n, j) < hi by {
        if k == out.len() {
            assert(o2[k] == g);
            assert(pos(k, n, j) == lo + j);
        } else {
            assert(o2[k] == out[k]);
            assert(cloned(xs[pos(k, n, j)], out[k]@[j]));
            assert(pos(k, n, j) < lo);
        }
    }
    assert forall|k: int, j: int| 0 <= k < o2.len() && 0 <= j < o2[k]@.len() implies
        cloned(xs[pos(k, n, j)], #[trigger] o2[k]@[j]) by {
        if k == out.len() {
            assert(o2[k]@[j] == gv[j]);
            assert(k * n == lo);
            assert(cloned(xs[lo + j], gv[j]));
        } else {
            assert(o2[k] == out[k]);
            assert(o2[k]@[j] == out[k]@[j]);
        }
    }
}

/// Clones the items of `xs` at positions `lo .. hi`, in order.
fn clone_range<T: Clone>(xs: &[T], lo: usize, hi: usize) -> (g: Vec<T>)
    requires
        lo <= hi <= xs@.len(),
    ensures
        g@.len() == hi - lo,
        forall|t: int| 0 <= t < g@.len() ==> cloned(xs@[lo + t], #[trigger] g@[t]),
{
    let mut g: Vec<T> = Vec::new();
    let mut j: usize = lo;
    while j < hi
        invariant
            lo <= j <= hi <= xs@.len(),
            g@.len() == j - lo,
            forall|t: int| 0 <= t < g@.len() ==> cloned(xs@[lo + t], #[trigger] g@[t]),
        decreases hi - j,
    {
        let x = xs[j].clone();
        g.push(x);
        j = j + 1;
    }
    g
}

/// Splits `xs` into consecutive groups of `n` items, in order; the last
/// group may be shorter, and an empty input gives no group.
///
/// Item `j` of group `k` is (a clone of) item `k * n + j` of `xs`; every
/// group but the last holds exactly `n` items and the last holds the rest,
/// so that joining the groups in order gives back `xs`.
pub fn chunked<T: Clone>(xs: &[T], n: usize) -> (out: Vec<Vec<T>>)
    requires
        n >= 1,
    ensures
        forall|k: int| 0 <= k < out@.len() ==> 1 <= #[trigger] out@[k]@.len() <= n,
        forall|k: int| 0 <= k < out@.len() - 1 ==> #[trigger] out@[k]@.len() == n,
        out@.len() == 0 <==> xs@.len() == 0,
        out@.len() > 0 ==> (out@.len() - 1) * n + out@.last()@.len() == xs@.len(),
        groups_cover(xs@, out@, n as int, xs@.len() as int),
{
    let mut out: Vec<Vec<T>> = Vec::new();
    let mut i: usize = 0;
    while i < xs.len()
        invariant
            n >= 1,
            i <= xs@.len(),
            forall|k: int| 0 <= k < out@.len() ==> 1 <= #[trigger] out@[k]@.len() <= n,
            forall|k: int| 0 <= k < out@.len() - 1 ==> #[trigger] out@[k]@.len() == n,
            out@.len() == 0 ==> i == 0,
            out@.len() > 0 ==> (out@.len() - 1) * n + out@.last()@.len() == i,
            i < xs@.len() && out@.len() > 0 ==> out@.last()@.len() == n,
            groups_cover(xs@, out@, n as int, i as int),
        decreases xs@.len() - i,
    {
        let end: usize = if xs.len() - i < n { xs.len() } else { i + n };
        let g = clone_range(xs, i, end);
        let ghost len0 = out@.len();
        let ghost i0 = i;
        let ghost out0 = out@;
        let ghost gv = g@;
        proof {
            if len0 > 0 {
                assert((len0 - 1) * n + n == len0 * n) by (nonlinear_arith);
            } else {
                assert(len0 * n == 0) by (nonlinear_arith)
                    requires len0 == 0;
            }
            assert(len0 * n == i0);
        }
        out.push(g);
        i = end;
        proof {
            lemma_cover_push(xs@, out0, gv, g, n as int, i0 as int, end as int);
            assert(out@ == out0.push(g));
        }
    }
    out
}

} // verus!
