//! Elevation synthesis: composition of scalar fields onto the mesh
//! vertices, Planchon-Darboux depression filling, steepest-descent
//! derivation, and the descending-elevation schedule.
//!
//! Depression filling works on a working elevation `w` that starts at the
//! true height on the border and at a large ceiling everywhere else, and is
//! lowered sweep by sweep until nothing changes.  Each sweep is pinned down
//! exactly, the loop's result is the unique limit of the sweep chain, and
//! the filled field leaves no interior vertex below the ceiling without a
//! strictly lower neighbor (see `pd_inv`).

use vstd::prelude::*;

use crate::fields::VertexData;
use crate::mesh::PolyMap;
use crate::mesh::VertexId;

verus! {

/// The fill ceiling: interior working elevations start here, far above any
/// admissible true height.
pub const SENTINEL: i64 = 100_000;

/// The inputs depression filling works on: a well-formed mesh, true
/// heights strictly below the ceiling, and working elevations between the
/// true heights and the ceiling.
pub open spec fn pd_wf(mesh: PolyMap, h: Seq<i64>, w: Seq<i64>) -> bool {
    &&& mesh.wf()
    &&& h.len() == mesh.nv()
    &&& w.len() == mesh.nv()
    &&& forall|v: int| 0 <= v < h.len() ==> 0 <= #[trigger] h[v] < SENTINEL
    &&& forall|v: int| 0 <= v < w.len() ==> h[v] <= #[trigger] w[v] <= SENTINEL
}

/// The working elevations depression filling starts from: the true height
/// on the border, the ceiling everywhere else.
pub open spec fn pd_init(mesh: PolyMap, h: Seq<i64>) -> Seq<i64> {
    Seq::new(h.len(), |v: int| if mesh.vertices@[v].is_border { h[v] } else { SENTINEL })
}

/// The inner neighbor scan at vertex `v`, from neighbor `j` on, with `cur`
/// the working elevation accumulated so far.  A neighbor already below the
/// true height releases the vertex to its true height and stops the scan;
/// otherwise a neighbor between the true height and `cur` lowers `cur`.
pub open spec fn pd_scan(mesh: PolyMap, h: Seq<i64>, w: Seq<i64>, v: int, j: int, cur: int) -> int
    decreases mesh.vertices@[v].neighbors@.len() - j,
{
    let nbrs = mesh.vertices@[v].neighbors@;
    if j < 0 || j >= nbrs.len() {
        cur
    } else {
        let nw = w[nbrs[j].0 as int] as int;
        if h[v] >= nw + 1 {
            h[v] as int
        } else if cur > nw + 1 && nw + 1 > h[v] {
            pd_scan(mesh, h, w, v, j + 1, nw + 1)
        } else {
            pd_scan(mesh, h, w, v, j + 1, cur)
        }
    }
}

/// One sweep, truncated to the first `v` vertices, updating in place in
/// index order; already released vertices are skipped.
pub open spec fn pd_sweep_upto(mesh: PolyMap, h: Seq<i64>, w0: Seq<i64>, v: int) -> Seq<i64>
    decreases v,
{
    if v <= 0 {
        w0
    } else {
        let w = pd_sweep_upto(mesh, h, w0, v - 1);
        let idx = v - 1;
        if w[idx] == h[idx] {
            w
        } else {
            w.update(idx, pd_scan(mesh, h, w, idx, 0, w[idx] as int) as i64)
        }
    }
}

/// One whole sweep over every vertex.
pub open spec fn pd_sweep(mesh: PolyMap, h: Seq<i64>, w: Seq<i64>) -> Seq<i64> {
    pd_sweep_upto(mesh, h, w, w.len() as int)
}

/// Total slack of the working elevations over the true heights; each sweep
/// that changes anything strictly shrinks it, which bounds the run.
pub open spec fn pd_excess(h: Seq<i64>, w: Seq<i64>, n: int) -> int
    decreases n,
{
    if n <= 0 {
        0
    } else {
        pd_excess(h, w, n - 1) + (w[n - 1] - h[n - 1])
    }
}

proof fn lemma_scan_bounds(mesh: PolyMap, h: Seq<i64>, w: Seq<i64>, v: int, j: int, cur: int)
    requires
        0 <= v < h.len(),
        h[v] <= cur,
    ensures
        h[v] <= pd_scan(mesh, h, w, v, j, cur) <= cur,
    decreases mesh.vertices@[v].neighbors@.len() - j,
{
    let nbrs = mesh.vertices@[v].neighbors@;
    if 0 <= j < nbrs.len() {
        let nw = w[nbrs[j].0 as int] as int;
        if h[v] >= nw + 1 {
        } else if cur > nw + 1 && nw + 1 > h[v] {
            lemma_scan_bounds(mesh, h, w, v, j + 1, nw + 1);
        } else {
            lemma_scan_bounds(mesh, h, w, v, j + 1, cur);
        }
    }
}

proof fn lemma_sweep_upto_bounds(mesh: PolyMap, h: Seq<i64>, w0: Seq<i64>, v: int)
    requires
        pd_wf(mesh, h, w0),
        0 <= v <= w0.len(),
    ensures
        pd_sweep_upto(mesh, h, w0, v).len() == w0.len(),
        forall|u: int|
            0 <= u < w0.len() ==> h[u] <= #[trigger] pd_sweep_upto(mesh, h, w0, v)[u] <= w0[u],
        forall|u: int| v <= u < w0.len() ==> #[trigger] pd_sweep_upto(mesh, h, w0, v)[u] == w0[u],
    decreases v,
{
    if v > 0 {
        lemma_sweep_upto_bounds(mesh, h, w0, v - 1);
        let w = pd_sweep_upto(mesh, h, w0, v - 1);
        let idx = v - 1;
        if w[idx] != h[idx] {
            lemma_scan_bounds(mesh, h, w, idx, 0, w[idx] as int);
        }
    }
}

/// The sweep keeps the fill inputs well-formed and never raises a vertex.
pub proof fn lemma_sweep_bounds(mesh: PolyMap, h: Seq<i64>, w: Seq<i64>)
    requires
        pd_wf(mesh, h, w),
    ensures
        pd_sweep(mesh, h, w).len() == w.len(),
        forall|u: int| 0 <= u < w.len() ==> h[u] <= #[trigger] pd_sweep(mesh, h, w)[u] <= w[u],
        pd_wf(mesh, h, pd_sweep(mesh, h, w)),
{
    lemma_sweep_upto_bounds(mesh, h, w, w.len() as int);
}

proof fn lemma_excess_le(h: Seq<i64>, a: Seq<i64>, b: Seq<i64>, n: int)
    requires
        n <= a.len(),
        a.len() == b.len(),
        forall|u: int| 0 <= u < a.len() ==> #[trigger] a[u] <= b[u],
    ensures
        pd_excess(h, a, n) <= pd_excess(h, b, n),
    decreases n,
{
    if n > 0 {
        lemma_excess_le(h, a, b, n - 1);
    }
}

proof fn lemma_excess_lt(h: Seq<i64>, a: Seq<i64>, b: Seq<i64>, n: int, witness: int)
    requires
        n <= a.len(),
        a.len() == b.len(),
        forall|u: int| 0 <= u < a.len() ==> #[trigger] a[u] <= b[u],
        0 <= witness < n,
        a[witness] < b[witness],
    ensures
        pd_excess(h, a, n) < pd_excess(h, b, n),
    decreases n,
{
    if witness == n - 1 {
        lemma_excess_le(h, a, b, n - 1);
    } else {
        lemma_excess_lt(h, a, b, n - 1, witness);
    }
}

proof fn lemma_excess_nonneg(h: Seq<i64>, w: Seq<i64>, n: int)
    requires
        n <= w.len(),
        w.len() == h.len(),
        forall|u: int| 0 <= u < w.len() ==> h[u] <= #[trigger] w[u],
    ensures
        pd_excess(h, w, n) >= 0,
    decreases n,
{
    if n > 0 {
        lemma_excess_nonneg(h, w, n - 1);
    }
}

/// A sweep that changes anything strictly shrinks the total slack.
pub proof fn lemma_sweep_decreases(mesh: PolyMap, h: Seq<i64>, w: Seq<i64>)
    requires
        pd_wf(mesh, h, w),
        pd_sweep(mesh, h, w) != w,
    ensures
        0 <= pd_excess(h, pd_sweep(mesh, h, w), w.len() as int) < pd_excess(h, w, w.len() as int),
{
    let next = pd_sweep(mesh, h, w);
    lemma_sweep_bounds(mesh, h, w);
    let witness = choose|u: int| 0 <= u < w.len() && next[u] != w[u];
    assert(exists|u: int| 0 <= u < w.len() && next[u] != w[u]) by {
        if forall|u: int| 0 <= u < w.len() ==> #[trigger] next[u] == w[u] {
            assert(next =~= w);
        }
    }
    let wit = choose|u: int| 0 <= u < w.len() && next[u] != w[u];
    lemma_excess_lt(h, next, w, w.len() as int, wit);
    lemma_excess_nonneg(h, next, w.len() as int);
}

/// The limit of the sweep chain: sweeps applied until nothing changes.
/// Every run of depression filling lands exactly here, which makes the
/// whole stage a function of the mesh and the height field.
pub open spec fn pd_limit(mesh: PolyMap, h: Seq<i64>, w: Seq<i64>) -> Seq<i64>
    decreases pd_excess(h, w, w.len() as int),
    when pd_wf(mesh, h, w)
    via pd_limit_dec
{
    let next = pd_sweep(mesh, h, w);
    if next == w {
        w
    } else {
        pd_limit(mesh, h, next)
    }
}

#[via_fn]
proof fn pd_limit_dec(mesh: PolyMap, h: Seq<i64>, w: Seq<i64>) {
    let next = pd_sweep(mesh, h, w);
    if next != w {
        lemma_sweep_bounds(mesh, h, w);
        lemma_sweep_decreases(mesh, h, w);
    }
}

/// No interior vertex below the ceiling is a local minimum: each one has a
/// neighbor whose working elevation is strictly lower.  This is the
/// invariant that depression filling maintains from the very first sweep:
/// a vertex only ever leaves the ceiling for a value one step above some
/// neighbor, and working elevations never rise.
pub open spec fn pd_inv(mesh: PolyMap, w: Seq<i64>) -> bool {
    forall|v: int|
        0 <= v < w.len() && !mesh.vertices@[v].is_border && #[trigger] w[v] != SENTINEL
            ==> exists|j: int|
            0 <= j < mesh.vertices@[v].neighbors@.len()
                && w[#[trigger] mesh.vertices@[v].neighbors@[j].0 as int] + 1 <= w[v]
}

proof fn lemma_scan_witness(mesh: PolyMap, h: Seq<i64>, w: Seq<i64>, v: int, j: int, cur: int)
    requires
        0 <= v < h.len(),
        h[v] <= cur,
    ensures
        pd_scan(mesh, h, w, v, j, cur) == cur || exists|jj: int|
            0 <= jj < mesh.vertices@[v].neighbors@.len() && w[#[trigger] mesh.vertices@[v].neighbors@[jj].0 as int] + 1 <= pd_scan(mesh, h, w, v, j, cur),
    decreases mesh.vertices@[v].neighbors@.len() - j,
{
    let nbrs = mesh.vertices@[v].neighbors@;
    if 0 <= j < nbrs.len() {
        let nw = w[nbrs[j].0 as int] as int;
        let r = pd_scan(mesh, h, w, v, j, cur);
        if h[v] >= nw + 1 {
            assert(w[nbrs[j].0 as int] + 1 <= r);
        } else if cur > nw + 1 && nw + 1 > h[v] {
            lemma_scan_witness(mesh, h, w, v, j + 1, nw + 1);
            if r == nw + 1 {
                assert(w[nbrs[j].0 as int] + 1 <= r);
            }
        } else {
            lemma_scan_witness(mesh, h, w, v, j + 1, cur);
        }
    }
}

proof fn lemma_sweep_upto_monotone(mesh: PolyMap, h: Seq<i64>, w0: Seq<i64>, k1: int, k2: int)
    requires
        pd_wf(mesh, h, w0),
        0 <= k1 <= k2 <= w0.len(),
    ensures
        forall|u: int|
            0 <= u < w0.len() ==> #[trigger] pd_sweep_upto(mesh, h, w0, k2)[u] <= pd_sweep_upto(
                mesh,
                h,
                w0,
                k1,
            )[u],
    decreases k2 - k1,
{
    if k1 < k2 {
        lemma_sweep_upto_monotone(mesh, h, w0, k1, k2 - 1);
        lemma_sweep_upto_bounds(mesh, h, w0, k2 - 1);
        let w = pd_sweep_upto(mesh, h, w0, k2 - 1);
        let idx = k2 - 1;
        if w[idx] != h[idx] {
            lemma_scan_bounds(mesh, h, w, idx, 0, w[idx] as int);
        }
    }
}

proof fn lemma_sweep_upto_frame(mesh: PolyMap, h: Seq<i64>, w0: Seq<i64>, k: int, u: int)
    requires
        pd_wf(mesh, h, w0),
        0 <= u,
        u + 1 <= k <= w0.len(),
    ensures
        pd_sweep_upto(mesh, h, w0, k)[u] == pd_sweep_upto(mesh, h, w0, u + 1)[u],
    decreases k,
{
    if k > u + 1 {
        lemma_sweep_upto_frame(mesh, h, w0, k - 1, u);
        lemma_sweep_upto_bounds(mesh, h, w0, k - 1);
    }
}

/// A sweep keeps the no-interior-local-minimum invariant.
proof fn lemma_sweep_preserves_inv(mesh: PolyMap, h: Seq<i64>, w: Seq<i64>)
    requires
        pd_wf(mesh, h, w),
        pd_inv(mesh, w),
    ensures
        pd_inv(mesh, pd_sweep(mesh, h, w)),
{
    let n = w.len() as int;
    let out = pd_sweep(mesh, h, w);
    lemma_sweep_bounds(mesh, h, w);
    assert forall|v: int|
        0 <= v < out.len() && !mesh.vertices@[v].is_border && #[trigger] out[v] != SENTINEL
            implies exists|j: int|
        0 <= j < mesh.vertices@[v].neighbors@.len() && out[#[trigger] mesh.vertices@[v].neighbors@[j].0 as int] + 1 <= out[v] by {
        assert(mesh.wf_vertex(v));
        mesh.lemma_vertex_neighbors_in_range(v);
        let wp = pd_sweep_upto(mesh, h, w, v);
        lemma_sweep_upto_bounds(mesh, h, w, v);
        lemma_sweep_upto_monotone(mesh, h, w, v, v + 1);
        lemma_sweep_upto_monotone(mesh, h, w, v + 1, n);
        let wp1 = pd_sweep_upto(mesh, h, w, v + 1);
        assert(wp[v] == w[v]);
        if wp1[v] == w[v] {
            // The vertex kept its value through the sweep.
            assert(out[v] == w[v]) by {
                lemma_sweep_upto_frame(mesh, h, w, n, v);
            }
            assert(w[v] != SENTINEL);
            let j = choose|j: int|
                0 <= j < mesh.vertices@[v].neighbors@.len() && w[
                    #[trigger] mesh.vertices@[v].neighbors@[j].0 as int] + 1 <= w[v];
            assert(out[mesh.vertices@[v].neighbors@[j].0 as int]
                <= w[mesh.vertices@[v].neighbors@[j].0 as int]) by {
                lemma_sweep_upto_monotone(mesh, h, w, 0, n);
            }
        } else {
            // The vertex was lowered by this sweep's scan.
            assert(w[v] != h[v]);
            let r = pd_scan(mesh, h, wp, v, 0, wp[v] as int);
            assert(wp1 == wp.update(v, r as i64));
            lemma_scan_bounds(mesh, h, wp, v, 0, wp[v] as int);
            lemma_scan_witness(mesh, h, wp, v, 0, wp[v] as int);
            assert(r != wp[v] as int);
            let jj = choose|jj: int|
                0 <= jj < mesh.vertices@[v].neighbors@.len() && wp[
                    #[trigger] mesh.vertices@[v].neighbors@[jj].0 as int] + 1 <= r;
            let nb = mesh.vertices@[v].neighbors@[jj].0 as int;
            assert(out[nb] <= wp[nb]) by {
                lemma_sweep_upto_monotone(mesh, h, w, v, n);
            }
            assert(out[v] == wp1[v]) by {
                lemma_sweep_upto_frame(mesh, h, w, n, v);
            }
        }
    };
}

/// One in-place sweep; reports whether anything changed.
fn pd_sweep_exec(mesh: &PolyMap, h: &Vec<i64>, w: &mut Vec<i64>) -> (changed: bool)
    requires
        pd_wf(*mesh, h@, old(w)@),
    ensures
        final(w)@ == pd_sweep(*mesh, h@, old(w)@),
        changed == (final(w)@ != old(w)@),
{
    let ghost w0 = w@;
    let n = w.len();
    let mut changed: bool = false;
    let mut v: usize = 0;
    while v < n
        invariant
            v <= n,
            n == w0.len(),
            n == h@.len(),
            n == mesh.nv(),
            pd_wf(*mesh, h@, w0),
            w@ == pd_sweep_upto(*mesh, h@, w0, v as int),
            w@.len() == n,
            changed == exists|u: int| 0 <= u < v && #[trigger] w@[u] != w0[u],
        decreases n - v,
    {
        proof {
            lemma_sweep_upto_bounds(*mesh, h@, w0, v as int);
        }
        let hv = h[v];
        let wv = w[v];
        let ghost w_pre = w@;
        if wv != hv {
            proof {
                assert(mesh.wf_vertex(v as int));
                mesh.lemma_vertex_neighbors_in_range(v as int);
            }
            let vt = mesh.vertex(VertexId(v));
            let nk = vt.neighbors.len();
            let mut cur: i64 = wv;
            let mut k: usize = 0;
            let mut released: bool = false;
            while !released && k < nk
                invariant
                    k <= nk,
                    v < n,
                    n == w_pre.len(),
                    n == h@.len(),
                    n == mesh.nv(),
                    w@ == w_pre,
                    vt == mesh.vertices@[v as int],
                    nk == vt.neighbors@.len(),
                    forall|j: int| 0 <= j < nk ==> #[trigger] vt.neighbors@[j].0 < n,
                    forall|u: int| 0 <= u < n ==> h@[u] <= #[trigger] w_pre[u] <= SENTINEL,
                    hv == h@[v as int],
                    h@[v as int] <= cur <= SENTINEL,
                    pd_scan(*mesh, h@, w_pre, v as int, 0, w_pre[v as int] as int) == if released {
                        h@[v as int] as int
                    } else {
                        pd_scan(*mesh, h@, w_pre, v as int, k as int, cur as int)
                    },
                    wv == w_pre[v as int],
                decreases nk - k + if released {
                    0int
                } else {
                    1int
                },
            {
                let nid = vt.neighbors[k].0;
                let nw = w[nid];
                if hv >= nw + 1 {
                    released = true;
                } else {
                    if cur > nw + 1 && nw + 1 > hv {
                        cur = nw + 1;
                    }
                    k = k + 1;
                }
            }
            let newv: i64 = if released {
                hv
            } else {
                cur
            };
            proof {
                assert(newv as int == pd_scan(*mesh, h@, w_pre, v as int, 0, w_pre[v as int] as int));
            }
            w.set(v, newv);
            if newv != wv {
                changed = true;
            }
            proof {
                assert(w@ =~= pd_sweep_upto(*mesh, h@, w0, (v + 1) as int));
                assert(w_pre[v as int] == w0[v as int]);
                assert forall|u: int| 0 <= u < v implies w@[u] == w_pre[u] by {}
                if newv != wv {
                    assert(w@[v as int] != w0[v as int]);
                } else {
                    assert(w@ =~= w_pre);
                }
            }
        } else {
            proof {
                assert(w@ =~= pd_sweep_upto(*mesh, h@, w0, (v + 1) as int));
                assert(w_pre[v as int] == w0[v as int]);
            }
        }
        v = v + 1;
    }
    proof {
        assert(w@.len() == w0.len());
        if changed {
            let u = choose|u: int| 0 <= u < v && #[trigger] w@[u] != w0[u];
            assert(w@[u] != w0[u]);
            assert(w@ != w0);
        } else {
            assert forall|u: int| 0 <= u < w0.len() implies w@[u] == w0[u] by {}
            assert(w@ =~= w0);
        }
    }
    changed
}

/// The limit keeps every fact the sweeps keep: bounds, the
/// no-interior-local-minimum invariant, and it is a fixpoint of the sweep.
pub proof fn lemma_limit_facts(mesh: PolyMap, h: Seq<i64>, w: Seq<i64>)
    requires
        pd_wf(mesh, h, w),
        pd_inv(mesh, w),
    ensures
        pd_wf(mesh, h, pd_limit(mesh, h, w)),
        pd_inv(mesh, pd_limit(mesh, h, w)),
        forall|u: int| 0 <= u < w.len() ==> h[u] <= #[trigger] pd_limit(mesh, h, w)[u] <= w[u],
        pd_sweep(mesh, h, pd_limit(mesh, h, w)) == pd_limit(mesh, h, w),
    decreases pd_excess(h, w, w.len() as int),
{
    let next = pd_sweep(mesh, h, w);
    lemma_sweep_bounds(mesh, h, w);
    if next == w {
    } else {
        lemma_sweep_decreases(mesh, h, w);
        lemma_sweep_preserves_inv(mesh, h, w);
        lemma_limit_facts(mesh, h, next);
    }
}

/// Smallest value among the first `k` entries.
pub open spec fn min_upto(d: Seq<i64>, k: int) -> i64
    decreases k,
{
    if k <= 1 {
        d[0]
    } else if d[k - 1] < min_upto(d, k - 1) {
        d[k - 1]
    } else {
        min_upto(d, k - 1)
    }
}

/// Largest value among the first `k` entries.
pub open spec fn max_upto(d: Seq<i64>, k: int) -> i64
    decreases k,
{
    if k <= 1 {
        d[0]
    } else if d[k - 1] > max_upto(d, k - 1) {
        d[k - 1]
    } else {
        max_upto(d, k - 1)
    }
}

/// The normalization formula: affine rescale of the value range onto
/// `[0, SCALE]`; a field with no variance collapses to zero.
pub open spec fn normalized_value(d: Seq<i64>, v: int) -> i64 {
    let mn = min_upto(d, d.len() as int) as int;
    let mx = max_upto(d, d.len() as int) as int;
    if mx == mn {
        0i64
    } else {
        (((d[v] - mn) * (crate::SCALE as int)) / (mx - mn)) as i64
    }
}

proof fn lemma_min_max_range(d: Seq<i64>, k: int, lo: i64, hi: i64)
    requires
        0 < k <= d.len(),
        forall|u: int| 0 <= u < d.len() ==> lo <= #[trigger] d[u] <= hi,
    ensures
        lo <= min_upto(d, k) <= hi,
        lo <= max_upto(d, k) <= hi,
    decreases k,
{
    if k > 1 {
        lemma_min_max_range(d, k - 1, lo, hi);
    }
}

proof fn lemma_min_max_upto(d: Seq<i64>, k: int, v: int)
    requires
        0 <= v < k <= d.len(),
    ensures
        min_upto(d, k) <= d[v] <= max_upto(d, k),
    decreases k,
{
    if v < k - 1 {
        lemma_min_max_upto(d, k - 1, v);
    }
}

/// A builder for the elevation field: scalar fields are composed onto the
/// vertices, depressions are filled, and `build` freezes the product.
pub struct HeightMapBuilder {
    pub vertices: VertexData<i64>,
}

impl HeightMapBuilder {
    pub fn new(mesh: &PolyMap, default: i64) -> (r: Self)
        ensures
            r.vertices.data@.len() == mesh.nv(),
            forall|v: int| 0 <= v < r.vertices.data@.len() ==> r.vertices.data@[v] == default,
    {
        HeightMapBuilder { vertices: VertexData::fill(mesh, default) }
    }

    /// Rescales the composed field onto `[0, SCALE]`.  A field with no
    /// variance collapses to zero: with nothing to rescale against, the
    /// neutral value stands in for every vertex.
    pub fn normalize(&mut self)
        requires
            old(self).vertices.data@.len() > 0,
            forall|v: int|
                0 <= v < old(self).vertices.data@.len() ==> -0x100_0000_0000
                    <= #[trigger] old(self).vertices.data@[v] <= 0x100_0000_0000,
        ensures
            final(self).vertices.data@.len() == old(self).vertices.data@.len(),
            forall|v: int|
                0 <= v < final(self).vertices.data@.len() ==> final(self).vertices.data@[v]
                    == normalized_value(old(self).vertices.data@, v),
            forall|v: int|
                0 <= v < final(self).vertices.data@.len() ==> 0
                    <= #[trigger] final(self).vertices.data@[v] <= crate::SCALE,
    {
        let ghost d0 = self.vertices.data@;
        let n = self.vertices.data.len();
        let mut mn: i64 = self.vertices.data[0];
        let mut mx: i64 = self.vertices.data[0];
        let mut i: usize = 1;
        while i < n
            invariant
                1 <= i <= n,
                n == d0.len(),
                d0 == self.vertices.data@,
                mn == min_upto(d0, i as int),
                mx == max_upto(d0, i as int),
            decreases n - i,
        {
            let x = self.vertices.data[i];
            if x < mn {
                mn = x;
            }
            if x > mx {
                mx = x;
            }
            i = i + 1;
        }
        let mut out: Vec<i64> = Vec::new();
        let mut v: usize = 0;
        while v < n
            invariant
                v <= n,
                n == d0.len(),
                n > 0,
                d0 == self.vertices.data@,
                mn == min_upto(d0, n as int),
                mx == max_upto(d0, n as int),
                forall|u: int| 0 <= u < n ==> -0x100_0000_0000 <= #[trigger] d0[u] <= 0x100_0000_0000,
                out@.len() == v,
                forall|u: int| 0 <= u < v ==> out@[u] == normalized_value(d0, u),
                forall|u: int| 0 <= u < v ==> 0 <= #[trigger] out@[u] <= crate::SCALE,
            decreases n - v,
        {
            proof {
                lemma_min_max_upto(d0, n as int, v as int);
                lemma_min_max_range(d0, n as int, -0x100_0000_0000i64, 0x100_0000_0000i64);
            }
            let x = self.vertices.data[v];
            let value: i64 = if mx == mn {
                0
            } else {
                proof {
                    assert(0 <= (x - mn) as int * (crate::SCALE as int) <= (mx - mn) as int * (
                    crate::SCALE as int)) by (nonlinear_arith)
                        requires
                            0 <= x - mn <= mx - mn,
                    ;
                    assert((mx - mn) as int * (crate::SCALE as int) <= 0x200_0000_0000 * (
                    crate::SCALE as int)) by (nonlinear_arith)
                        requires
                            0 < mx - mn <= 0x200_0000_0000,
                    ;
                    assert(0 <= ((x - mn) as int * (crate::SCALE as int)) / ((mx - mn) as int) <= (
                    crate::SCALE as int)) by (nonlinear_arith)
                        requires
                            0 < mx - mn,
                            0 <= (x - mn) as int * (crate::SCALE as int) <= (mx - mn) as int * (
                            crate::SCALE as int),
                    ;
                }
                let num: i64 = (x - mn) * crate::SCALE;
                let den: i64 = mx - mn;
                num / den
            };
            out.push(value);
            v = v + 1;
        }
        self.vertices.data = out;
    }

    /// Planchon-Darboux depression filling: replaces the elevation field
    /// with the unique limit of the sweep chain started from the border
    /// heights and the interior ceiling.  Afterwards no interior vertex
    /// below the ceiling is a local minimum.
    #[verifier::rlimit(60)]
    pub fn planchon_darboux(&mut self, mesh: &PolyMap)
        requires
            mesh.wf(),
            old(self).vertices.data@.len() == mesh.nv(),
            forall|v: int|
                0 <= v < old(self).vertices.data@.len() ==> 0 <= #[trigger] old(
                    self,
                ).vertices.data@[v] < SENTINEL,
        ensures
            final(self).vertices.data@ == pd_limit(
                *mesh,
                old(self).vertices.data@,
                pd_init(*mesh, old(self).vertices.data@),
            ),
            pd_wf(*mesh, old(self).vertices.data@, final(self).vertices.data@),
            pd_inv(*mesh, final(self).vertices.data@),
            forall|v: int|
                0 <= v < final(self).vertices.data@.len() ==> old(self).vertices.data@[v]
                    <= #[trigger] final(self).vertices.data@[v],
            forall|v: int|
                0 <= v < final(self).vertices.data@.len() && mesh.vertices@[v].is_border
                    ==> #[trigger] final(self).vertices.data@[v] == old(self).vertices.data@[v],
    {
        let ghost h0 = self.vertices.data@;
        let n = self.vertices.data.len();
        let mut w: Vec<i64> = Vec::new();
        let mut v: usize = 0;
        while v < n
            invariant
                v <= n,
                n == h0.len(),
                h0 == self.vertices.data@,
                n == mesh.nv(),
                w@.len() == v,
                forall|u: int|
                    0 <= u < v ==> w@[u] == (if mesh.vertices@[u].is_border {
                        h0[u]
                    } else {
                        SENTINEL
                    }),
            decreases n - v,
        {
            let border = mesh.vertex(VertexId(v)).is_border;
            if border {
                let hv = self.vertices.data[v];
                w.push(hv);
            } else {
                w.push(SENTINEL);
            }
            v = v + 1;
        }
        proof {
            assert(w@ =~= pd_init(*mesh, h0));
            assert(pd_wf(*mesh, h0, w@));
        }
        let mut changed: bool = true;
        while changed
            invariant
                n == h0.len(),
                h0 == self.vertices.data@,
                n == mesh.nv(),
                w@.len() == n,
                pd_wf(*mesh, h0, w@),
                pd_inv(*mesh, w@),
                pd_limit(*mesh, h0, w@) == pd_limit(*mesh, h0, pd_init(*mesh, h0)),
                !changed ==> pd_sweep(*mesh, h0, w@) == w@,
            decreases pd_excess(h0, w@, w@.len() as int) + if changed {
                1int
            } else {
                0int
            },
        {
            let ghost w_pre = w@;
            let c = pd_sweep_exec(mesh, &self.vertices.data, &mut w);
            proof {
                lemma_sweep_bounds(*mesh, h0, w_pre);
                lemma_sweep_preserves_inv(*mesh, h0, w_pre);
                if c {
                    lemma_sweep_decreases(*mesh, h0, w_pre);
                } else {
                    assert(w@ == w_pre);
                    lemma_excess_nonneg(h0, w@, w@.len() as int);
                }
                assert(pd_limit(*mesh, h0, w_pre) == pd_limit(*mesh, h0, w@));
            }
            changed = c;
        }
        proof {
            assert(pd_limit(*mesh, h0, w@) == w@);
            lemma_limit_facts(*mesh, h0, pd_init(*mesh, h0));
            assert forall|u: int|
                0 <= u < n && mesh.vertices@[u].is_border implies #[trigger] w@[u] == h0[u] by {
                assert(pd_init(*mesh, h0)[u] == h0[u]);
            }
        }
        self.vertices.data = w;
    }
}

/// A steepest-descent edge: the lowest neighbor and the elevation drop
/// towards it.
#[derive(Clone, Copy, Debug, PartialEq, Eq, Structural)]
pub struct Slope {
    pub towards: VertexId,
    pub intensity: i64,
}

/// The steepest-descent scan over the neighbors of `v` from `j` on: keeps
/// the strictly lower neighbor with the largest drop, first one winning
/// ties.
pub open spec fn descent_scan(
    mesh: PolyMap,
    d: Seq<i64>,
    v: int,
    j: int,
    best: Option<Slope>,
) -> Option<Slope>
    decreases mesh.vertices@[v].neighbors@.len() - j,
{
    let nbrs = mesh.vertices@[v].neighbors@;
    if j < 0 || j >= nbrs.len() {
        best
    } else {
        let n = nbrs[j].0 as int;
        let diff = d[v] - d[n];
        let take = diff > 0 && (best is None || diff > best->Some_0.intensity);
        if take {
            descent_scan(
                mesh,
                d,
                v,
                j + 1,
                Some(Slope { towards: VertexId(nbrs[j].0), intensity: (d[v] - d[n]) as i64 }),
            )
        } else {
            descent_scan(mesh, d, v, j + 1, best)
        }
    }
}

/// The descent vector of `v`: its steepest strictly lower neighbor, or
/// nothing when `v` is a local minimum.
pub open spec fn spec_descent(mesh: PolyMap, d: Seq<i64>, v: int) -> Option<Slope> {
    descent_scan(mesh, d, v, 0, None)
}

proof fn lemma_descent_scan_props(mesh: PolyMap, d: Seq<i64>, v: int, j: int, best: Option<Slope>)
    requires
        mesh.wf(),
        0 <= v < mesh.nv(),
        d.len() == mesh.nv(),
        forall|u: int| 0 <= u < d.len() ==> 0 <= #[trigger] d[u] <= SENTINEL,
        0 <= j <= mesh.vertices@[v].neighbors@.len(),
        match best {
            Option::None => forall|k: int|
                0 <= k < j ==> d[#[trigger] mesh.vertices@[v].neighbors@[k].0 as int] >= d[v],
            Option::Some(s) => s.towards.0 < mesh.nv() && d[s.towards.0 as int] < d[v]
                && s.intensity == d[v] - d[s.towards.0 as int] && (exists|k: int|
                0 <= k < j && (#[trigger] mesh.vertices@[v].neighbors@[k]).0 == s.towards.0)
                && forall|k: int|
                0 <= k < j ==> d[v] - d[#[trigger] mesh.vertices@[v].neighbors@[k].0 as int]
                    <= s.intensity,
        },
    ensures
        match descent_scan(mesh, d, v, j, best) {
            Option::None => best is None && forall|k: int|
                0 <= k < mesh.vertices@[v].neighbors@.len() ==> d[#[trigger] mesh.vertices@[v].neighbors@[k].0 as int] >= d[v],
            Option::Some(s) => s.towards.0 < mesh.nv() && d[s.towards.0 as int] < d[v]
                && s.intensity == d[v] - d[s.towards.0 as int] && (exists|k: int|
                0 <= k < mesh.vertices@[v].neighbors@.len() && (#[trigger] mesh.vertices@[v].neighbors@[k]).0
                    == s.towards.0) && forall|k: int|
                0 <= k < mesh.vertices@[v].neighbors@.len() ==> d[v] - d[#[trigger] mesh.vertices@[v].neighbors@[k].0 as int] <= s.intensity,
        },
    decreases mesh.vertices@[v].neighbors@.len() - j,
{
    mesh.lemma_vertex_neighbors_in_range(v);
    let nbrs = mesh.vertices@[v].neighbors@;
    if j < nbrs.len() {
        let n = nbrs[j].0 as int;
        let diff = d[v] - d[n];
        let take = diff > 0 && (best is None || diff > best->Some_0.intensity);
        if take {
            lemma_descent_scan_props(
                mesh,
                d,
                v,
                j + 1,
                Some(Slope { towards: VertexId(nbrs[j].0), intensity: (d[v] - d[n]) as i64 }),
            );
        } else {
            lemma_descent_scan_props(mesh, d, v, j + 1, best);
        }
    }
}

/// What the descent vector promises: either no neighbor is strictly
/// lower, or the vector names a neighbor that is strictly lower with the
/// exact drop, and no neighbor drops further (the descent is steepest).
pub proof fn lemma_descent_props(mesh: PolyMap, d: Seq<i64>, v: int)
    requires
        mesh.wf(),
        0 <= v < mesh.nv(),
        d.len() == mesh.nv(),
        forall|u: int| 0 <= u < d.len() ==> 0 <= #[trigger] d[u] <= SENTINEL,
    ensures
        match spec_descent(mesh, d, v) {
            Option::None => forall|k: int|
                0 <= k < mesh.vertices@[v].neighbors@.len() ==> d[#[trigger] mesh.vertices@[v].neighbors@[k].0 as int] >= d[v],
            Option::Some(s) => s.towards.0 < mesh.nv() && d[s.towards.0 as int] < d[v]
                && s.intensity == d[v] - d[s.towards.0 as int] && (exists|k: int|
                0 <= k < mesh.vertices@[v].neighbors@.len() && (#[trigger] mesh.vertices@[v].neighbors@[k]).0
                    == s.towards.0) && forall|k: int|
                0 <= k < mesh.vertices@[v].neighbors@.len() ==> d[v] - d[#[trigger] mesh.vertices@[v].neighbors@[k].0 as int] <= s.intensity,
        },
{
    lemma_descent_scan_props(mesh, d, v, 0, None);
}

/// The flow schedule built from the first `i` entries of the descending
/// order: one `(vertex, descent target)` pair per vertex that has a
/// descent.
pub open spec fn pairs_upto(order: Seq<usize>, desc: Seq<Option<Slope>>, i: int) -> Seq<
    (usize, usize),
>
    decreases i,
{
    if i <= 0 {
        Seq::empty()
    } else {
        let prev = pairs_upto(order, desc, i - 1);
        match desc[order[i - 1] as int] {
            Option::None => prev,
            Option::Some(s) => prev + seq![(order[i - 1], s.towards.0)],
        }
    }
}

/// The whole flow schedule of a height field.
pub open spec fn flow_pairs(order: Seq<usize>, desc: Seq<Option<Slope>>) -> Seq<(usize, usize)> {
    pairs_upto(order, desc, order.len() as int)
}

/// The elevation product: filled per-vertex heights, per-cell averages,
/// descent vectors and the descending schedule, all exact functions of the
/// vertex heights.
///
/// Heights are normalized onto `[0, SCALE]` before depression filling, not
/// after: an integer rescale of the filled field could merge the strict
/// one-unit descents the fill guarantees.  Filling then raises basin
/// floors above their spill points, so stored heights may exceed the
/// normalized scale; `wf` bounds them by the fill ceiling, and the terrain
/// table's top category catches everything above its last finite level.
pub struct HeightMap {
    pub vertices: VertexData<i64>,
    pub cells: crate::fields::CellData<i64>,
    pub descent_vector: VertexData<Option<Slope>>,
    pub downhill: Vec<VertexId>,
}

impl HeightMap {
    /// Everything `build` establishes and every consumer relies on.
    pub open spec fn wf(self, mesh: PolyMap) -> bool {
        &&& self.vertices.data@.len() == mesh.nv()
        &&& self.cells.data@.len() == mesh.nc()
        &&& self.descent_vector.data@.len() == mesh.nv()
        &&& forall|v: int|
            0 <= v < mesh.nv() ==> 0 <= #[trigger] self.vertices.data@[v] <= SENTINEL
        &&& forall|v: int|
            0 <= v < mesh.nv() ==> #[trigger] self.descent_vector.data@[v] == spec_descent(
                mesh,
                self.vertices.data@,
                v,
            )
        &&& crate::fields::vids(self.downhill@) == crate::fields::sort_desc(self.vertices.data@)
        &&& forall|c: int|
            0 <= c < mesh.nc() ==> 0 <= #[trigger] self.cells.data@[c]
                <= crate::fields::FLOW_OUTPUT_LIMIT
        &&& forall|c: int|
            0 <= c < mesh.nc() ==> #[trigger] self.cells.data@[c] == crate::fields::corner_sum(
                mesh,
                self.vertices.data@,
                c,
                mesh.cells@[c].corners@.len() as int,
            ) / (mesh.cells@[c].corners@.len() as int)
    }

    pub fn vertex_height(&self, id: VertexId) -> (r: i64)
        requires
            id.0 < self.vertices.data@.len(),
        ensures
            r == self.vertices.data@[id.0 as int],
    {
        self.vertices.data[id.0]
    }

    pub fn cell_height(&self, id: crate::mesh::CellId) -> (r: i64)
        requires
            id.0 < self.cells.data@.len(),
        ensures
            r == self.cells.data@[id.0 as int],
    {
        self.cells.data[id.0]
    }

    /// True when the descent vector of `top` points at `bottom`.
    pub fn is_descent(&self, top: VertexId, bottom: VertexId) -> (r: bool)
        requires
            top.0 < self.descent_vector.data@.len(),
        ensures
            r == match self.descent_vector.data@[top.0 as int] {
                Option::None => false,
                Option::Some(s) => s.towards.0 == bottom.0,
            },
    {
        match &self.descent_vector.data[top.0] {
            Option::None => false,
            Option::Some(s) => s.towards.0 == bottom.0,
        }
    }

    pub fn descent_vector(&self, id: VertexId) -> (r: &Option<Slope>)
        requires
            id.0 < self.descent_vector.data@.len(),
        ensures
            r == self.descent_vector.data@[id.0 as int],
    {
        &self.descent_vector.data[id.0]
    }

    /// The strictly higher endpoint of an edge, if the endpoints differ.
    pub fn edge_high_corner(&self, edge: &crate::mesh::Edge) -> (r: Option<VertexId>)
        requires
            edge.min.0 < self.vertices.data@.len(),
            edge.max.0 < self.vertices.data@.len(),
        ensures
            r == (if self.vertices.data@[edge.min.0 as int] > self.vertices.data@[edge.max.0 as int] {
                Some(edge.min)
            } else if self.vertices.data@[edge.max.0 as int] > self.vertices.data@[edge.min.0 as int] {
                Some(edge.max)
            } else {
                Option::<VertexId>::None
            }),
    {
        let s = self.vertices.data[edge.min.0];
        let e = self.vertices.data[edge.max.0];
        if s > e {
            Some(edge.min)
        } else if e > s {
            Some(edge.max)
        } else {
            None
        }
    }

    /// The strictly lower endpoint of an edge, if the endpoints differ.
    pub fn edge_low_corner(&self, edge: &crate::mesh::Edge) -> (r: Option<VertexId>)
        requires
            edge.min.0 < self.vertices.data@.len(),
            edge.max.0 < self.vertices.data@.len(),
        ensures
            r == (if self.vertices.data@[edge.min.0 as int] < self.vertices.data@[edge.max.0 as int] {
                Some(edge.min)
            } else if self.vertices.data@[edge.max.0 as int] < self.vertices.data@[edge.min.0 as int] {
                Some(edge.max)
            } else {
                Option::<VertexId>::None
            }),
    {
        let s = self.vertices.data[edge.min.0];
        let e = self.vertices.data[edge.max.0];
        if s < e {
            Some(edge.min)
        } else if e < s {
            Some(edge.max)
        } else {
            None
        }
    }

    /// The `(vertex, descent target)` pairs of the descending schedule: the
    /// accumulation order that `flow` replays.
    pub fn downhill_flow(&self) -> (r: Vec<(usize, usize)>)
        requires
            forall|k: int|
                0 <= k < self.downhill@.len() ==> #[trigger] self.downhill@[k].0
                    < self.descent_vector.data@.len(),
        ensures
            r@ == flow_pairs(crate::fields::vids(self.downhill@), self.descent_vector.data@),
    {
        let ghost order = crate::fields::vids(self.downhill@);
        let n = self.downhill.len();
        let nd = self.descent_vector.data.len();
        let mut out: Vec<(usize, usize)> = Vec::new();
        let mut i: usize = 0;
        while i < n
            invariant
                i <= n,
                n == self.downhill@.len(),
                order == crate::fields::vids(self.downhill@),
                nd == self.descent_vector.data@.len(),
                forall|k: int| 0 <= k < n ==> #[trigger] self.downhill@[k].0 < nd,
                out@ == pairs_upto(order, self.descent_vector.data@, i as int),
            decreases n - i,
        {
            let u = self.downhill[i].0;
            match &self.descent_vector.data[u] {
                Option::None => {},
                Option::Some(s) => {
                    out.push((u, s.towards.0));
                    proof {
                        assert(out@ =~= pairs_upto(
                            order,
                            self.descent_vector.data@,
                            (i + 1) as int,
                        ));
                    }
                },
            }
            i = i + 1;
        }
        out
    }

    /// A builder snapshot of the current elevations, for reflow.
    pub fn make_builder(&self) -> (r: HeightMapBuilder)
        ensures
            r.vertices.data@ == self.vertices.data@,
    {
        let n = self.vertices.data.len();
        let mut data: Vec<i64> = Vec::new();
        let mut i: usize = 0;
        while i < n
            invariant
                i <= n,
                n == self.vertices.data@.len(),
                data@.len() == i,
                forall|j: int| 0 <= j < i ==> #[trigger] data@[j] == self.vertices.data@[j],
            decreases n - i,
        {
            data.push(self.vertices.data[i]);
            i = i + 1;
        }
        proof {
            assert(data@ =~= self.vertices.data@);
        }
        HeightMapBuilder { vertices: VertexData { data } }
    }
}

impl HeightMapBuilder {
    /// Freezes the elevation field into the heightmap product: derives the
    /// descent vectors, the per-cell averages and the descending schedule.
    pub fn build(self, mesh: &PolyMap) -> (r: HeightMap)
        requires
            mesh.wf(),
            self.vertices.data@.len() == mesh.nv(),
            forall|v: int|
                0 <= v < self.vertices.data@.len() ==> 0 <= #[trigger] self.vertices.data@[v]
                    <= SENTINEL,
        ensures
            r.wf(*mesh),
            r.vertices.data@ == self.vertices.data@,
    {
        let ghost d = self.vertices.data@;
        let n = self.vertices.data.len();
        let mut desc: Vec<Option<Slope>> = Vec::new();
        let mut v: usize = 0;
        while v < n
            invariant
                v <= n,
                n == d.len(),
                d == self.vertices.data@,
                n == mesh.nv(),
                mesh.wf(),
                forall|u: int| 0 <= u < n ==> 0 <= #[trigger] d[u] <= SENTINEL,
                desc@.len() == v,
                forall|u: int| 0 <= u < v ==> #[trigger] desc@[u] == spec_descent(*mesh, d, u),
            decreases n - v,
        {
            proof {
                assert(mesh.wf_vertex(v as int));
                mesh.lemma_vertex_neighbors_in_range(v as int);
            }
            let vt = mesh.vertex(VertexId(v));
            let nk = vt.neighbors.len();
            let dv = self.vertices.data[v];
            let mut best: Option<Slope> = None;
            let mut k: usize = 0;
            while k < nk
                invariant
                    k <= nk,
                    v < n,
                    n == d.len(),
                    d == self.vertices.data@,
                    n == mesh.nv(),
                    mesh.wf(),
                    vt == mesh.vertices@[v as int],
                    nk == vt.neighbors@.len(),
                    forall|j: int| 0 <= j < nk ==> #[trigger] vt.neighbors@[j].0 < n,
                    forall|u: int| 0 <= u < n ==> 0 <= #[trigger] d[u] <= SENTINEL,
                    dv == d[v as int],
                    spec_descent(*mesh, d, v as int) == descent_scan(*mesh, d, v as int, k as int, best),
                decreases nk - k,
            {
                let nid = vt.neighbors[k].0;
                let dn = self.vertices.data[nid];
                let take: bool = dv > dn && match &best {
                    Option::None => true,
                    Option::Some(s) => dv - dn > s.intensity,
                };
                if take {
                    best = Some(Slope { towards: VertexId(nid), intensity: dv - dn });
                }
                k = k + 1;
            }
            desc.push(best);
            v = v + 1;
        }
        let cells = crate::fields::CellData::vertex_average(mesh, &self.vertices);
        let downhill = self.vertices.ordered_by();
        HeightMap {
            vertices: self.vertices,
            cells,
            descent_vector: VertexData { data: desc },
            downhill,
        }
    }
}

/// Following descent vectors from `v`: does the chain hit a border vertex
/// within `fuel` steps?
pub open spec fn chain_reaches_border(
    mesh: PolyMap,
    desc: Seq<Option<Slope>>,
    v: int,
    fuel: nat,
) -> bool
    decreases fuel,
{
    if mesh.vertices@[v].is_border {
        true
    } else if fuel == 0 {
        false
    } else {
        match desc[v] {
            Option::None => false,
            Option::Some(s) => chain_reaches_border(mesh, desc, s.towards.0 as int, (fuel - 1) as nat),
        }
    }
}

proof fn lemma_chain_fuel_mono(mesh: PolyMap, desc: Seq<Option<Slope>>, v: int, f1: nat, f2: nat)
    requires
        chain_reaches_border(mesh, desc, v, f1),
        f1 <= f2,
    ensures
        chain_reaches_border(mesh, desc, v, f2),
    decreases f1,
{
    if !mesh.vertices@[v].is_border {
        match desc[v] {
            Option::None => {},
            Option::Some(s) => {
                lemma_chain_fuel_mono(mesh, desc, s.towards.0 as int, (f1 - 1) as nat, (f2 - 1) as nat);
            },
        }
    }
}

/// After depression filling of a drained mesh, no interior vertex is a
/// local minimum: each one carries a descent vector, so a vertex without
/// one (a drainage terminal) lies on the border, and following descent
/// vectors from any vertex reaches a border vertex in finitely many steps
/// (at most one per unit of elevation).  A mesh with an interior region
/// that no chain of neighbors connects to the border is excluded by the
/// ceiling hypothesis: such a region keeps the fill ceiling forever.
pub proof fn lemma_descent_chain_reaches_border(mesh: PolyMap, hm: HeightMap, v: int)
    requires
        mesh.wf(),
        hm.wf(mesh),
        pd_inv(mesh, hm.vertices.data@),
        forall|u: int|
            0 <= u < mesh.nv() && !mesh.vertices@[u].is_border
                ==> #[trigger] hm.vertices.data@[u] != SENTINEL,
        0 <= v < mesh.nv(),
    ensures
        !mesh.vertices@[v].is_border ==> hm.descent_vector.data@[v] is Some,
        hm.descent_vector.data@[v] is None ==> mesh.vertices@[v].is_border,
        chain_reaches_border(
            mesh,
            hm.descent_vector.data@,
            v,
            (hm.vertices.data@[v] + 1) as nat,
        ),
    decreases hm.vertices.data@[v],
{
    let d = hm.vertices.data@;
    if !mesh.vertices@[v].is_border {
        assert(d[v] != SENTINEL);
        let j = choose|j: int|
            0 <= j < mesh.vertices@[v].neighbors@.len() && d[#[trigger] mesh.vertices@[v].neighbors@[j].0 as int] + 1 <= d[v];
        lemma_descent_props(mesh, d, v);
        match spec_descent(mesh, d, v) {
            Option::None => {
                assert(d[mesh.vertices@[v].neighbors@[j].0 as int] >= d[v]);
                assert(false);
            },
            Option::Some(s) => {
                let t = s.towards.0 as int;
                assert(d[t] < d[v]);
                lemma_descent_chain_reaches_border(mesh, hm, t);
                lemma_chain_fuel_mono(
                    mesh,
                    hm.descent_vector.data@,
                    t,
                    (d[t] + 1) as nat,
                    d[v] as nat,
                );
            },
        }
    }
}

/// A walk along mesh neighbors ending on the border.
pub open spec fn is_nbr_path(mesh: PolyMap, p: Seq<int>) -> bool {
    &&& p.len() >= 1
    &&& forall|i: int| 0 <= i < p.len() ==> 0 <= #[trigger] p[i] < mesh.nv()
    &&& forall|i: int|
        0 <= i < p.len() - 1 ==> exists|j: int|
            0 <= j < mesh.vertices@[#[trigger] p[i]].neighbors@.len()
                && mesh.vertices@[p[i]].neighbors@[j].0 == p[i + 1]
    &&& mesh.vertices@[p[p.len() - 1]].is_border
}

/// Some bounded walk along neighbors connects `v` to the border.
pub open spec fn drains_to_border(mesh: PolyMap, v: int) -> bool {
    exists|p: Seq<int>|
        #[trigger] is_nbr_path(mesh, p) && p[0] == v && p.len() <= mesh.nv() + 1
}

proof fn lemma_scan_passthrough(mesh: PolyMap, h: Seq<i64>, w: Seq<i64>, v: int, j: int, cur: int)
    requires
        0 <= v < h.len(),
        0 <= j,
        h[v] < cur,
        pd_scan(mesh, h, w, v, j, cur) == cur,
    ensures
        forall|k: int|
            j <= k < mesh.vertices@[v].neighbors@.len() ==> cur <= w[#[trigger] mesh.vertices@[v].neighbors@[k].0 as int] + 1,
    decreases mesh.vertices@[v].neighbors@.len() - j,
{
    let nbrs = mesh.vertices@[v].neighbors@;
    if 0 <= j < nbrs.len() {
        let nw = w[nbrs[j].0 as int] as int;
        if h[v] >= nw + 1 {
            assert(false);
        } else if cur > nw + 1 && nw + 1 > h[v] {
            lemma_scan_bounds(mesh, h, w, v, j + 1, nw + 1);
            assert(false);
        } else {
            assert(cur <= nw + 1);
            lemma_scan_passthrough(mesh, h, w, v, j + 1, cur);
        }
    }
}

proof fn lemma_fixpoint_prefixes(mesh: PolyMap, h: Seq<i64>, w: Seq<i64>, k: int)
    requires
        pd_wf(mesh, h, w),
        pd_sweep(mesh, h, w) == w,
        0 <= k <= w.len(),
    ensures
        pd_sweep_upto(mesh, h, w, k) == w,
{
    lemma_sweep_upto_monotone(mesh, h, w, k, w.len() as int);
    lemma_sweep_upto_bounds(mesh, h, w, k);
    let mid = pd_sweep_upto(mesh, h, w, k);
    assert forall|u: int| 0 <= u < w.len() implies mid[u] == w[u] by {
        assert(pd_sweep(mesh, h, w)[u] <= mid[u]);
        assert(mid[u] <= w[u]);
    }
    assert(mid =~= w);
}

/// At a fixpoint of the sweep, every unreleased vertex sits at most one
/// step above each of its neighbors.
proof fn lemma_fixpoint_step(mesh: PolyMap, h: Seq<i64>, w: Seq<i64>, v: int)
    requires
        pd_wf(mesh, h, w),
        pd_sweep(mesh, h, w) == w,
        0 <= v < w.len(),
    ensures
        w[v] == h[v] || forall|k: int|
            0 <= k < mesh.vertices@[v].neighbors@.len() ==> w[v] <= w[#[trigger] mesh.vertices@[v].neighbors@[k].0 as int] + 1,
{
    if w[v] != h[v] {
        lemma_fixpoint_prefixes(mesh, h, w, v);
        lemma_fixpoint_prefixes(mesh, h, w, v + 1);
        let r = pd_scan(mesh, h, w, v, 0, w[v] as int);
        assert(pd_sweep_upto(mesh, h, w, v + 1) == pd_sweep_upto(mesh, h, w, v).update(
            v,
            r as i64,
        ));
        assert(w[v] == w.update(v, r as i64)[v]);
        lemma_scan_bounds(mesh, h, w, v, 0, w[v] as int);
        assert(r == w[v] as int);
        lemma_scan_passthrough(mesh, h, w, v, 0, w[v] as int);
    }
}

proof fn lemma_path_bound(mesh: PolyMap, h: Seq<i64>, w: Seq<i64>, p: Seq<int>, i: int)
    requires
        pd_wf(mesh, h, w),
        pd_sweep(mesh, h, w) == w,
        forall|u: int| 0 <= u < h.len() ==> #[trigger] h[u] <= crate::SCALE,
        forall|u: int|
            0 <= u < w.len() && mesh.vertices@[u].is_border ==> #[trigger] w[u] == h[u],
        is_nbr_path(mesh, p),
        0 <= i < p.len(),
    ensures
        w[p[i]] <= crate::SCALE + p.len() - 1 - i,
    decreases p.len() - i,
{
    let v = p[i];
    if i == p.len() - 1 {
        assert(mesh.vertices@[v].is_border);
    } else {
        lemma_path_bound(mesh, h, w, p, i + 1);
        lemma_fixpoint_step(mesh, h, w, v);
        if w[v] != h[v] {
            let j = choose|j: int|
                0 <= j < mesh.vertices@[v].neighbors@.len() && mesh.vertices@[v].neighbors@[j].0
                    == p[i + 1];
            assert(w[v] <= w[mesh.vertices@[v].neighbors@[j].0 as int] + 1);
        }
    }
}

/// After depression filling of a field bounded by the normalized scale,
/// every vertex with a bounded neighbor walk to the border ends below the
/// fill ceiling: a drained region never keeps the sentinel.
pub proof fn lemma_filled_below_ceiling(mesh: PolyMap, h: Seq<i64>, v: int)
    requires
        pd_wf(mesh, h, pd_init(mesh, h)),
        forall|u: int| 0 <= u < h.len() ==> #[trigger] h[u] <= crate::SCALE,
        0 <= v < mesh.nv(),
        drains_to_border(mesh, v),
    ensures
        pd_limit(mesh, h, pd_init(mesh, h))[v] != SENTINEL,
{
    let w0 = pd_init(mesh, h);
    let w = pd_limit(mesh, h, w0);
    assert(pd_inv(mesh, w0)) by {
        assert forall|u: int|
            0 <= u < w0.len() && !mesh.vertices@[u].is_border
                && #[trigger] w0[u] != SENTINEL implies exists|j: int|
            0 <= j < mesh.vertices@[u].neighbors@.len() && w0[#[trigger] mesh.vertices@[u].neighbors@[j].0 as int] + 1 <= w0[u] by {
            assert(w0[u] == SENTINEL);
        }
    }
    lemma_limit_facts(mesh, h, w0);
    assert forall|u: int|
        0 <= u < w.len() && mesh.vertices@[u].is_border implies #[trigger] w[u] == h[u] by {
        assert(w0[u] == h[u]);
    }
    let p = choose|p: Seq<int>|
        #[trigger] is_nbr_path(mesh, p) && p[0] == v && p.len() <= mesh.nv() + 1;
    lemma_path_bound(mesh, h, w, p, 0);
    assert(w[v] <= crate::SCALE + mesh.nv());
    assert(crate::SCALE + mesh.nv() < SENTINEL);
}

/// The descending-elevation order is a topological order of the descent
/// graph: every descent edge drops strictly in elevation, and its source
/// stands before its target in the schedule.
pub proof fn lemma_schedule_topological(mesh: PolyMap, hm: HeightMap, i: int, j: int)
    requires
        mesh.wf(),
        hm.wf(mesh),
        0 <= i < hm.downhill@.len(),
        0 <= j < hm.downhill@.len(),
        hm.descent_vector.data@[hm.downhill@[i].0 as int] is Some,
        hm.downhill@[j].0 == hm.descent_vector.data@[hm.downhill@[i].0 as int]->Some_0.towards.0,
    ensures
        hm.vertices.data@[hm.downhill@[i].0 as int] > hm.vertices.data@[hm.downhill@[j].0 as int],
        i < j,
{
    let d = hm.vertices.data@;
    let order = crate::fields::vids(hm.downhill@);
    crate::fields::lemma_sort_desc_facts(d);
    let u = hm.downhill@[i].0 as int;
    let t = hm.downhill@[j].0 as int;
    assert(order[i] == hm.downhill@[i].0);
    assert(order.contains(order[i]));
    assert(u < d.len());
    lemma_descent_props(mesh, d, u);
    assert(d[t] < d[u]);
    if j == i {
        assert(false);
    } else if j < i {
        assert(crate::fields::sorts_before(d, order[j] as int, order[i] as int));
        assert(false);
    }
}

/// Facts about the flow schedule of a built heightmap: every pair is a
/// strict descent between valid distinct vertices, every vertex forwards
/// at most once, a target never precedes its own forwarding, and the
/// vertices that never forward are exactly those without a descent vector.
pub proof fn lemma_flow_pairs_props(mesh: PolyMap, hm: HeightMap)
    requires
        mesh.wf(),
        hm.wf(mesh),
    ensures
        forall|k: int|
            0 <= k < flow_pairs(crate::fields::vids(hm.downhill@), hm.descent_vector.data@).len()
                ==> (#[trigger] flow_pairs(
                crate::fields::vids(hm.downhill@),
                hm.descent_vector.data@,
            )[k]).0 < mesh.nv() && flow_pairs(
                crate::fields::vids(hm.downhill@),
                hm.descent_vector.data@,
            )[k].1 < mesh.nv() && hm.vertices.data@[flow_pairs(
                crate::fields::vids(hm.downhill@),
                hm.descent_vector.data@,
            )[k].1 as int] < hm.vertices.data@[flow_pairs(
                crate::fields::vids(hm.downhill@),
                hm.descent_vector.data@,
            )[k].0 as int],
        forall|k1: int, k2: int|
            0 <= k1 < k2 < flow_pairs(
                crate::fields::vids(hm.downhill@),
                hm.descent_vector.data@,
            ).len() ==> crate::fields::sorts_before(
                hm.vertices.data@,
                (#[trigger] flow_pairs(
                    crate::fields::vids(hm.downhill@),
                    hm.descent_vector.data@,
                )[k1]).0 as int,
                (#[trigger] flow_pairs(
                    crate::fields::vids(hm.downhill@),
                    hm.descent_vector.data@,
                )[k2]).0 as int,
            ),
        forall|v: int|
            0 <= v < mesh.nv() ==> (crate::fields::is_source_upto(
                flow_pairs(crate::fields::vids(hm.downhill@), hm.descent_vector.data@),
                flow_pairs(crate::fields::vids(hm.downhill@), hm.descent_vector.data@).len() as int,
                v,
            ) <==> hm.descent_vector.data@[v] is Some),
{
    let d = hm.vertices.data@;
    let order = crate::fields::vids(hm.downhill@);
    crate::fields::lemma_sort_desc_facts(d);
    lemma_pairs_upto_props(mesh, hm, order.len() as int);
    let pairs = flow_pairs(order, hm.descent_vector.data@);
    assert forall|v: int|
        0 <= v < mesh.nv() implies (crate::fields::is_source_upto(
        pairs,
        pairs.len() as int,
        v,
    ) <==> hm.descent_vector.data@[v] is Some) by {
        if crate::fields::is_source_upto(pairs, pairs.len() as int, v) {
            let k = choose|k: int| 0 <= k < pairs.len() && #[trigger] pairs[k].0 == v;
            assert(hm.descent_vector.data@[v] is Some);
        }
        if hm.descent_vector.data@[v] is Some {
            assert(order.contains(v as usize)) by {
                assert(v < d.len());
            }
            let p = choose|p: int| 0 <= p < order.len() && order[p] == v as usize;
            lemma_pairs_source_of_order(mesh, hm, p + 1);
        }
    }
}

proof fn lemma_pairs_upto_props(mesh: PolyMap, hm: HeightMap, i: int)
    requires
        mesh.wf(),
        hm.wf(mesh),
        0 <= i <= crate::fields::vids(hm.downhill@).len(),
    ensures
        forall|k: int|
            0 <= k < pairs_upto(crate::fields::vids(hm.downhill@), hm.descent_vector.data@, i).len()
                ==> (#[trigger] pairs_upto(
                crate::fields::vids(hm.downhill@),
                hm.descent_vector.data@,
                i,
            )[k]).0 < mesh.nv() && pairs_upto(
                crate::fields::vids(hm.downhill@),
                hm.descent_vector.data@,
                i,
            )[k].1 < mesh.nv() && hm.vertices.data@[pairs_upto(
                crate::fields::vids(hm.downhill@),
                hm.descent_vector.data@,
                i,
            )[k].1 as int] < hm.vertices.data@[pairs_upto(
                crate::fields::vids(hm.downhill@),
                hm.descent_vector.data@,
                i,
            )[k].0 as int],
        forall|k: int|
            0 <= k < pairs_upto(crate::fields::vids(hm.downhill@), hm.descent_vector.data@, i).len()
                ==> exists|p: int|
                0 <= p < i && crate::fields::vids(hm.downhill@)[p] == (#[trigger] pairs_upto(
                    crate::fields::vids(hm.downhill@),
                    hm.descent_vector.data@,
                    i,
                )[k]).0,
        forall|k: int|
            0 <= k < pairs_upto(crate::fields::vids(hm.downhill@), hm.descent_vector.data@, i).len()
                ==> hm.descent_vector.data@[(#[trigger] pairs_upto(
                crate::fields::vids(hm.downhill@),
                hm.descent_vector.data@,
                i,
            )[k]).0 as int] is Some,
        forall|k1: int, k2: int|
            0 <= k1 < k2 < pairs_upto(
                crate::fields::vids(hm.downhill@),
                hm.descent_vector.data@,
                i,
            ).len() ==> crate::fields::sorts_before(
                hm.vertices.data@,
                (#[trigger] pairs_upto(
                    crate::fields::vids(hm.downhill@),
                    hm.descent_vector.data@,
                    i,
                )[k1]).0 as int,
                (#[trigger] pairs_upto(
                    crate::fields::vids(hm.downhill@),
                    hm.descent_vector.data@,
                    i,
                )[k2]).0 as int,
            ),
    decreases i,
{
    let d = hm.vertices.data@;
    let order = crate::fields::vids(hm.downhill@);
    let desc = hm.descent_vector.data@;
    crate::fields::lemma_sort_desc_facts(d);
    if i > 0 {
        lemma_pairs_upto_props(mesh, hm, i - 1);
        let prev = pairs_upto(order, desc, i - 1);
        let u = order[i - 1] as int;
        assert(order.contains(order[i - 1]));
        assert(u < d.len());
        match desc[u] {
            Option::None => {},
            Option::Some(s) => {
                lemma_descent_props(mesh, d, u);
                let cur = pairs_upto(order, desc, i);
                assert(cur == prev + seq![(order[i - 1], s.towards.0)]);
                assert forall|k1: int, k2: int|
                    0 <= k1 < k2 < cur.len() implies crate::fields::sorts_before(
                    d,
                    (#[trigger] cur[k1]).0 as int,
                    (#[trigger] cur[k2]).0 as int,
                ) by {
                    if k2 < prev.len() {
                        assert(cur[k1] == prev[k1] && cur[k2] == prev[k2]);
                    } else {
                        assert(cur[k2] == (order[i - 1], s.towards.0));
                        assert(cur[k1] == prev[k1]);
                        let p = choose|p: int|
                            0 <= p < i - 1 && order[p] == (#[trigger] prev[k1]).0;
                        assert(crate::fields::sorts_before(d, order[p] as int, order[i - 1] as int));
                    }
                }
            },
        }
    }
}

proof fn lemma_pairs_source_of_order(mesh: PolyMap, hm: HeightMap, i: int)
    requires
        mesh.wf(),
        hm.wf(mesh),
        0 < i <= crate::fields::vids(hm.downhill@).len(),
        hm.descent_vector.data@[crate::fields::vids(hm.downhill@)[i - 1] as int] is Some,
    ensures
        crate::fields::is_source_upto(
            flow_pairs(crate::fields::vids(hm.downhill@), hm.descent_vector.data@),
            flow_pairs(crate::fields::vids(hm.downhill@), hm.descent_vector.data@).len() as int,
            crate::fields::vids(hm.downhill@)[i - 1] as int,
        ),
{
    let order = crate::fields::vids(hm.downhill@);
    let desc = hm.descent_vector.data@;
    lemma_pairs_prefix(order, desc, i, order.len() as int);
    let p = pairs_upto(order, desc, i);
    assert(p.len() > 0 && p.last().0 == order[i - 1]) by {
        match desc[order[i - 1] as int] {
            Option::None => {
                assert(false);
            },
            Option::Some(s) => {},
        }
    }
    let full = flow_pairs(order, desc);
    assert(full[p.len() - 1] == p[p.len() - 1]);
}

/// The schedule built from a longer prefix of the order extends the one
/// built from a shorter prefix.
proof fn lemma_pairs_prefix(order: Seq<usize>, desc: Seq<Option<Slope>>, i: int, j: int)
    requires
        0 <= i <= j <= order.len(),
    ensures
        pairs_upto(order, desc, i).len() <= pairs_upto(order, desc, j).len(),
        forall|k: int|
            0 <= k < pairs_upto(order, desc, i).len() ==> #[trigger] pairs_upto(order, desc, j)[k]
                == pairs_upto(order, desc, i)[k],
    decreases j - i,
{
    if i < j {
        lemma_pairs_prefix(order, desc, i, j - 1);
    }
}

} // verus!
