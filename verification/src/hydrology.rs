//! Drainage: per-vertex rainfall, flux accumulated along the descent
//! graph in descending-elevation order, per-edge flux, river-edge
//! thresholding and maximal river paths from sources to sinks.
//!
//! Flux accumulation replays the heightmap's descending schedule through
//! `flow`, which is valid because descent edges drop strictly in elevation;
//! the accumulation is conservative: the mass held by the vertices that
//! never forward (those without a descent) is exactly the total rainfall.

use vstd::prelude::*;

use crate::fields::flow_spec;
use crate::fields::ints;
use crate::fields::is_source_upto;
use crate::fields::sum_unforwarded;
use crate::fields::CellData;
use crate::fields::EdgeData;
use crate::fields::VertexData;
use crate::fields::FLOW_INPUT_LIMIT;
use crate::fields::FLOW_OUTPUT_LIMIT;
use crate::generators::scale_down;
use crate::generators::FieldFn;
use crate::heightmap::flow_pairs;
use crate::heightmap::HeightMap;
use crate::heightmap::Slope;
use crate::mesh::EdgeId;
use crate::mesh::PolyMap;
use crate::mesh::VertexId;

verus! {

/// Clamp of a rainfall value into the admissible innate band.
pub open spec fn rain_clamp(x: int) -> i64 {
    if x < 0 {
        0i64
    } else if x > FLOW_INPUT_LIMIT {
        FLOW_INPUT_LIMIT as i64
    } else {
        x as i64
    }
}

/// Accumulates per-vertex rainfall before the drainage pass.
pub struct HydrologyBuilder {
    pub corner_rainfall: VertexData<i64>,
}

impl HydrologyBuilder {
    pub fn new(mesh: &PolyMap) -> (r: Self)
        ensures
            r.corner_rainfall.data@.len() == mesh.nv(),
            forall|v: int| 0 <= v < r.corner_rainfall.data@.len() ==> r.corner_rainfall.data@[v] == 0i64,
    {
        HydrologyBuilder { corner_rainfall: VertexData::fill(mesh, 0) }
    }

    /// Adds height-proportional rainfall: `coeff` thousandths of each
    /// vertex's elevation, clamped into the innate band.
    pub fn scale_by_height(&mut self, mesh: &PolyMap, hm: &HeightMap, coeff: i64)
        requires
            mesh.wf(),
            hm.wf(*mesh),
            old(self).corner_rainfall.data@.len() == mesh.nv(),
            0 <= coeff <= crate::generators::INTENSITY_LIMIT,
            forall|v: int|
                0 <= v < old(self).corner_rainfall.data@.len() ==> 0 <= #[trigger] old(self).corner_rainfall.data@[v] <= FLOW_INPUT_LIMIT,
        ensures
            final(self).corner_rainfall.data@.len() == old(self).corner_rainfall.data@.len(),
            forall|v: int|
                0 <= v < final(self).corner_rainfall.data@.len()
                    ==> final(self).corner_rainfall.data@[v] == rain_clamp(
                    old(self).corner_rainfall.data@[v] + scale_down(
                        hm.vertices.data@[v] * coeff,
                    ),
                ),
            forall|v: int|
                0 <= v < final(self).corner_rainfall.data@.len() ==> 0 <= #[trigger] final(self).corner_rainfall.data@[v] <= FLOW_INPUT_LIMIT,
    {
        let ghost d0 = self.corner_rainfall.data@;
        let n = self.corner_rainfall.len();
        let mut out: Vec<i64> = Vec::new();
        let mut v: usize = 0;
        while v < n
            invariant
                v <= n,
                n == d0.len(),
                d0 == self.corner_rainfall.data@,
                n == mesh.nv(),
                mesh.wf(),
                hm.wf(*mesh),
                0 <= coeff <= crate::generators::INTENSITY_LIMIT,
                forall|u: int| 0 <= u < n ==> 0 <= #[trigger] d0[u] <= FLOW_INPUT_LIMIT,
                out@.len() == v,
                forall|u: int|
                    0 <= u < v ==> out@[u] == rain_clamp(
                        d0[u] + scale_down(hm.vertices.data@[u] * coeff),
                    ),
                forall|u: int| 0 <= u < v ==> 0 <= #[trigger] out@[u] <= FLOW_INPUT_LIMIT,
            decreases n - v,
        {
            let h = hm.vertex_height(VertexId(v));
            let base = self.corner_rainfall.data[v];
            proof {
                assert(0 <= h * coeff <= crate::heightmap::SENTINEL as int
                    * crate::generators::INTENSITY_LIMIT as int) by (nonlinear_arith)
                    requires
                        0 <= h <= crate::heightmap::SENTINEL,
                        0 <= coeff <= crate::generators::INTENSITY_LIMIT,
                ;
            }
            let scaled: i64 = h * coeff / crate::SCALE;
            let total: i64 = base + scaled;
            let clamped: i64 = if total < 0 {
                0
            } else if total > FLOW_INPUT_LIMIT {
                FLOW_INPUT_LIMIT
            } else {
                total
            };
            out.push(clamped);
            v = v + 1;
        }
        self.corner_rainfall.data = out;
    }

    /// Adds a scalar field (a noise term) onto the rainfall, clamped into
    /// the innate band.
    pub fn add_field(&mut self, mesh: &PolyMap, f: &FieldFn, intensity: i64)
        requires
            mesh.wf(),
            f.wf(),
            old(self).corner_rainfall.data@.len() == mesh.nv(),
            -crate::generators::INTENSITY_LIMIT <= intensity <= crate::generators::INTENSITY_LIMIT,
            forall|v: int|
                0 <= v < old(self).corner_rainfall.data@.len() ==> 0 <= #[trigger] old(self).corner_rainfall.data@[v] <= FLOW_INPUT_LIMIT,
        ensures
            final(self).corner_rainfall.data@.len() == old(self).corner_rainfall.data@.len(),
            forall|v: int|
                0 <= v < final(self).corner_rainfall.data@.len()
                    ==> final(self).corner_rainfall.data@[v] == rain_clamp(
                    old(self).corner_rainfall.data@[v] + scale_down(
                        f.spec_value(mesh.vertices@[v].x, mesh.vertices@[v].y) * intensity,
                    ),
                ),
            forall|v: int|
                0 <= v < final(self).corner_rainfall.data@.len() ==> 0 <= #[trigger] final(self).corner_rainfall.data@[v] <= FLOW_INPUT_LIMIT,
    {
        let ghost d0 = self.corner_rainfall.data@;
        let n = self.corner_rainfall.len();
        let mut out: Vec<i64> = Vec::new();
        let mut v: usize = 0;
        while v < n
            invariant
                v <= n,
                n == d0.len(),
                d0 == self.corner_rainfall.data@,
                n == mesh.nv(),
                mesh.wf(),
                f.wf(),
                -crate::generators::INTENSITY_LIMIT <= intensity
                    <= crate::generators::INTENSITY_LIMIT,
                forall|u: int| 0 <= u < n ==> 0 <= #[trigger] d0[u] <= FLOW_INPUT_LIMIT,
                out@.len() == v,
                forall|u: int|
                    0 <= u < v ==> out@[u] == rain_clamp(
                        d0[u] + scale_down(
                            f.spec_value(mesh.vertices@[u].x, mesh.vertices@[u].y) * intensity,
                        ),
                    ),
                forall|u: int| 0 <= u < v ==> 0 <= #[trigger] out@[u] <= FLOW_INPUT_LIMIT,
            decreases n - v,
        {
            proof {
                assert(mesh.wf_vertex(v as int));
            }
            let vt = mesh.vertex(VertexId(v));
            let fv = f.value(vt.x, vt.y);
            proof {
                crate::generators::lemma_value_times_intensity(fv as int, intensity as int);
            }
            let prod: i64 = fv * intensity;
            let scaled: i64 = if prod >= 0 {
                prod / crate::SCALE
            } else {
                -((-prod) / crate::SCALE)
            };
            let base = self.corner_rainfall.data[v];
            let total: i64 = base + scaled;
            let clamped: i64 = if total < 0 {
                0
            } else if total > FLOW_INPUT_LIMIT {
                FLOW_INPUT_LIMIT
            } else {
                total
            };
            out.push(clamped);
            v = v + 1;
        }
        self.corner_rainfall.data = out;
    }
}

/// Per-edge flux: the accumulated flux of whichever endpoints descend
/// across the edge (none, one, or in degenerate flat cases both).
pub open spec fn edge_flux_spec(
    mesh: PolyMap,
    desc: Seq<Option<Slope>>,
    vf: Seq<i64>,
    e: int,
) -> int {
    let a = mesh.edges@[e].min.0 as int;
    let b = mesh.edges@[e].max.0 as int;
    let fa = match desc[a] {
        Option::None => 0,
        Option::Some(s) => if s.towards.0 as int == b {
            vf[a] as int
        } else {
            0
        },
    };
    let fb = match desc[b] {
        Option::None => 0,
        Option::Some(s) => if s.towards.0 as int == a {
            vf[b] as int
        } else {
            0
        },
    };
    fa + fb
}

/// A river edge: flux above the cutoff, and the owning cells not all
/// water.
pub open spec fn river_edge_spec(
    mesh: PolyMap,
    water: Seq<bool>,
    ef: Seq<i64>,
    cutoff: i64,
    e: int,
) -> bool {
    ef[e] > cutoff && !(forall|k: int|
        0 <= k < mesh.edges@[e].cells@.len() ==> water[#[trigger] mesh.edges@[e].cells@[k].0 as int])
}

/// The strictly higher endpoint of edge `e`, when the endpoints differ.
pub open spec fn high_corner_spec(mesh: PolyMap, heights: Seq<i64>, e: int) -> Option<VertexId> {
    let a = mesh.edges@[e].min;
    let b = mesh.edges@[e].max;
    if heights[a.0 as int] > heights[b.0 as int] {
        Some(a)
    } else if heights[b.0 as int] > heights[a.0 as int] {
        Some(b)
    } else {
        Option::<VertexId>::None
    }
}

/// `v` has some incident river edge.
pub open spec fn has_river_edge(mesh: PolyMap, riv: Seq<bool>, v: int) -> bool {
    exists|j: int|
        0 <= j < mesh.vertices@[v].edges@.len() && riv[#[trigger] mesh.vertices@[v].edges@[j].0 as int]
}

/// River edge `e` starts a river: its higher endpoint exists and has no
/// other incident river edge.
pub open spec fn edge_starts_river(mesh: PolyMap, heights: Seq<i64>, riv: Seq<bool>, e: int) -> bool {
    riv[e] && match high_corner_spec(mesh, heights, e) {
        Option::None => false,
        Option::Some(top) => forall|j: int|
            0 <= j < mesh.vertices@[top.0 as int].edges@.len() && #[trigger] mesh.vertices@[top.0 as int].edges@[j].0
                != e ==> !riv[mesh.vertices@[top.0 as int].edges@[j].0 as int],
    }
}

/// River sources found by scanning the first `e` edges in index order.
pub open spec fn sources_upto(mesh: PolyMap, heights: Seq<i64>, riv: Seq<bool>, e: int) -> Seq<
    VertexId,
>
    decreases e,
{
    if e <= 0 {
        Seq::empty()
    } else {
        let prev = sources_upto(mesh, heights, riv, e - 1);
        if edge_starts_river(mesh, heights, riv, e - 1) {
            prev + seq![high_corner_spec(mesh, heights, e - 1)->Some_0]
        } else {
            prev
        }
    }
}

/// The descent structure river walks rely on: every descent edge points at
/// a valid, strictly lower vertex, and heights do not go below zero.
pub open spec fn walk_wf(mesh: PolyMap, desc: Seq<Option<Slope>>, heights: Seq<i64>) -> bool {
    &&& heights.len() == mesh.nv()
    &&& desc.len() == mesh.nv()
    &&& forall|u: int| 0 <= u < heights.len() ==> #[trigger] heights[u] >= 0
    &&& forall|u: int|
        0 <= u < desc.len() ==> match #[trigger] desc[u] {
            Option::None => true,
            Option::Some(s) => s.towards.0 < mesh.nv() && heights[s.towards.0 as int] < heights[u],
        }
}

/// The river path from `v`: follow descent vectors, keeping vertices for
/// as long as they touch some river edge.
pub open spec fn river_walk(
    mesh: PolyMap,
    desc: Seq<Option<Slope>>,
    heights: Seq<i64>,
    riv: Seq<bool>,
    v: int,
) -> Seq<VertexId>
    decreases heights[v],
    when walk_wf(mesh, desc, heights) && 0 <= v < mesh.nv()
    via river_walk_dec
{
    if !has_river_edge(mesh, riv, v) {
        Seq::empty()
    } else {
        match desc[v] {
            Option::None => seq![VertexId(v as usize)],
            Option::Some(s) => seq![VertexId(v as usize)] + river_walk(
                mesh,
                desc,
                heights,
                riv,
                s.towards.0 as int,
            ),
        }
    }
}

#[via_fn]
proof fn river_walk_dec(
    mesh: PolyMap,
    desc: Seq<Option<Slope>>,
    heights: Seq<i64>,
    riv: Seq<bool>,
    v: int,
) {
}

/// A maximal river path: an ordered vertex run from a source down to the
/// last vertex that still touches a river edge.
pub struct RiverPath {
    pub path: Vec<VertexId>,
}

impl RiverPath {
    /// The first vertex of the path.
    pub fn source(&self) -> (r: VertexId)
        requires
            self.path@.len() > 0,
        ensures
            r == self.path@[0],
    {
        self.path[0]
    }

    /// The last vertex of the path.
    pub fn sink(&self) -> (r: VertexId)
        requires
            self.path@.len() > 0,
        ensures
            r == self.path@[self.path@.len() - 1],
    {
        self.path[self.path.len() - 1]
    }

    pub fn corners(&self) -> (r: &Vec<VertexId>)
        ensures
            r@ == self.path@,
    {
        &self.path
    }
}

/// The river network: per-edge membership flags and the maximal paths.
pub struct Rivers {
    pub edge_is_river: EdgeData<bool>,
    pub paths: Vec<RiverPath>,
}

impl Rivers {
    /// What `compute` establishes: membership flags decided edge by edge,
    /// and one maximal walk per river source found in edge index order.
    pub open spec fn wf(
        self,
        mesh: PolyMap,
        desc: Seq<Option<Slope>>,
        heights: Seq<i64>,
        water: Seq<bool>,
        ef: Seq<i64>,
        cutoff: i64,
    ) -> bool {
        &&& self.edge_is_river.data@.len() == mesh.ne()
        &&& forall|e: int|
            0 <= e < mesh.ne() ==> #[trigger] self.edge_is_river.data@[e] == river_edge_spec(
                mesh,
                water,
                ef,
                cutoff,
                e,
            )
        &&& self.paths@.len() == sources_upto(
            mesh,
            heights,
            self.edge_is_river.data@,
            mesh.ne(),
        ).len()
        &&& forall|k: int|
            0 <= k < self.paths@.len() ==> (#[trigger] self.paths@[k]).path@ == river_walk(
                mesh,
                desc,
                heights,
                self.edge_is_river.data@,
                sources_upto(mesh, heights, self.edge_is_river.data@, mesh.ne())[k].0 as int,
            )
    }

    pub fn new() -> (r: Self)
        ensures
            r.edge_is_river.data@.len() == 0,
            r.paths@.len() == 0,
    {
        Rivers { edge_is_river: EdgeData::empty_shell(), paths: Vec::new() }
    }

    pub fn is_segment(&self, edge: EdgeId) -> (r: bool)
        requires
            edge.0 < self.edge_is_river.data@.len(),
        ensures
            r == self.edge_is_river.data@[edge.0 as int],
    {
        self.edge_is_river.data[edge.0]
    }

    /// True when some river path starts at this vertex.
    pub fn is_source(&self, corner: VertexId) -> (r: bool)
        requires
            forall|k: int| 0 <= k < self.paths@.len() ==> (#[trigger] self.paths@[k]).path@.len() > 0,
        ensures
            r == exists|k: int|
                0 <= k < self.paths@.len() && (#[trigger] self.paths@[k]).path@[0].0 == corner.0,
    {
        let n = self.paths.len();
        let mut k: usize = 0;
        while k < n
            invariant
                k <= n,
                n == self.paths@.len(),
                forall|p: int| 0 <= p < n ==> (#[trigger] self.paths@[p]).path@.len() > 0,
                forall|p: int| 0 <= p < k ==> (#[trigger] self.paths@[p]).path@[0].0 != corner.0,
            decreases n - k,
        {
            if self.paths[k].path[0].0 == corner.0 {
                return true;
            }
            k = k + 1;
        }
        false
    }

    /// True when some river path ends at this vertex.
    pub fn is_sink(&self, corner: VertexId) -> (r: bool)
        requires
            forall|k: int| 0 <= k < self.paths@.len() ==> (#[trigger] self.paths@[k]).path@.len() > 0,
        ensures
            r == exists|k: int|
                0 <= k < self.paths@.len() && (#[trigger] self.paths@[k]).path@.last().0 == corner.0,
    {
        let n = self.paths.len();
        let mut k: usize = 0;
        while k < n
            invariant
                k <= n,
                n == self.paths@.len(),
                forall|p: int| 0 <= p < n ==> (#[trigger] self.paths@[p]).path@.len() > 0,
                forall|p: int| 0 <= p < k ==> (#[trigger] self.paths@[p]).path@.last().0 != corner.0,
            decreases n - k,
        {
            let plen = self.paths[k].path.len();
            if self.paths[k].path[plen - 1].0 == corner.0 {
                return true;
            }
            k = k + 1;
        }
        false
    }

    pub fn paths(&self) -> (r: &Vec<RiverPath>)
        ensures
            r@ == self.paths@,
    {
        &self.paths
    }
}

/// A built heightmap satisfies the walk structure: descent targets are
/// valid and strictly lower.
pub proof fn lemma_hm_walk_wf(mesh: PolyMap, hm: HeightMap)
    requires
        mesh.wf(),
        hm.wf(mesh),
    ensures
        walk_wf(mesh, hm.descent_vector.data@, hm.vertices.data@),
{
    let d = hm.vertices.data@;
    assert forall|u: int|
        0 <= u < hm.descent_vector.data@.len() implies match #[trigger] hm.descent_vector.data@[u] {
        Option::None => true,
        Option::Some(s) => s.towards.0 < mesh.nv() && d[s.towards.0 as int] < d[u],
    } by {
        crate::heightmap::lemma_descent_props(mesh, d, u);
    }
}

fn has_river_edge_exec(mesh: &PolyMap, riv: &Vec<bool>, v: usize) -> (r: bool)
    requires
        mesh.wf(),
        v < mesh.nv(),
        riv@.len() == mesh.ne(),
    ensures
        r == has_river_edge(*mesh, riv@, v as int),
{
    proof {
        assert(mesh.wf_vertex(v as int));
    }
    let vt = mesh.vertex(VertexId(v));
    let nk = vt.edges.len();
    let mut j: usize = 0;
    while j < nk
        invariant
            j <= nk,
            mesh.wf(),
            v < mesh.nv(),
            vt == mesh.vertices@[v as int],
            nk == vt.edges@.len(),
            riv@.len() == mesh.ne(),
            forall|k: int| 0 <= k < j ==> !riv@[#[trigger] vt.edges@[k].0 as int],
        decreases nk - j,
    {
        proof {
            assert(mesh.wf_vertex(v as int));
        }
        let eid = vt.edges[j].0;
        if riv[eid] {
            return true;
        }
        j = j + 1;
    }
    false
}

/// The downhill walk from one river source.
fn river_walk_exec(mesh: &PolyMap, hm: &HeightMap, riv: &Vec<bool>, source: VertexId) -> (r: Vec<
    VertexId,
>)
    requires
        mesh.wf(),
        hm.wf(*mesh),
        riv@.len() == mesh.ne(),
        source.0 < mesh.nv(),
    ensures
        r@ == river_walk(
            *mesh,
            hm.descent_vector.data@,
            hm.vertices.data@,
            riv@,
            source.0 as int,
        ),
{
    proof {
        lemma_hm_walk_wf(*mesh, *hm);
    }
    let ghost desc = hm.descent_vector.data@;
    let ghost heights = hm.vertices.data@;
    let ghost full = river_walk(*mesh, desc, heights, riv@, source.0 as int);
    let mut acc: Vec<VertexId> = Vec::new();
    let mut cur: usize = source.0;
    let mut done: bool = false;
    while !done
        invariant
            mesh.wf(),
            hm.wf(*mesh),
            desc == hm.descent_vector.data@,
            heights == hm.vertices.data@,
            riv@.len() == mesh.ne(),
            cur < mesh.nv(),
            walk_wf(*mesh, desc, heights),
            full == acc@ + (if done {
                Seq::<VertexId>::empty()
            } else {
                river_walk(*mesh, desc, heights, riv@, cur as int)
            }),
        decreases heights[cur as int] + if done {
            0int
        } else {
            1int
        },
    {
        let touched = has_river_edge_exec(mesh, riv, cur);
        if !touched {
            done = true;
            proof {
                assert(river_walk(*mesh, desc, heights, riv@, cur as int) =~= Seq::<
                    VertexId,
                >::empty());
                assert(full =~= acc@ + Seq::<VertexId>::empty());
            }
        } else {
            let ghost acc_pre = acc@;
            acc.push(VertexId(cur));
            let step = hm.descent_vector.data[cur];
            match step {
                Option::None => {
                    done = true;
                    proof {
                        assert(river_walk(*mesh, desc, heights, riv@, cur as int) =~= seq![
                            VertexId(cur),
                        ]);
                        assert(full =~= acc@ + Seq::<VertexId>::empty());
                    }
                },
                Option::Some(s) => {
                    proof {
                        crate::heightmap::lemma_descent_props(*mesh, heights, cur as int);
                        assert(river_walk(*mesh, desc, heights, riv@, cur as int) == seq![
                            VertexId(cur),
                        ] + river_walk(*mesh, desc, heights, riv@, s.towards.0 as int));
                        assert(full =~= acc@ + river_walk(
                            *mesh,
                            desc,
                            heights,
                            riv@,
                            s.towards.0 as int,
                        ));
                    }
                    cur = s.towards.0;
                },
            }
        }
    }
    proof {
        assert(full =~= acc@);
    }
    acc
}

impl Rivers {
    /// Derives the river network: flags each edge, finds the sources in
    /// edge index order, and walks each source downhill.
    pub fn compute(
        mesh: &PolyMap,
        hm: &HeightMap,
        cell_is_water: &crate::fields::CellData<bool>,
        edge_flux: &EdgeData<i64>,
        min_river_flux: i64,
    ) -> (r: Rivers)
        requires
            mesh.wf(),
            hm.wf(*mesh),
            cell_is_water.data@.len() == mesh.nc(),
            edge_flux.data@.len() == mesh.ne(),
        ensures
            r.wf(
                *mesh,
                hm.descent_vector.data@,
                hm.vertices.data@,
                cell_is_water.data@,
                edge_flux.data@,
                min_river_flux,
            ),
            forall|k: int| 0 <= k < r.paths@.len() ==> (#[trigger] r.paths@[k]).path@.len() > 0,
    {
        let ghost heights = hm.vertices.data@;
        let ne = mesh.num_edges();
        let mut riv: Vec<bool> = Vec::new();
        let mut e: usize = 0;
        while e < ne
            invariant
                e <= ne,
                ne == mesh.ne(),
                mesh.wf(),
                cell_is_water.data@.len() == mesh.nc(),
                edge_flux.data@.len() == mesh.ne(),
                riv@.len() == e,
                forall|ee: int|
                    0 <= ee < e ==> #[trigger] riv@[ee] == river_edge_spec(
                        *mesh,
                        cell_is_water.data@,
                        edge_flux.data@,
                        min_river_flux,
                        ee,
                    ),
            decreases ne - e,
        {
            proof {
                assert(mesh.wf_edge(e as int));
            }
            let ed = mesh.edge(EdgeId(e));
            let nk = ed.cells.len();
            let mut all_water: bool = true;
            let mut k: usize = 0;
            while k < nk
                invariant
                    k <= nk,
                    e < ne,
                    ne == mesh.ne(),
                    mesh.wf(),
                    ed == mesh.edges@[e as int],
                    nk == ed.cells@.len(),
                    cell_is_water.data@.len() == mesh.nc(),
                    all_water == forall|kk: int|
                        0 <= kk < k ==> cell_is_water.data@[#[trigger] ed.cells@[kk].0 as int],
                decreases nk - k,
            {
                proof {
                    assert(mesh.wf_edge(e as int));
                }
                let cid = ed.cells[k].0;
                if !cell_is_water.data[cid] {
                    all_water = false;
                }
                k = k + 1;
            }
            let flux = edge_flux.data[e];
            riv.push(flux > min_river_flux && !all_water);
            e = e + 1;
        }
        // Sources: for each river edge in index order, its higher endpoint
        // qualifies when no other incident edge is a river.
        let mut sources: Vec<VertexId> = Vec::new();
        let mut e2: usize = 0;
        while e2 < ne
            invariant
                e2 <= ne,
                ne == mesh.ne(),
                mesh.wf(),
                hm.wf(*mesh),
                heights == hm.vertices.data@,
                riv@.len() == ne,
                sources@ == sources_upto(*mesh, heights, riv@, e2 as int),
            decreases ne - e2,
        {
            proof {
                assert(mesh.wf_edge(e2 as int));
            }
            let ed = mesh.edge(EdgeId(e2));
            if riv[e2] {
                let top_opt = hm.edge_high_corner(ed);
                match top_opt {
                    Option::None => {},
                    Option::Some(top) => {
                        proof {
                            assert(mesh.wf_vertex(top.0 as int));
                        }
                        let vt = mesh.vertex(top);
                        let nk = vt.edges.len();
                        let mut sole: bool = true;
                        let mut j: usize = 0;
                        while j < nk
                            invariant
                                j <= nk,
                                e2 < ne,
                                ne == mesh.ne(),
                                mesh.wf(),
                                top.0 < mesh.nv(),
                                vt == mesh.vertices@[top.0 as int],
                                nk == vt.edges@.len(),
                                riv@.len() == ne,
                                sole == forall|jj: int|
                                    0 <= jj < j && #[trigger] vt.edges@[jj].0 != e2
                                        ==> !riv@[vt.edges@[jj].0 as int],
                            decreases nk - j,
                        {
                            proof {
                                assert(mesh.wf_vertex(top.0 as int));
                            }
                            let eid = vt.edges[j].0;
                            if eid != e2 && riv[eid] {
                                sole = false;
                            }
                            j = j + 1;
                        }
                        if sole {
                            sources.push(top);
                        }
                    },
                }
            }
            proof {
                assert(sources@ =~= sources_upto(*mesh, heights, riv@, (e2 + 1) as int));
            }
            e2 = e2 + 1;
        }
        // One maximal walk per source.
        let ghost riv_seq = riv@;
        let ghost all_sources = sources@;
        proof {
            lemma_sources_in_range(*mesh, heights, riv_seq, ne as int);
        }
        let ns = sources.len();
        let mut paths: Vec<RiverPath> = Vec::new();
        let mut k2: usize = 0;
        while k2 < ns
            invariant
                k2 <= ns,
                ns == all_sources.len(),
                all_sources == sources@,
                mesh.wf(),
                hm.wf(*mesh),
                heights == hm.vertices.data@,
                riv_seq == riv@,
                riv@.len() == ne,
                ne == mesh.ne(),
                all_sources == sources_upto(*mesh, heights, riv_seq, mesh.ne()),
                forall|k: int| 0 <= k < ns ==> #[trigger] all_sources[k].0 < mesh.nv(),
                paths@.len() == k2,
                forall|k: int|
                    0 <= k < k2 ==> (#[trigger] paths@[k]).path@ == river_walk(
                        *mesh,
                        hm.descent_vector.data@,
                        heights,
                        riv_seq,
                        all_sources[k].0 as int,
                    ),
                forall|k: int| 0 <= k < k2 ==> (#[trigger] paths@[k]).path@.len() > 0,
            decreases ns - k2,
        {
            let src = sources[k2];
            let walk = river_walk_exec(mesh, hm, &riv, src);
            proof {
                lemma_hm_walk_wf(*mesh, *hm);
                lemma_source_walk_nonempty(*mesh, *hm, riv_seq, mesh.ne(), k2 as int);
            }
            paths.push(RiverPath { path: walk });
            k2 = k2 + 1;
        }
        Rivers { edge_is_river: EdgeData { data: riv }, paths }
    }
}

/// The drainage product: innate rainfall, accumulated flux, per-edge flux
/// and the river network, all exact functions of the heightmap and the
/// water classification.
pub struct Hydrology {
    pub min_river_flux: i64,
    pub vertex_rainfall: VertexData<i64>,
    pub cell_rainfall: CellData<i64>,
    pub vertex_flux: VertexData<i64>,
    pub edge_flux: EdgeData<i64>,
    pub rivers: Rivers,
}

impl Hydrology {
    /// Everything `build` establishes: the flux is the flow fold of the
    /// rainfall over the descending schedule, the mass held by vertices
    /// without a descent equals the total rainfall, per-edge flux and the
    /// river network are decided pointwise.
    pub open spec fn wf(self, mesh: PolyMap, hm: HeightMap, water: Seq<bool>) -> bool {
        &&& self.vertex_rainfall.data@.len() == mesh.nv()
        &&& forall|v: int|
            0 <= v < mesh.nv() ==> 0 <= #[trigger] self.vertex_rainfall.data@[v]
                <= FLOW_INPUT_LIMIT
        &&& self.vertex_flux.data@.len() == mesh.nv()
        &&& ints(self.vertex_flux.data@) == flow_spec(
            ints(self.vertex_rainfall.data@),
            flow_pairs(crate::fields::vids(hm.downhill@), hm.descent_vector.data@),
            flow_pairs(crate::fields::vids(hm.downhill@), hm.descent_vector.data@).len() as int,
        )
        &&& forall|v: int|
            0 <= v < mesh.nv() ==> 0 <= #[trigger] self.vertex_flux.data@[v] <= FLOW_OUTPUT_LIMIT
        &&& sum_unforwarded(
            ints(self.vertex_flux.data@),
            flow_pairs(crate::fields::vids(hm.downhill@), hm.descent_vector.data@),
            flow_pairs(crate::fields::vids(hm.downhill@), hm.descent_vector.data@).len() as int,
            mesh.nv(),
        ) == sum_unforwarded(
            ints(self.vertex_rainfall.data@),
            flow_pairs(crate::fields::vids(hm.downhill@), hm.descent_vector.data@),
            0,
            mesh.nv(),
        )
        &&& self.cell_rainfall.data@.len() == mesh.nc()
        &&& forall|c: int|
            0 <= c < mesh.nc() ==> 0 <= #[trigger] self.cell_rainfall.data@[c]
                <= FLOW_OUTPUT_LIMIT
        &&& forall|c: int|
            0 <= c < mesh.nc() ==> #[trigger] self.cell_rainfall.data@[c]
                == crate::fields::corner_sum(
                mesh,
                self.vertex_rainfall.data@,
                c,
                mesh.cells@[c].corners@.len() as int,
            ) / (mesh.cells@[c].corners@.len() as int)
        &&& self.edge_flux.data@.len() == mesh.ne()
        &&& forall|e: int|
            0 <= e < mesh.ne() ==> #[trigger] self.edge_flux.data@[e] == edge_flux_spec(
                mesh,
                hm.descent_vector.data@,
                self.vertex_flux.data@,
                e,
            )
        &&& self.rivers.wf(
            mesh,
            hm.descent_vector.data@,
            hm.vertices.data@,
            water,
            self.edge_flux.data@,
            self.min_river_flux,
        )
        &&& forall|k: int|
            0 <= k < self.rivers.paths@.len() ==> (#[trigger] self.rivers.paths@[k]).path@.len() > 0
    }

    pub fn vertex_flux(&self, corner: VertexId) -> (r: i64)
        requires
            corner.0 < self.vertex_flux.data@.len(),
        ensures
            r == self.vertex_flux.data@[corner.0 as int],
    {
        self.vertex_flux.data[corner.0]
    }

    pub fn edge_flux(&self, edge: EdgeId) -> (r: i64)
        requires
            edge.0 < self.edge_flux.data@.len(),
        ensures
            r == self.edge_flux.data@[edge.0 as int],
    {
        self.edge_flux.data[edge.0]
    }

    pub fn cell_rainfall(&self, cell: crate::mesh::CellId) -> (r: i64)
        requires
            cell.0 < self.cell_rainfall.data@.len(),
        ensures
            r == self.cell_rainfall.data@[cell.0 as int],
    {
        self.cell_rainfall.data[cell.0]
    }

    pub fn rivers(&self) -> (r: &Rivers)
        ensures
            r == &self.rivers,
    {
        &self.rivers
    }
}

impl HydrologyBuilder {
    /// Freezes the rainfall into the drainage product: averages rainfall
    /// per cell, accumulates flux along the descending schedule, derives
    /// per-edge flux, and extracts the river network.
    pub fn build(
        self,
        mesh: &PolyMap,
        hm: &HeightMap,
        cell_is_water: &CellData<bool>,
        min_river_flux: i64,
    ) -> (r: Hydrology)
        requires
            mesh.wf(),
            hm.wf(*mesh),
            self.corner_rainfall.data@.len() == mesh.nv(),
            forall|v: int|
                0 <= v < self.corner_rainfall.data@.len() ==> 0
                    <= #[trigger] self.corner_rainfall.data@[v] <= FLOW_INPUT_LIMIT,
            cell_is_water.data@.len() == mesh.nc(),
        ensures
            r.wf(*mesh, *hm, cell_is_water.data@),
            r.vertex_rainfall.data@ == self.corner_rainfall.data@,
            r.min_river_flux == min_river_flux,
    {
        let ghost rain = self.corner_rainfall.data@;
        let cell_rainfall = CellData::vertex_average(mesh, &self.corner_rainfall);
        // Copy the rainfall, then accumulate it along the schedule.
        let n = self.corner_rainfall.len();
        let mut flux_data: Vec<i64> = Vec::new();
        let mut i: usize = 0;
        while i < n
            invariant
                i <= n,
                n == rain.len(),
                rain == self.corner_rainfall.data@,
                flux_data@.len() == i,
                forall|j: int| 0 <= j < i ==> #[trigger] flux_data@[j] == rain[j],
            decreases n - i,
        {
            flux_data.push(self.corner_rainfall.data[i]);
            i = i + 1;
        }
        proof {
            assert(flux_data@ =~= rain);
        }
        let mut vertex_flux = VertexData { data: flux_data };
        proof {
            crate::fields::lemma_sort_desc_facts(hm.vertices.data@);
            assert forall|k: int|
                0 <= k < hm.downhill@.len() implies #[trigger] hm.downhill@[k].0
                < hm.descent_vector.data@.len() by {
                assert(crate::fields::vids(hm.downhill@)[k] == hm.downhill@[k].0);
                assert(crate::fields::vids(hm.downhill@).contains(
                    crate::fields::vids(hm.downhill@)[k],
                ));
            }
        }
        let pairs = hm.downhill_flow();
        proof {
            crate::heightmap::lemma_flow_pairs_props(*mesh, *hm);
            let d = hm.vertices.data@;
            assert forall|k: int|
                0 <= k < pairs@.len() implies #[trigger] pairs@[k].0 < rain.len() && pairs@[k].1
                < rain.len() && pairs@[k].0 != pairs@[k].1 by {
                assert(d[pairs@[k].1 as int] < d[pairs@[k].0 as int]);
            }
            assert forall|k1: int, k2: int|
                0 <= k1 < k2 < pairs@.len() implies pairs@[k1].0 != pairs@[k2].0 by {
                assert(crate::fields::sorts_before(d, pairs@[k1].0 as int, pairs@[k2].0 as int));
            }
            assert forall|k1: int, k2: int|
                0 <= k2 <= k1 < pairs@.len() implies pairs@[k1].1 != pairs@[k2].0 by {
                if k2 < k1 {
                    assert(crate::fields::sorts_before(
                        d,
                        pairs@[k2].0 as int,
                        pairs@[k1].0 as int,
                    ));
                    assert(d[pairs@[k1].1 as int] < d[pairs@[k1].0 as int]);
                } else {
                    assert(d[pairs@[k1].1 as int] < d[pairs@[k1].0 as int]);
                }
            }
        }
        vertex_flux.flow(&pairs);
        // Per-edge flux from the descent directions across each edge.
        let ne = mesh.num_edges();
        let mut ef: Vec<i64> = Vec::new();
        let mut e: usize = 0;
        while e < ne
            invariant
                e <= ne,
                ne == mesh.ne(),
                mesh.wf(),
                hm.wf(*mesh),
                vertex_flux.data@.len() == mesh.nv(),
                forall|v: int|
                    0 <= v < mesh.nv() ==> 0 <= #[trigger] vertex_flux.data@[v]
                        <= FLOW_OUTPUT_LIMIT,
                ef@.len() == e,
                forall|ee: int|
                    0 <= ee < e ==> #[trigger] ef@[ee] == edge_flux_spec(
                        *mesh,
                        hm.descent_vector.data@,
                        vertex_flux.data@,
                        ee,
                    ),
            decreases ne - e,
        {
            proof {
                assert(mesh.wf_edge(e as int));
            }
            let ed = mesh.edge(EdgeId(e));
            let a = ed.min.0;
            let b = ed.max.0;
            let fa: i64 = if hm.is_descent(VertexId(a), VertexId(b)) {
                vertex_flux.data[a]
            } else {
                0
            };
            let fb: i64 = if hm.is_descent(VertexId(b), VertexId(a)) {
                vertex_flux.data[b]
            } else {
                0
            };
            ef.push(fa + fb);
            e = e + 1;
        }
        let edge_flux = EdgeData { data: ef };
        let rivers = Rivers::compute(mesh, hm, cell_is_water, &edge_flux, min_river_flux);
        Hydrology {
            min_river_flux,
            vertex_rainfall: self.corner_rainfall,
            cell_rainfall,
            vertex_flux,
            edge_flux,
            rivers,
        }
    }
}

/// Sum of the values at vertices without a descent vector, over indices
/// below `n`: the mass collected at the drainage terminals.
pub open spec fn sum_no_descent(d: Seq<int>, desc: Seq<Option<Slope>>, n: int) -> int
    decreases n,
{
    if n <= 0 {
        0
    } else {
        sum_no_descent(d, desc, n - 1) + if desc[n - 1] is None {
            d[n - 1]
        } else {
            0
        }
    }
}

/// Plain sum of the values at indices below `n`.
pub open spec fn sum_field(d: Seq<int>, n: int) -> int
    decreases n,
{
    if n <= 0 {
        0
    } else {
        sum_field(d, n - 1) + d[n - 1]
    }
}

proof fn lemma_sum_excl_congruence(
    d: Seq<int>,
    pairs: Seq<(usize, usize)>,
    upto: int,
    desc: Seq<Option<Slope>>,
    n: int,
)
    requires
        forall|v: int| 0 <= v < n ==> (is_source_upto(pairs, upto, v) <==> desc[v] is Some),
    ensures
        sum_unforwarded(d, pairs, upto, n) == sum_no_descent(d, desc, n),
    decreases n,
{
    if n > 0 {
        lemma_sum_excl_congruence(d, pairs, upto, desc, n - 1);
    }
}

proof fn lemma_sum_unforwarded_total(d: Seq<int>, pairs: Seq<(usize, usize)>, n: int)
    ensures
        sum_unforwarded(d, pairs, 0, n) == sum_field(d, n),
    decreases n,
{
    if n > 0 {
        lemma_sum_unforwarded_total(d, pairs, n - 1);
    }
}

/// Flux accumulation is conservative: the total flux held by the vertices
/// with no further descent equals the total rainfall entering the system.
pub proof fn lemma_flux_conservation(mesh: PolyMap, hm: HeightMap, hyd: Hydrology, water: Seq<bool>)
    requires
        mesh.wf(),
        hm.wf(mesh),
        hyd.wf(mesh, hm, water),
    ensures
        sum_no_descent(ints(hyd.vertex_flux.data@), hm.descent_vector.data@, mesh.nv())
            == sum_field(ints(hyd.vertex_rainfall.data@), mesh.nv()),
{
    let pairs = flow_pairs(crate::fields::vids(hm.downhill@), hm.descent_vector.data@);
    crate::heightmap::lemma_flow_pairs_props(mesh, hm);
    lemma_sum_excl_congruence(
        ints(hyd.vertex_flux.data@),
        pairs,
        pairs.len() as int,
        hm.descent_vector.data@,
        mesh.nv(),
    );
    lemma_sum_unforwarded_total(ints(hyd.vertex_rainfall.data@), pairs, mesh.nv());
}

/// Every source found by the scan is a valid vertex id.
proof fn lemma_sources_in_range(mesh: PolyMap, heights: Seq<i64>, riv: Seq<bool>, e: int)
    requires
        mesh.wf(),
        0 <= e <= mesh.ne(),
    ensures
        forall|k: int|
            0 <= k < sources_upto(mesh, heights, riv, e).len() ==> (#[trigger] sources_upto(
                mesh,
                heights,
                riv,
                e,
            )[k]).0 < mesh.nv(),
    decreases e,
{
    if e > 0 {
        lemma_sources_in_range(mesh, heights, riv, e - 1);
        let prev = sources_upto(mesh, heights, riv, e - 1);
        let cur = sources_upto(mesh, heights, riv, e);
        if edge_starts_river(mesh, heights, riv, e - 1) {
            assert(mesh.wf_edge(e - 1));
            let top = high_corner_spec(mesh, heights, e - 1)->Some_0;
            assert(top.0 < mesh.nv());
            assert forall|k: int| 0 <= k < cur.len() implies (#[trigger] cur[k]).0 < mesh.nv() by {
                if k < prev.len() {
                    assert(cur[k] == prev[k]);
                } else {
                    assert(cur[k] == top);
                }
            };
        }
    }
}

/// A river source touches a river edge, so its walk is not empty.
proof fn lemma_source_walk_nonempty(mesh: PolyMap, hm: HeightMap, riv: Seq<bool>, e: int, k: int)
    requires
        mesh.wf(),
        hm.wf(mesh),
        0 <= e <= mesh.ne(),
        0 <= k < sources_upto(mesh, hm.vertices.data@, riv, e).len(),
    ensures
        sources_upto(mesh, hm.vertices.data@, riv, e)[k].0 < mesh.nv(),
        river_walk(
            mesh,
            hm.descent_vector.data@,
            hm.vertices.data@,
            riv,
            sources_upto(mesh, hm.vertices.data@, riv, e)[k].0 as int,
        ).len() > 0,
    decreases e,
{
    let heights = hm.vertices.data@;
    let prev = sources_upto(mesh, heights, riv, e - 1);
    if e > 0 && k < prev.len() {
        lemma_source_walk_nonempty(mesh, hm, riv, e - 1, k);
        assert(sources_upto(mesh, heights, riv, e)[k] == prev[k]);
    } else {
        assert(e > 0 && edge_starts_river(mesh, heights, riv, e - 1));
        assert(mesh.wf_edge(e - 1));
        let top = high_corner_spec(mesh, heights, e - 1)->Some_0;
        assert(sources_upto(mesh, heights, riv, e)[k] == top);
        assert(top.0 < mesh.nv());
        // The incidence invariant lists the starting edge at its higher
        // endpoint, so the source has a river edge and its walk begins.
        assert(mesh.edge_listed_at(mesh.edges@[e - 1].min.0 as int, e - 1));
        assert(mesh.edge_listed_at(mesh.edges@[e - 1].max.0 as int, e - 1));
        assert(has_river_edge(mesh, riv, top.0 as int)) by {
            let j = choose|j: int|
                0 <= j < mesh.vertices@[top.0 as int].edges@.len()
                    && #[trigger] mesh.vertices@[top.0 as int].edges@[j].0 == e - 1;
            assert(riv[mesh.vertices@[top.0 as int].edges@[j].0 as int]);
        }
        lemma_hm_walk_wf(mesh, hm);
        assert(river_walk(mesh, hm.descent_vector.data@, heights, riv, top.0 as int).len() > 0);
    }
}

} // verus!
