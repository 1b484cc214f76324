//! Temperature: an innate per-vertex field (latitude band plus noise) with
//! oceanic moderation over water and an altitude penalty over land, then a
//! per-cell average.

use vstd::prelude::*;

use crate::fields::CellData;
use crate::fields::VertexData;
use crate::fields::FLOW_INPUT_LIMIT;
use crate::generators::scale_down;
use crate::generators::FieldFn;
use crate::heightmap::HeightMap;
use crate::mesh::CellId;
use crate::mesh::PolyMap;
use crate::mesh::VertexId;

verus! {

/// Clamp of a temperature into the admissible innate band.
pub open spec fn temp_clamp(x: int) -> i64 {
    if x < 0 {
        0i64
    } else if x > FLOW_INPUT_LIMIT {
        FLOW_INPUT_LIMIT as i64
    } else {
        x as i64
    }
}

/// Accumulates the innate per-vertex temperature before derivation.
pub struct ThermologyBuilder {
    pub vertex_temperature: VertexData<i64>,
}

impl ThermologyBuilder {
    pub fn new(mesh: &PolyMap) -> (r: Self)
        ensures
            r.vertex_temperature.data@.len() == mesh.nv(),
            forall|v: int|
                0 <= v < r.vertex_temperature.data@.len() ==> r.vertex_temperature.data@[v] == 0i64,
    {
        ThermologyBuilder { vertex_temperature: VertexData::fill(mesh, 0) }
    }

    /// Adds a scalar field (a latitude band or a noise term) onto the
    /// innate temperature, clamped into the innate band.
    pub fn add_field(&mut self, mesh: &PolyMap, f: &FieldFn, intensity: i64)
        requires
            mesh.wf(),
            f.wf(),
            old(self).vertex_temperature.data@.len() == mesh.nv(),
            -crate::generators::INTENSITY_LIMIT <= intensity <= crate::generators::INTENSITY_LIMIT,
            forall|v: int|
                0 <= v < old(self).vertex_temperature.data@.len() ==> 0 <= #[trigger] old(self).vertex_temperature.data@[v] <= FLOW_INPUT_LIMIT,
        ensures
            final(self).vertex_temperature.data@.len() == old(self).vertex_temperature.data@.len(),
            forall|v: int|
                0 <= v < final(self).vertex_temperature.data@.len()
                    ==> final(self).vertex_temperature.data@[v] == temp_clamp(
                    old(self).vertex_temperature.data@[v] + scale_down(
                        f.spec_value(mesh.vertices@[v].x, mesh.vertices@[v].y) * intensity,
                    ),
                ),
            forall|v: int|
                0 <= v < final(self).vertex_temperature.data@.len() ==> 0 <= #[trigger] final(self).vertex_temperature.data@[v] <= FLOW_INPUT_LIMIT,
    {
        let ghost d0 = self.vertex_temperature.data@;
        let n = self.vertex_temperature.len();
        let mut out: Vec<i64> = Vec::new();
        let mut v: usize = 0;
        while v < n
            invariant
                v <= n,
                n == d0.len(),
                d0 == self.vertex_temperature.data@,
                n == mesh.nv(),
                mesh.wf(),
                f.wf(),
                -crate::generators::INTENSITY_LIMIT <= intensity
                    <= crate::generators::INTENSITY_LIMIT,
                forall|u: int| 0 <= u < n ==> 0 <= #[trigger] d0[u] <= FLOW_INPUT_LIMIT,
                out@.len() == v,
                forall|u: int|
                    0 <= u < v ==> out@[u] == temp_clamp(
                        d0[u] + scale_down(
                            f.spec_value(mesh.vertices@[u].x, mesh.vertices@[u].y) * intensity,
                        ),
                    ),
                forall|u: int| 0 <= u < v ==> 0 <= #[trigger] out@[u] <= FLOW_INPUT_LIMIT,
            decreases n - v,
        {
            proof {
                assert(mesh.wf_vertex(v as int));
            }
            let vt = mesh.vertex(VertexId(v));
            let fv = f.value(vt.x, vt.y);
            proof {
                crate::generators::lemma_value_times_intensity(fv as int, intensity as int);
            }
            let prod: i64 = fv * intensity;
            let scaled: i64 = if prod >= 0 {
                prod / crate::SCALE
            } else {
                -((-prod) / crate::SCALE)
            };
            let base = self.vertex_temperature.data[v];
            let total: i64 = base + scaled;
            let clamped: i64 = if total < 0 {
                0
            } else if total > FLOW_INPUT_LIMIT {
                FLOW_INPUT_LIMIT
            } else {
                total
            };
            out.push(clamped);
            v = v + 1;
        }
        self.vertex_temperature.data = out;
    }

    /// Freezes the innate field into the temperature product.
    pub fn build(
        self,
        mesh: &PolyMap,
        hm: &HeightMap,
        cell_is_water: &CellData<bool>,
    ) -> (r: Thermolgoy)
        requires
            mesh.wf(),
            hm.wf(*mesh),
            self.vertex_temperature.data@.len() == mesh.nv(),
            forall|v: int|
                0 <= v < self.vertex_temperature.data@.len() ==> 0
                    <= #[trigger] self.vertex_temperature.data@[v] <= FLOW_INPUT_LIMIT,
            cell_is_water.data@.len() == mesh.nc(),
        ensures
            r.wf(*mesh, *hm, cell_is_water.data@),
            r.vertex_innate_temperature.data@ == self.vertex_temperature.data@,
    {
        let mut t = Thermolgoy {
            vertex_innate_temperature: self.vertex_temperature,
            corner_temperature: VertexData::empty_shell(),
            cell_temperature: CellData::empty_shell(),
        };
        t.recompute(mesh, hm, cell_is_water);
        t
    }
}

/// The derived temperature at a vertex: a vertex surrounded by water cells
/// is halved and capped; a land vertex pays a multiplicative penalty for
/// elevation above the comfort band.
pub open spec fn spec_corner_temperature(
    mesh: PolyMap,
    water: Seq<bool>,
    heights: Seq<i64>,
    innate: Seq<i64>,
    v: int,
) -> i64 {
    let vt = mesh.vertices@[v];
    let all_water = forall|k: int|
        0 <= k < vt.cells@.len() ==> water[#[trigger] vt.cells@[k].0 as int];
    if all_water {
        let halved = (innate[v] as int) / 2;
        if halved > 400 {
            400i64
        } else {
            halved as i64
        }
    } else {
        let slack = 1500 - heights[v] as int;
        let penalty = if slack < 0 {
            0
        } else if slack > crate::SCALE {
            crate::SCALE as int
        } else {
            slack
        };
        ((innate[v] as int) * penalty / (crate::SCALE as int)) as i64
    }
}

/// The temperature product: the innate field, the derived per-vertex
/// temperature, and the per-cell average.
pub struct Thermolgoy {
    pub vertex_innate_temperature: VertexData<i64>,
    pub corner_temperature: VertexData<i64>,
    pub cell_temperature: CellData<i64>,
}

impl Thermolgoy {
    /// Everything `recompute` establishes: derived temperatures are exact
    /// functions of the innate field, the heights and the water flags.
    pub open spec fn wf(self, mesh: PolyMap, hm: HeightMap, water: Seq<bool>) -> bool {
        &&& self.vertex_innate_temperature.data@.len() == mesh.nv()
        &&& forall|v: int|
            0 <= v < mesh.nv() ==> 0 <= #[trigger] self.vertex_innate_temperature.data@[v]
                <= FLOW_INPUT_LIMIT
        &&& self.corner_temperature.data@.len() == mesh.nv()
        &&& forall|v: int|
            0 <= v < mesh.nv() ==> #[trigger] self.corner_temperature.data@[v]
                == spec_corner_temperature(
                mesh,
                water,
                hm.vertices.data@,
                self.vertex_innate_temperature.data@,
                v,
            )
        &&& self.cell_temperature.data@.len() == mesh.nc()
        &&& forall|c: int|
            0 <= c < mesh.nc() ==> #[trigger] self.cell_temperature.data@[c]
                == crate::fields::corner_sum(
                mesh,
                self.corner_temperature.data@,
                c,
                mesh.cells@[c].corners@.len() as int,
            ) / (mesh.cells@[c].corners@.len() as int)
        &&& forall|c: int|
            0 <= c < mesh.nc() ==> 0 <= #[trigger] self.cell_temperature.data@[c]
                <= crate::fields::FLOW_OUTPUT_LIMIT
    }

    /// Rederives the per-vertex and per-cell temperatures from the stored
    /// innate field.
    pub fn recompute(&mut self, mesh: &PolyMap, hm: &HeightMap, cell_is_water: &CellData<bool>)
        requires
            mesh.wf(),
            hm.wf(*mesh),
            old(self).vertex_innate_temperature.data@.len() == mesh.nv(),
            forall|v: int|
                0 <= v < old(self).vertex_innate_temperature.data@.len() ==> 0 <= #[trigger] old(self).vertex_innate_temperature.data@[v] <= FLOW_INPUT_LIMIT,
            cell_is_water.data@.len() == mesh.nc(),
        ensures
            final(self).wf(*mesh, *hm, cell_is_water.data@),
            final(self).vertex_innate_temperature.data@ == old(self).vertex_innate_temperature.data@,
    {
        let ghost innate = self.vertex_innate_temperature.data@;
        let ghost water = cell_is_water.data@;
        let n = self.vertex_innate_temperature.len();
        let mut corner: Vec<i64> = Vec::new();
        let mut v: usize = 0;
        while v < n
            invariant
                v <= n,
                n == innate.len(),
                innate == self.vertex_innate_temperature.data@,
                water == cell_is_water.data@,
                n == mesh.nv(),
                mesh.wf(),
                hm.wf(*mesh),
                cell_is_water.data@.len() == mesh.nc(),
                forall|u: int| 0 <= u < n ==> 0 <= #[trigger] innate[u] <= FLOW_INPUT_LIMIT,
                corner@.len() == v,
                forall|u: int|
                    0 <= u < v ==> corner@[u] == spec_corner_temperature(
                        *mesh,
                        water,
                        hm.vertices.data@,
                        innate,
                        u,
                    ),
                forall|u: int| 0 <= u < v ==> 0 <= #[trigger] corner@[u] <= FLOW_INPUT_LIMIT,
            decreases n - v,
        {
            proof {
                assert(mesh.wf_vertex(v as int));
            }
            let vt = mesh.vertex(VertexId(v));
            let nk = vt.cells.len();
            let mut all_water: bool = true;
            let mut k: usize = 0;
            while k < nk
                invariant
                    k <= nk,
                    v < n,
                    n == mesh.nv(),
                    mesh.wf(),
                    water == cell_is_water.data@,
                    cell_is_water.data@.len() == mesh.nc(),
                    vt == mesh.vertices@[v as int],
                    nk == vt.cells@.len(),
                    all_water == forall|kk: int|
                        0 <= kk < k ==> water[#[trigger] vt.cells@[kk].0 as int],
                decreases nk - k,
            {
                proof {
                    assert(mesh.wf_vertex(v as int));
                }
                let cid = vt.cells[k].0;
                if !cell_is_water.data[cid] {
                    all_water = false;
                }
                k = k + 1;
            }
            let t = self.vertex_innate_temperature.data[v];
            let value: i64 = if all_water {
                let halved: i64 = t / 2;
                if halved > 400 {
                    400
                } else {
                    halved
                }
            } else {
                let h = hm.vertex_height(VertexId(v));
                let slack: i64 = 1500 - h;
                let penalty: i64 = if slack < 0 {
                    0
                } else if slack > crate::SCALE {
                    crate::SCALE
                } else {
                    slack
                };
                proof {
                    assert(0 <= t as int * penalty as int <= (FLOW_INPUT_LIMIT as int) * (
                    crate::SCALE as int)) by (nonlinear_arith)
                        requires
                            0 <= t <= FLOW_INPUT_LIMIT,
                            0 <= penalty <= crate::SCALE,
                    ;
                    assert(0 <= t as int * penalty as int / (crate::SCALE as int)
                        <= FLOW_INPUT_LIMIT) by (nonlinear_arith)
                        requires
                            0 <= t as int * penalty as int <= (FLOW_INPUT_LIMIT as int) * (
                            crate::SCALE as int),
                    ;
                }
                t * penalty / crate::SCALE
            };
            corner.push(value);
            v = v + 1;
        }
        self.corner_temperature = VertexData { data: corner };
        self.cell_temperature = CellData::vertex_average(mesh, &self.corner_temperature);
    }

    pub fn cell_temperature(&self, id: CellId) -> (r: i64)
        requires
            id.0 < self.cell_temperature.data@.len(),
        ensures
            r == self.cell_temperature.data@[id.0 as int],
    {
        self.cell_temperature.data[id.0]
    }
}

} // verus!
