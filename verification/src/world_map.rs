//! The orchestrator: wires elevation, terrain classification, hydrology,
//! thermology and biome composition into one deterministic seeded
//! pipeline, and supports reflow (height perturbation with full
//! re-derivation of every dependent layer).
//!
//! Every stage is pinned down by a spec function of the mesh, the
//! configuration and the seed, so two generations from the same inputs are
//! bit-identical; see `lemma_generate_deterministic`.

use vstd::prelude::*;

use crate::biome::spec_ground_new;
use crate::biome::spec_vegetation_new;
use crate::biome::Ground;
use crate::biome::TerrainCategory;
use crate::biome::Vegetation;
use crate::conf::RainConf;
use crate::conf::WorldGenConf;
use crate::fields::CellData;
use crate::fields::VertexData;
use crate::finvec::FinDef;
use crate::finvec::FinIdx;
use crate::finvec::Leveled;
use crate::generators::added_value;
use crate::generators::band_new;
use crate::generators::clump_with_rng;
use crate::generators::noise_with_rng;
use crate::generators::slope_with_rng;
use crate::generators::spec_clump;
use crate::generators::spec_noise;
use crate::generators::spec_slope;
use crate::generators::FieldFn;
use crate::heightmap::normalized_value;
use crate::heightmap::pd_init;
use crate::heightmap::pd_limit;
use crate::heightmap::HeightMap;
use crate::heightmap::HeightMapBuilder;
use crate::hydrology::rain_clamp;
use crate::hydrology::Hydrology;
use crate::hydrology::HydrologyBuilder;
use crate::mesh::CellId;
use crate::mesh::PolyMap;
use crate::rng::spec_seeded;
use crate::rng::spec_step;
use crate::rng::Rng;
use crate::terrain::TerrainType;
use crate::terrain::TerrainTypeData;
use crate::thermology::temp_clamp;
use crate::thermology::Thermolgoy;
use crate::thermology::ThermologyBuilder;

verus! {

/// Linear falloff of clump perturbations, in thousandths per unit of
/// taxicab distance.
pub const CLUMP_FALLOFF: i64 = 10;

/// Amplitude of every noise octave: one whole unit.
pub const NOISE_AMP: i64 = 1000;

/// Period and intensity of the thermology background noise.
pub const THERMO_NOISE_PERIOD: i64 = 2000;

pub const THERMO_NOISE_INTENSITY: i64 = 200;

/// Intensity of the equatorial temperature band.
pub const BAND_INTENSITY: i64 = 800;

/// Salt, period and intensity of the reflow perturbation field.
pub const REFLOW_SALT: u64 = 0x9E3779B97F4A7C15;

pub const REFLOW_PERIOD: i64 = 1000;

pub const REFLOW_INTENSITY: i64 = 200;

/// The height levels of the default terrain table.
pub open spec fn default_levels() -> Seq<i64> {
    seq![0i64, 500i64, 500i64, 750i64, crate::terrain::LEVEL_TOP]
}

/// The smallest position at or after `i` whose level strictly exceeds the
/// query (`levels.len()` when there is none).
pub open spec fn level_idx(levels: Seq<i64>, tgt: i64, i: int) -> int
    decreases levels.len() - i,
{
    if i < 0 || i >= levels.len() {
        i
    } else if tgt < levels[i] {
        i
    } else {
        level_idx(levels, tgt, i + 1)
    }
}

proof fn lemma_level_idx_char(levels: Seq<i64>, tgt: i64, i: int)
    requires
        0 <= i <= levels.len(),
        exists|k: int| i <= k < levels.len() && tgt < levels[k],
    ensures
        i <= level_idx(levels, tgt, i) < levels.len(),
        tgt < levels[level_idx(levels, tgt, i)],
        forall|j: int| i <= j < level_idx(levels, tgt, i) ==> tgt >= levels[j],
    decreases levels.len() - i,
{
    if !(tgt < levels[i]) {
        let k = choose|k: int| i <= k < levels.len() && tgt < levels[k];
        assert(k > i);
        lemma_level_idx_char(levels, tgt, i + 1);
    }
}

/// One scalar field applied over every vertex.
pub open spec fn spec_apply_field(mesh: PolyMap, d: Seq<i64>, f: FieldFn, intensity: i64) -> Seq<
    i64,
> {
    Seq::new(d.len(), |v: int| added_value(mesh, f, d, v, intensity))
}

/// `count` seeded slopes folded onto a field, threading the generator
/// state.
pub open spec fn spec_add_slopes(
    mesh: PolyMap,
    d: Seq<i64>,
    intensity: i64,
    count: int,
    s: u64,
) -> (Seq<i64>, u64)
    decreases count,
{
    if count <= 0 {
        (d, s)
    } else {
        let prev = spec_add_slopes(mesh, d, intensity, count - 1, s);
        (
            spec_apply_field(mesh, prev.0, spec_slope(mesh.width, mesh.height, prev.1), intensity),
            spec_step(prev.1),
        )
    }
}

/// `count` seeded clumps folded onto a field, threading the generator
/// state (each clump consumes two draws).
pub open spec fn spec_add_clumps(
    mesh: PolyMap,
    d: Seq<i64>,
    amount: i64,
    count: int,
    s: u64,
) -> (Seq<i64>, u64)
    decreases count,
{
    if count <= 0 {
        (d, s)
    } else {
        let prev = spec_add_clumps(mesh, d, amount, count - 1, s);
        (
            spec_apply_field(
                mesh,
                prev.0,
                spec_clump(mesh.width, mesh.height, amount, CLUMP_FALLOFF, prev.1),
                crate::SCALE as i64,
            ),
            spec_step(spec_step(prev.1)),
        )
    }
}

/// The raw composed elevation field: slopes, two noise octaves, clumps and
/// depressions, in the fixed draw order.
pub open spec fn spec_heights_composed(mesh: PolyMap, hconf: crate::conf::HeightMap, seed: u64) -> (
    Seq<i64>,
    u64,
) {
    let d0 = Seq::new(mesh.nv() as nat, |v: int| 0i64);
    let s0 = spec_seeded(seed);
    let after_slopes = spec_add_slopes(
        mesh,
        d0,
        hconf.slopes.intensity,
        hconf.slopes.number as int,
        s0,
    );
    let n1 = spec_noise(hconf.perlin1.period, NOISE_AMP, after_slopes.1);
    let after_n1 = (
        spec_apply_field(mesh, after_slopes.0, n1, hconf.perlin1.intensity),
        spec_step(after_slopes.1),
    );
    let n2 = spec_noise(hconf.perlin2.period, NOISE_AMP, after_n1.1);
    let after_n2 = (
        spec_apply_field(mesh, after_n1.0, n2, hconf.perlin2.intensity),
        spec_step(after_n1.1),
    );
    let after_clumps = spec_add_clumps(
        mesh,
        after_n2.0,
        hconf.clumps.intensity,
        hconf.clumps.number as int,
        after_n2.1,
    );
    spec_add_clumps(
        mesh,
        after_clumps.0,
        (-1 * hconf.depressions.intensity) as i64,
        hconf.depressions.number as int,
        after_clumps.1,
    )
}

/// A field rescaled onto the normalized band.
pub open spec fn spec_normalized(d: Seq<i64>) -> Seq<i64> {
    Seq::new(d.len(), |v: int| normalized_value(d, v))
}

/// One synchronous relaxation sweep.
pub open spec fn spec_relaxed(mesh: PolyMap, d: Seq<i64>) -> Seq<i64> {
    Seq::new(d.len(), |v: int| crate::fields::relaxed_value(mesh, d, v))
}

/// The final elevation field: composed, normalized, relaxed three times,
/// and depression-filled when the configuration asks for it.  The rescale
/// runs before the fill (an integer rescale afterwards could collapse the
/// strict descents the fill guarantees), so filled basin floors may end
/// above one whole unit; the fill ceiling is the only upper bound.
pub open spec fn spec_heights_final(mesh: PolyMap, hconf: crate::conf::HeightMap, seed: u64) -> (
    Seq<i64>,
    u64,
) {
    let composed = spec_heights_composed(mesh, hconf, seed);
    let relaxed = spec_relaxed(
        mesh,
        spec_relaxed(mesh, spec_relaxed(mesh, spec_normalized(composed.0))),
    );
    let filled = if hconf.planchon_darboux {
        pd_limit(mesh, relaxed, pd_init(mesh, relaxed))
    } else {
        relaxed
    };
    (filled, composed.1)
}

/// The innate rainfall field: height-proportional rain plus one seeded
/// noise octave, clamped into the innate band.
pub open spec fn spec_rainfall(mesh: PolyMap, rconf: RainConf, heights: Seq<i64>, s: u64) -> (
    Seq<i64>,
    u64,
) {
    let base = Seq::new(
        mesh.nv() as nat,
        |v: int|
            rain_clamp(
                0 + crate::generators::scale_down(heights[v] * rconf.height_coeff),
            ),
    );
    let f = spec_noise(rconf.perlin.period, NOISE_AMP, s);
    (
        Seq::new(
            mesh.nv() as nat,
            |v: int|
                rain_clamp(
                    base[v] + crate::generators::scale_down(
                        f.spec_value(mesh.vertices@[v].x, mesh.vertices@[v].y) * rconf.perlin.intensity,
                    ),
                ),
        ),
        spec_step(s),
    )
}

/// The radius of the equatorial band.
pub open spec fn spec_band_radius(mesh: PolyMap) -> i64 {
    if (mesh.height as int) / 2 < 1 {
        1i64
    } else {
        ((mesh.height as int) / 2) as i64
    }
}

/// The innate temperature field: background noise plus the equatorial
/// band, clamped into the innate band.
pub open spec fn spec_innate_temp(mesh: PolyMap, s: u64) -> (Seq<i64>, u64) {
    let d0 = Seq::new(mesh.nv() as nat, |v: int| 0i64);
    let f = spec_noise(THERMO_NOISE_PERIOD, NOISE_AMP, s);
    let after_noise = Seq::new(
        mesh.nv() as nat,
        |v: int|
            temp_clamp(
                d0[v] + crate::generators::scale_down(
                    f.spec_value(mesh.vertices@[v].x, mesh.vertices@[v].y) * THERMO_NOISE_INTENSITY,
                ),
            ),
    );
    let band = FieldFn::Band {
        cx: ((mesh.width as int) / 2) as i64,
        cy: ((mesh.height as int) / 2) as i64,
        m: 0i64,
        radius: spec_band_radius(mesh),
    };
    (
        Seq::new(
            mesh.nv() as nat,
            |v: int|
                temp_clamp(
                    after_noise[v] + crate::generators::scale_down(
                        band.spec_value(mesh.vertices@[v].x, mesh.vertices@[v].y) * BAND_INTENSITY,
                    ),
                ),
        ),
        spec_step(s),
    )
}

/// The coarse category of a cell: open water, land touching water, or
/// inland.
pub open spec fn spec_category(mesh: PolyMap, water: Seq<bool>, c: int) -> TerrainCategory {
    if water[c] {
        TerrainCategory::Sea
    } else if exists|k: int|
        0 <= k < mesh.cells@[c].neighbors@.len() && water[#[trigger] mesh.cells@[c].neighbors@[k].0 as int] {
        TerrainCategory::Coast
    } else {
        TerrainCategory::Land
    }
}

/// The terrain table is the default five-category one.
pub open spec fn default_table(defs: FinDef<TerrainType, TerrainTypeData>) -> bool {
    &&& defs.data@.len() == 5
    &&& forall|i: int|
        0 <= i < 5 ==> (#[trigger] defs.data@[i]).height_level == default_levels()[i]
    &&& forall|i: int| 0 <= i < 5 ==> ((#[trigger] defs.data@[i]).is_water <==> i < 2)
}

/// The finished world: the frozen products of every stage.
pub struct WorldMap {
    pub terrain_def: FinDef<TerrainType, TerrainTypeData>,
    pub heightmap: HeightMap,
    pub terrain: CellData<TerrainType>,
    pub cell_is_water: CellData<bool>,
    pub category: CellData<TerrainCategory>,
    pub drainage: CellData<i64>,
    pub hydrology: Hydrology,
    pub thermology: Thermolgoy,
    pub ground: CellData<Ground>,
    pub vegetation: CellData<Vegetation>,
}

/// The derived layers of a world map are exactly the ones its heightmap
/// and rainfall determine.
pub open spec fn layers_derived(mesh: PolyMap, wm: WorldMap) -> bool {
    &&& default_table(wm.terrain_def)
    &&& wm.heightmap.wf(mesh)
    &&& wm.terrain.data@.len() == mesh.nc()
    &&& forall|c: int|
        0 <= c < mesh.nc() ==> (#[trigger] wm.terrain.data@[c]).0 == level_idx(
            default_levels(),
            wm.heightmap.cells.data@[c],
            0,
        )
    &&& wm.cell_is_water.data@.len() == mesh.nc()
    &&& forall|c: int|
        0 <= c < mesh.nc() ==> (#[trigger] wm.cell_is_water.data@[c] <==> wm.terrain.data@[c].0
            < 2)
    &&& wm.category.data@.len() == mesh.nc()
    &&& forall|c: int|
        0 <= c < mesh.nc() ==> #[trigger] wm.category.data@[c] == spec_category(
            mesh,
            wm.cell_is_water.data@,
            c,
        )
    &&& wm.hydrology.wf(mesh, wm.heightmap, wm.cell_is_water.data@)
    &&& wm.drainage.data@.len() == mesh.nc()
    &&& forall|c: int|
        0 <= c < mesh.nc() ==> #[trigger] wm.drainage.data@[c] == crate::fields::corner_sum(
            mesh,
            wm.hydrology.vertex_flux.data@,
            c,
            mesh.cells@[c].corners@.len() as int,
        ) / (mesh.cells@[c].corners@.len() as int)
    &&& wm.thermology.wf(mesh, wm.heightmap, wm.cell_is_water.data@)
    &&& wm.ground.data@.len() == mesh.nc()
    &&& forall|c: int|
        0 <= c < mesh.nc() ==> #[trigger] wm.ground.data@[c] == spec_ground_new(
            wm.category.data@[c],
            wm.hydrology.cell_rainfall.data@[c],
            wm.drainage.data@[c],
            wm.heightmap.cells.data@[c],
        )
    &&& wm.vegetation.data@.len() == mesh.nc()
    &&& forall|c: int|
        0 <= c < mesh.nc() ==> #[trigger] wm.vegetation.data@[c] == spec_vegetation_new(
            wm.category.data@[c],
            wm.hydrology.cell_rainfall.data@[c],
            wm.thermology.cell_temperature.data@[c],
            wm.heightmap.cells.data@[c],
        )
}

/// The whole post-state of `generate`: every layer is the exact function
/// of the mesh, the configuration and the seed.
pub open spec fn generated_from(mesh: PolyMap, conf: WorldGenConf, seed: u64, wm: WorldMap) -> bool {
    let hres = spec_heights_final(mesh, conf.heightmap, seed);
    let rres = spec_rainfall(mesh, conf.hydrology.rain, hres.0, hres.1);
    let tres = spec_innate_temp(mesh, rres.1);
    &&& layers_derived(mesh, wm)
    &&& wm.heightmap.vertices.data@ == hres.0
    &&& wm.hydrology.vertex_rainfall.data@ == rres.0
    &&& wm.hydrology.min_river_flux == conf.hydrology.min_river_flux
    &&& wm.thermology.vertex_innate_temperature.data@ == tres.0
}

/// The post-state of `reflow_rivers`: the elevations are the old ones
/// perturbed by the fixed reflow field, renormalized and depression
/// filled; rainfall and innate temperature persist; every derived layer is
/// recomputed.
pub open spec fn reflowed_from(
    mesh: PolyMap,
    conf: WorldGenConf,
    old_wm: WorldMap,
    wm: WorldMap,
) -> bool {
    let f = FieldFn::Noise { salt: REFLOW_SALT, period: REFLOW_PERIOD, amp: NOISE_AMP };
    let perturbed = spec_apply_field(
        mesh,
        old_wm.heightmap.vertices.data@,
        f,
        REFLOW_INTENSITY,
    );
    let heights = pd_limit(
        mesh,
        spec_normalized(perturbed),
        pd_init(mesh, spec_normalized(perturbed)),
    );
    &&& layers_derived(mesh, wm)
    &&& wm.heightmap.vertices.data@ == heights
    &&& wm.hydrology.vertex_rainfall.data@ == old_wm.hydrology.vertex_rainfall.data@
    &&& wm.hydrology.min_river_flux == conf.hydrology.min_river_flux
    &&& wm.thermology.vertex_innate_temperature.data@
        == old_wm.thermology.vertex_innate_temperature.data@
}

impl WorldMap {
    pub fn heightmap(&self) -> (r: &HeightMap)
        ensures
            r == &self.heightmap,
    {
        &self.heightmap
    }

    /// Perturbs the elevations with the fixed reflow field, refills
    /// depressions, and recomputes every dependent layer; the mesh, the
    /// innate rainfall and the innate temperature persist.
    pub fn reflow_rivers(&mut self, mesh: &PolyMap, conf: &WorldGenConf)
        requires
            mesh.wf(),
            conf.wf(),
            layers_derived(*mesh, *old(self)),
        ensures
            reflowed_from(*mesh, *conf, *old(self), *final(self)),
    {
        let ghost h0 = self.heightmap.vertices.data@;
        let mut hmb = self.heightmap.make_builder();
        let f = FieldFn::Noise { salt: REFLOW_SALT, period: REFLOW_PERIOD, amp: NOISE_AMP };
        f.add_to(mesh, &mut hmb.vertices, REFLOW_INTENSITY);
        proof {
            assert(hmb.vertices.data@ =~= spec_apply_field(*mesh, h0, f, REFLOW_INTENSITY));
        }
        let ghost perturbed = hmb.vertices.data@;
        hmb.normalize();
        proof {
            assert(hmb.vertices.data@ =~= spec_normalized(perturbed));
        }
        hmb.planchon_darboux(mesh);
        let hm = hmb.build(mesh);
        let tw = derive_terrain(mesh, &self.terrain_def, &hm);
        let terrain = tw.0;
        let water = tw.1;
        let category = derive_category(mesh, &water);
        // The innate rainfall persists; the drainage pass replays over the
        // new descent graph.
        let n = self.hydrology.vertex_rainfall.len();
        let mut rain_copy: Vec<i64> = Vec::new();
        let mut i: usize = 0;
        while i < n
            invariant
                i <= n,
                n == self.hydrology.vertex_rainfall.data@.len(),
                rain_copy@.len() == i,
                forall|j: int|
                    0 <= j < i ==> #[trigger] rain_copy@[j]
                        == self.hydrology.vertex_rainfall.data@[j],
            decreases n - i,
        {
            rain_copy.push(self.hydrology.vertex_rainfall.data[i]);
            i = i + 1;
        }
        proof {
            assert(rain_copy@ =~= self.hydrology.vertex_rainfall.data@);
        }
        let hyb = HydrologyBuilder { corner_rainfall: VertexData { data: rain_copy } };
        let hyd = hyb.build(mesh, &hm, &water, conf.hydrology.min_river_flux);
        self.thermology.recompute(mesh, &hm, &water);
        let drainage = CellData::vertex_average(mesh, &hyd.vertex_flux);
        let gv = derive_ground_veg(
            mesh,
            &category,
            &hyd.cell_rainfall,
            &drainage,
            &self.thermology.cell_temperature,
            &hm.cells,
        );
        self.heightmap = hm;
        self.terrain = terrain;
        self.cell_is_water = water;
        self.category = category;
        self.drainage = drainage;
        self.hydrology = hyd;
        self.ground = gv.0;
        self.vegetation = gv.1;
    }
}

/// Sequences with equal integer views are equal.
proof fn lemma_ints_injective(a: Seq<i64>, b: Seq<i64>)
    requires
        crate::fields::ints(a) == crate::fields::ints(b),
    ensures
        a == b,
{
    assert(crate::fields::ints(a).len() == a.len());
    assert(crate::fields::ints(b).len() == b.len());
    assert(a.len() == b.len());
    assert forall|i: int| 0 <= i < a.len() implies a[i] == b[i] by {
        assert(crate::fields::ints(a)[i] == a[i] as int);
        assert(crate::fields::ints(b)[i] == b[i] as int);
    }
    assert(a =~= b);
}

/// Generation is deterministic: two worlds generated from the same mesh,
/// configuration and seed carry bit-identical elevation, flux and
/// temperature fields (and, with them, every derived layer).
pub proof fn lemma_generate_deterministic(
    mesh: PolyMap,
    conf: WorldGenConf,
    seed: u64,
    a: WorldMap,
    b: WorldMap,
)
    requires
        mesh.wf(),
        generated_from(mesh, conf, seed, a),
        generated_from(mesh, conf, seed, b),
    ensures
        a.heightmap.vertices.data@ == b.heightmap.vertices.data@,
        a.heightmap.cells.data@ == b.heightmap.cells.data@,
        a.hydrology.vertex_rainfall.data@ == b.hydrology.vertex_rainfall.data@,
        a.hydrology.vertex_flux.data@ == b.hydrology.vertex_flux.data@,
        a.thermology.cell_temperature.data@ == b.thermology.cell_temperature.data@,
{
    let heights = spec_heights_final(mesh, conf.heightmap, seed).0;
    assert(a.heightmap.vertices.data@ == heights && b.heightmap.vertices.data@ == heights);
    assert(a.heightmap.cells.data@ =~= b.heightmap.cells.data@);
    assert(a.heightmap.descent_vector.data@ =~= b.heightmap.descent_vector.data@);
    assert(crate::fields::vids(a.heightmap.downhill@) == crate::fields::vids(
        b.heightmap.downhill@,
    ));
    assert(a.heightmap.downhill@ =~= b.heightmap.downhill@) by {
        assert forall|i: int| 0 <= i < a.heightmap.downhill@.len() implies a.heightmap.downhill@[i]
            == b.heightmap.downhill@[i] by {
            assert(crate::fields::vids(a.heightmap.downhill@)[i] == a.heightmap.downhill@[i].0);
            assert(crate::fields::vids(b.heightmap.downhill@)[i] == b.heightmap.downhill@[i].0);
        }
    }
    assert(crate::fields::ints(a.hydrology.vertex_flux.data@) == crate::fields::ints(
        b.hydrology.vertex_flux.data@,
    ));
    lemma_ints_injective(a.hydrology.vertex_flux.data@, b.hydrology.vertex_flux.data@);
    // Equal water flags, heights and innate fields give equal derived
    // temperatures.
    assert(a.terrain.data@ =~= b.terrain.data@);
    assert(a.cell_is_water.data@ =~= b.cell_is_water.data@);
    assert(a.thermology.corner_temperature.data@ =~= b.thermology.corner_temperature.data@);
    assert(a.thermology.cell_temperature.data@ =~= b.thermology.cell_temperature.data@);
}

/// Classifies every cell against the default terrain table and flags the
/// water categories.
fn derive_terrain(
    mesh: &PolyMap,
    defs: &FinDef<TerrainType, TerrainTypeData>,
    hm: &HeightMap,
) -> (r: (CellData<TerrainType>, CellData<bool>))
    requires
        mesh.wf(),
        hm.wf(*mesh),
        default_table(*defs),
    ensures
        r.0.data@.len() == mesh.nc(),
        forall|c: int|
            0 <= c < mesh.nc() ==> (#[trigger] r.0.data@[c]).0 == level_idx(
                default_levels(),
                hm.cells.data@[c],
                0,
            ),
        r.1.data@.len() == mesh.nc(),
        forall|c: int|
            0 <= c < mesh.nc() ==> (#[trigger] r.1.data@[c] <==> r.0.data@[c].0 < 2),
{
    let nc = mesh.num_cells();
    let mut terrain: Vec<TerrainType> = Vec::new();
    let mut water: Vec<bool> = Vec::new();
    let mut c: usize = 0;
    while c < nc
        invariant
            c <= nc,
            nc == mesh.nc(),
            mesh.wf(),
            hm.wf(*mesh),
            default_table(*defs),
            terrain@.len() == c,
            water@.len() == c,
            forall|cc: int|
                0 <= cc < c ==> (#[trigger] terrain@[cc]).0 == level_idx(
                    default_levels(),
                    hm.cells.data@[cc],
                    0,
                ),
            forall|cc: int| 0 <= cc < c ==> (#[trigger] water@[cc] <==> terrain@[cc].0 < 2),
        decreases nc - c,
    {
        let ch = hm.cell_height(CellId(c));
        proof {
            assert(defs.data@[4].spec_level() == crate::terrain::LEVEL_TOP);
            assert(ch < defs.data@[4].spec_level());
        }
        let t = defs.from_level(ch);
        proof {
            assert(default_levels()[4] == crate::terrain::LEVEL_TOP);
            lemma_level_idx_char(default_levels(), ch, 0);
            let ri = level_idx(default_levels(), ch, 0);
            let ti = t.spec_index();
            if ti < ri {
                assert(ch >= default_levels()[ti]);
                assert(defs.data@[ti].spec_level() == default_levels()[ti]);
                assert(false);
            }
            if ti > ri {
                assert(ch >= defs.data@[ri].spec_level());
                assert(defs.data@[ri].spec_level() == default_levels()[ri]);
                assert(false);
            }
        }
        let is_water = defs.get(t).is_water;
        terrain.push(t);
        water.push(is_water);
        c = c + 1;
    }
    (CellData { data: terrain }, CellData { data: water })
}

/// Derives the coarse category of every cell: water cells are sea, land
/// cells touching water are coast, the rest inland.
fn derive_category(mesh: &PolyMap, water: &CellData<bool>) -> (r: CellData<TerrainCategory>)
    requires
        mesh.wf(),
        water.data@.len() == mesh.nc(),
    ensures
        r.data@.len() == mesh.nc(),
        forall|c: int|
            0 <= c < mesh.nc() ==> #[trigger] r.data@[c] == spec_category(*mesh, water.data@, c),
{
    let nc = mesh.num_cells();
    let mut out: Vec<TerrainCategory> = Vec::new();
    let mut c: usize = 0;
    while c < nc
        invariant
            c <= nc,
            nc == mesh.nc(),
            mesh.wf(),
            water.data@.len() == mesh.nc(),
            out@.len() == c,
            forall|cc: int|
                0 <= cc < c ==> #[trigger] out@[cc] == spec_category(*mesh, water.data@, cc),
        decreases nc - c,
    {
        proof {
            assert(mesh.wf_cell(c as int));
        }
        let value: TerrainCategory = if water.data[c] {
            TerrainCategory::Sea
        } else {
            let cl = mesh.cell(CellId(c));
            let nk = cl.neighbors.len();
            let mut any_water: bool = false;
            let mut k: usize = 0;
            while k < nk
                invariant
                    k <= nk,
                    c < nc,
                    nc == mesh.nc(),
                    mesh.wf(),
                    water.data@.len() == mesh.nc(),
                    cl == mesh.cells@[c as int],
                    nk == cl.neighbors@.len(),
                    any_water == exists|kk: int|
                        0 <= kk < k && water.data@[#[trigger] cl.neighbors@[kk].0 as int],
                decreases nk - k,
            {
                proof {
                    assert(mesh.wf_cell(c as int));
                }
                let nid = cl.neighbors[k].0;
                if water.data[nid] {
                    any_water = true;
                }
                k = k + 1;
            }
            if any_water {
                TerrainCategory::Coast
            } else {
                TerrainCategory::Land
            }
        };
        out.push(value);
        c = c + 1;
    }
    CellData { data: out }
}

/// Composes the ground and vegetation of every cell from its category,
/// rainfall, drainage, temperature and elevation.
fn derive_ground_veg(
    mesh: &PolyMap,
    category: &CellData<TerrainCategory>,
    rain: &CellData<i64>,
    drainage: &CellData<i64>,
    temperature: &CellData<i64>,
    heights: &CellData<i64>,
) -> (r: (CellData<Ground>, CellData<Vegetation>))
    requires
        mesh.wf(),
        category.data@.len() == mesh.nc(),
        rain.data@.len() == mesh.nc(),
        drainage.data@.len() == mesh.nc(),
        temperature.data@.len() == mesh.nc(),
        heights.data@.len() == mesh.nc(),
        forall|c: int| 0 <= c < mesh.nc() ==> 0 <= #[trigger] rain.data@[c] <= 0x100_0000_0000,
        forall|c: int| 0 <= c < mesh.nc() ==> 0 <= #[trigger] drainage.data@[c] <= 0x100_0000_0000,
        forall|c: int|
            0 <= c < mesh.nc() ==> 0 <= #[trigger] temperature.data@[c] <= 0x100_0000_0000,
        forall|c: int| 0 <= c < mesh.nc() ==> 0 <= #[trigger] heights.data@[c] <= 0x100_0000_0000,
    ensures
        r.0.data@.len() == mesh.nc(),
        forall|c: int|
            0 <= c < mesh.nc() ==> #[trigger] r.0.data@[c] == spec_ground_new(
                category.data@[c],
                rain.data@[c],
                drainage.data@[c],
                heights.data@[c],
            ),
        r.1.data@.len() == mesh.nc(),
        forall|c: int|
            0 <= c < mesh.nc() ==> #[trigger] r.1.data@[c] == spec_vegetation_new(
                category.data@[c],
                rain.data@[c],
                temperature.data@[c],
                heights.data@[c],
            ),
{
    let nc = mesh.num_cells();
    let mut ground: Vec<Ground> = Vec::new();
    let mut vegetation: Vec<Vegetation> = Vec::new();
    let mut c: usize = 0;
    while c < nc
        invariant
            c <= nc,
            nc == mesh.nc(),
            mesh.wf(),
            category.data@.len() == mesh.nc(),
            rain.data@.len() == mesh.nc(),
            drainage.data@.len() == mesh.nc(),
            temperature.data@.len() == mesh.nc(),
            heights.data@.len() == mesh.nc(),
            forall|cc: int| 0 <= cc < mesh.nc() ==> 0 <= #[trigger] rain.data@[cc] <= 0x100_0000_0000,
            forall|cc: int|
                0 <= cc < mesh.nc() ==> 0 <= #[trigger] drainage.data@[cc] <= 0x100_0000_0000,
            forall|cc: int|
                0 <= cc < mesh.nc() ==> 0 <= #[trigger] temperature.data@[cc] <= 0x100_0000_0000,
            forall|cc: int|
                0 <= cc < mesh.nc() ==> 0 <= #[trigger] heights.data@[cc] <= 0x100_0000_0000,
            ground@.len() == c,
            vegetation@.len() == c,
            forall|cc: int|
                0 <= cc < c ==> #[trigger] ground@[cc] == spec_ground_new(
                    category.data@[cc],
                    rain.data@[cc],
                    drainage.data@[cc],
                    heights.data@[cc],
                ),
            forall|cc: int|
                0 <= cc < c ==> #[trigger] vegetation@[cc] == spec_vegetation_new(
                    category.data@[cc],
                    rain.data@[cc],
                    temperature.data@[cc],
                    heights.data@[cc],
                ),
        decreases nc - c,
    {
        let cat = category.data[c];
        let g = Ground::new(cat, rain.data[c], drainage.data[c], heights.data[c]);
        let v = Vegetation::new(cat, rain.data[c], temperature.data[c], heights.data[c]);
        ground.push(g);
        vegetation.push(v);
        c = c + 1;
    }
    (CellData { data: ground }, CellData { data: vegetation })
}

/// The seeded world generator.
pub struct WorldGenerator {
    pub conf: WorldGenConf,
}

impl WorldGenerator {
    pub fn new(conf: WorldGenConf) -> (r: Self)
        ensures
            r.conf == conf,
    {
        WorldGenerator { conf }
    }

    /// Runs the whole pipeline from a mesh and a seed.  The result is an
    /// exact function of the two: generating twice from the same mesh and
    /// seed yields bit-identical fields.
    pub fn generate(&self, mesh: &PolyMap, seed: u64) -> (r: WorldMap)
        requires
            mesh.wf(),
            self.conf.wf(),
        ensures
            generated_from(*mesh, self.conf, seed, r),
    {
        let defs = TerrainType::default_definition();
        proof {
            assert(default_table(defs)) by {
                assert(default_levels()[0] == 0i64);
                assert(default_levels()[1] == 500i64);
                assert(default_levels()[2] == 500i64);
                assert(default_levels()[3] == 750i64);
                assert(default_levels()[4] == crate::terrain::LEVEL_TOP);
            }
        }
        let mut rng = Rng::seeded(seed);
        let mut hb = HeightMapBuilder::new(mesh, 0);
        let ghost d0 = Seq::new(mesh.nv() as nat, |v: int| 0i64);
        let ghost s0 = rng@;
        proof {
            assert(hb.vertices.data@ =~= d0);
        }
        let hconf = &self.conf.heightmap;
        let nslopes = hconf.slopes.number;
        let sint = hconf.slopes.intensity;
        let mut i: usize = 0;
        while i < nslopes
            invariant
                i <= nslopes,
                mesh.wf(),
                self.conf.wf(),
                hconf == &self.conf.heightmap,
                nslopes == hconf.slopes.number,
                sint == hconf.slopes.intensity,
                hb.vertices.data@.len() == mesh.nv(),
                d0.len() == mesh.nv(),
                hb.vertices.data@ == spec_add_slopes(*mesh, d0, sint, i as int, s0).0,
                rng@ == spec_add_slopes(*mesh, d0, sint, i as int, s0).1,
                forall|v: int|
                    0 <= v < hb.vertices.data@.len() ==> -crate::generators::HEIGHT_LIMIT
                        <= #[trigger] hb.vertices.data@[v] <= crate::generators::HEIGHT_LIMIT,
            decreases nslopes - i,
        {
            let ghost pre = hb.vertices.data@;
            let ghost spre = rng@;
            let f = slope_with_rng(mesh.width(), mesh.height(), &mut rng);
            f.add_to(mesh, &mut hb.vertices, sint);
            proof {
                assert(hb.vertices.data@ =~= spec_apply_field(
                    *mesh,
                    pre,
                    spec_slope(mesh.width, mesh.height, spre),
                    sint,
                ));
            }
            i = i + 1;
        }
        let ghost after_slopes = spec_add_slopes(*mesh, d0, sint, nslopes as int, s0);
        let ghost s_n1 = rng@;
        let ghost pre_n1 = hb.vertices.data@;
        let f1 = noise_with_rng(hconf.perlin1.period, NOISE_AMP, &mut rng);
        f1.add_to(mesh, &mut hb.vertices, hconf.perlin1.intensity);
        proof {
            assert(hb.vertices.data@ =~= spec_apply_field(
                *mesh,
                pre_n1,
                spec_noise(hconf.perlin1.period, NOISE_AMP, s_n1),
                hconf.perlin1.intensity,
            ));
        }
        let ghost s_n2 = rng@;
        let ghost pre_n2 = hb.vertices.data@;
        let f2 = noise_with_rng(hconf.perlin2.period, NOISE_AMP, &mut rng);
        f2.add_to(mesh, &mut hb.vertices, hconf.perlin2.intensity);
        proof {
            assert(hb.vertices.data@ =~= spec_apply_field(
                *mesh,
                pre_n2,
                spec_noise(hconf.perlin2.period, NOISE_AMP, s_n2),
                hconf.perlin2.intensity,
            ));
        }
        let ghost pre_clumps = hb.vertices.data@;
        let ghost s_clumps = rng@;
        let nclumps = hconf.clumps.number;
        let camount = hconf.clumps.intensity;
        let mut i2: usize = 0;
        while i2 < nclumps
            invariant
                i2 <= nclumps,
                mesh.wf(),
                self.conf.wf(),
                hconf == &self.conf.heightmap,
                nclumps == hconf.clumps.number,
                camount == hconf.clumps.intensity,
                hb.vertices.data@.len() == mesh.nv(),
                pre_clumps.len() == mesh.nv(),
                hb.vertices.data@ == spec_add_clumps(*mesh, pre_clumps, camount, i2 as int, s_clumps).0,
                rng@ == spec_add_clumps(*mesh, pre_clumps, camount, i2 as int, s_clumps).1,
                forall|v: int|
                    0 <= v < hb.vertices.data@.len() ==> -crate::generators::HEIGHT_LIMIT
                        <= #[trigger] hb.vertices.data@[v] <= crate::generators::HEIGHT_LIMIT,
            decreases nclumps - i2,
        {
            let ghost pre = hb.vertices.data@;
            let ghost spre = rng@;
            let f = clump_with_rng(mesh.width(), mesh.height(), camount, CLUMP_FALLOFF, &mut rng);
            f.add_to(mesh, &mut hb.vertices, crate::SCALE);
            proof {
                assert(hb.vertices.data@ =~= spec_apply_field(
                    *mesh,
                    pre,
                    spec_clump(mesh.width, mesh.height, camount, CLUMP_FALLOFF, spre),
                    crate::SCALE as i64,
                ));
            }
            i2 = i2 + 1;
        }
        let ghost pre_deps = hb.vertices.data@;
        let ghost s_deps = rng@;
        let ndeps = hconf.depressions.number;
        let damount: i64 = 0 - hconf.depressions.intensity;
        proof {
            assert(damount == (-1 * hconf.depressions.intensity) as i64);
        }
        let mut i3: usize = 0;
        while i3 < ndeps
            invariant
                i3 <= ndeps,
                mesh.wf(),
                self.conf.wf(),
                hconf == &self.conf.heightmap,
                ndeps == hconf.depressions.number,
                damount == (-1 * hconf.depressions.intensity) as i64,
                -0x10_0000 <= damount <= 0,
                hb.vertices.data@.len() == mesh.nv(),
                pre_deps.len() == mesh.nv(),
                hb.vertices.data@ == spec_add_clumps(*mesh, pre_deps, damount, i3 as int, s_deps).0,
                rng@ == spec_add_clumps(*mesh, pre_deps, damount, i3 as int, s_deps).1,
                forall|v: int|
                    0 <= v < hb.vertices.data@.len() ==> -crate::generators::HEIGHT_LIMIT
                        <= #[trigger] hb.vertices.data@[v] <= crate::generators::HEIGHT_LIMIT,
            decreases ndeps - i3,
        {
            let ghost pre = hb.vertices.data@;
            let ghost spre = rng@;
            let f = clump_with_rng(mesh.width(), mesh.height(), damount, CLUMP_FALLOFF, &mut rng);
            f.add_to(mesh, &mut hb.vertices, crate::SCALE);
            proof {
                assert(hb.vertices.data@ =~= spec_apply_field(
                    *mesh,
                    pre,
                    spec_clump(mesh.width, mesh.height, damount, CLUMP_FALLOFF, spre),
                    crate::SCALE as i64,
                ));
            }
            i3 = i3 + 1;
        }
        proof {
            assert(hb.vertices.data@ == spec_heights_composed(*mesh, self.conf.heightmap, seed).0);
            assert(rng@ == spec_heights_composed(*mesh, self.conf.heightmap, seed).1);
        }
        let ghost composed = hb.vertices.data@;
        hb.normalize();
        proof {
            assert(hb.vertices.data@ =~= spec_normalized(composed));
        }
        let ghost norm = hb.vertices.data@;
        proof {
            assert forall|v: int|
                0 <= v < mesh.nv() implies mesh.vertices@[v].neighbors@.len() <= 0xFFFF by {
                assert(mesh.wf_vertex(v));
            }
        }
        hb.vertices.update_with_neighbors(mesh);
        proof {
            assert(hb.vertices.data@ =~= spec_relaxed(*mesh, norm));
        }
        let ghost r1 = hb.vertices.data@;
        hb.vertices.update_with_neighbors(mesh);
        proof {
            assert(hb.vertices.data@ =~= spec_relaxed(*mesh, r1));
        }
        let ghost r2 = hb.vertices.data@;
        hb.vertices.update_with_neighbors(mesh);
        proof {
            assert(hb.vertices.data@ =~= spec_relaxed(*mesh, r2));
        }
        if hconf.planchon_darboux {
            hb.planchon_darboux(mesh);
        }
        proof {
            assert(hb.vertices.data@ == spec_heights_final(*mesh, self.conf.heightmap, seed).0);
        }
        let hm = hb.build(mesh);
        let tw = derive_terrain(mesh, &defs, &hm);
        let terrain = tw.0;
        let water = tw.1;
        let category = derive_category(mesh, &water);
        let mut hyb = HydrologyBuilder::new(mesh);
        hyb.scale_by_height(mesh, &hm, self.conf.hydrology.rain.height_coeff);
        let ghost s_rain = rng@;
        let ghost base_rain = hyb.corner_rainfall.data@;
        let fr = noise_with_rng(self.conf.hydrology.rain.perlin.period, NOISE_AMP, &mut rng);
        hyb.add_field(mesh, &fr, self.conf.hydrology.rain.perlin.intensity);
        proof {
            assert(base_rain =~= Seq::new(
                mesh.nv() as nat,
                |v: int|
                    rain_clamp(
                        0 + crate::generators::scale_down(
                            hm.vertices.data@[v] * self.conf.hydrology.rain.height_coeff,
                        ),
                    ),
            ));
            assert(hyb.corner_rainfall.data@ =~= spec_rainfall(
                *mesh,
                self.conf.hydrology.rain,
                hm.vertices.data@,
                s_rain,
            ).0);
        }
        let hyd = hyb.build(mesh, &hm, &water, self.conf.hydrology.min_river_flux);
        let mut tb = ThermologyBuilder::new(mesh);
        let ghost s_temp = rng@;
        let ghost temp0 = tb.vertex_temperature.data@;
        let ft = noise_with_rng(THERMO_NOISE_PERIOD, NOISE_AMP, &mut rng);
        tb.add_field(mesh, &ft, THERMO_NOISE_INTENSITY);
        proof {
            assert(temp0 =~= Seq::new(mesh.nv() as nat, |v: int| 0i64));
        }
        let ghost temp1 = tb.vertex_temperature.data@;
        let radius: i64 = if mesh.height() / 2 < 1 {
            1
        } else {
            mesh.height() / 2
        };
        let band = band_new(mesh.width() / 2, mesh.height() / 2, 0, radius);
        tb.add_field(mesh, &band, BAND_INTENSITY);
        proof {
            assert(radius == spec_band_radius(*mesh));
            assert(tb.vertex_temperature.data@ =~= spec_innate_temp(*mesh, s_temp).0);
        }
        let thermo = tb.build(mesh, &hm, &water);
        let drainage = CellData::vertex_average(mesh, &hyd.vertex_flux);
        let gv = derive_ground_veg(
            mesh,
            &category,
            &hyd.cell_rainfall,
            &drainage,
            &thermo.cell_temperature,
            &hm.cells,
        );
        WorldMap {
            terrain_def: defs,
            heightmap: hm,
            terrain,
            cell_is_water: water,
            category,
            drainage,
            hydrology: hyd,
            thermology: thermo,
            ground: gv.0,
            vegetation: gv.1,
        }
    }
}

} // verus!
