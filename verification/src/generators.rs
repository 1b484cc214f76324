//! Scalar fields composed onto the mesh vertices: a random linear slope,
//! a distance band, clump-style local perturbations, and a seeded lattice
//! noise.  Every generator is a closed set of variants with an exact value
//! formula, and every seeded constructor pins its draws to the generator
//! state, so field composition is reproducible bit for bit.

use vstd::prelude::*;

use crate::fields::VertexData;
use crate::mesh::PolyMap;
use crate::mesh::COORD_LIMIT;
use crate::mesh::VertexId;
use crate::rng::spec_step;
use crate::rng::Rng;

verus! {

/// Largest magnitude a field value can take.
pub const VALUE_LIMIT: i64 = 0x1000_0000_0000;

/// Largest magnitude an intensity can take.
pub const INTENSITY_LIMIT: i64 = 0x4000;

/// Largest magnitude a composed height can take; `add_to` clamps here.
pub const HEIGHT_LIMIT: i64 = 0x100_0000_0000;

/// Magnitude of an integer.
pub open spec fn iabs(x: int) -> int {
    if x < 0 {
        -x
    } else {
        x
    }
}

proof fn lemma_bounded_mul(a: int, b: int, bound_a: int, bound_b: int)
    by (nonlinear_arith)
    requires
        iabs(a) <= bound_a,
        iabs(b) <= bound_b,
        bound_a >= 0,
        bound_b >= 0,
    ensures
        iabs(a * b) <= bound_a * bound_b,
{
}

/// A scalar field over the map plane.
#[derive(Clone, Copy)]
pub enum FieldFn {
    /// A linear ramp through the map center with gradient `m` (in
    /// thousandths per unit of the vertical axis).
    Slope { cx: i64, cy: i64, m: i64 },
    /// A band peaking on the line through `(cx, cy)` with gradient `m` and
    /// fading to zero at `radius`.
    Band { cx: i64, cy: i64, m: i64, radius: i64 },
    /// A local bump (or depression, for negative `amount`) centered at
    /// `(x, y)`, fading linearly with taxicab distance.
    Clump { x: i64, y: i64, amount: i64, falloff: i64 },
    /// Blocky lattice noise: one draw per `period`-sized lattice cell,
    /// uniform in `[-amp, amp]`, a pure function of the salt.
    Noise { salt: u64, period: i64, amp: i64 },
}

impl FieldFn {
    pub open spec fn wf(self) -> bool {
        match self {
            FieldFn::Slope { cx, cy, m } => 0 <= cx <= COORD_LIMIT && 0 <= cy <= COORD_LIMIT
                && -2 * crate::SCALE <= m <= 2 * crate::SCALE,
            FieldFn::Band { cx, cy, m, radius } => 0 <= cx <= COORD_LIMIT && 0 <= cy <= COORD_LIMIT
                && -2 * crate::SCALE <= m <= 2 * crate::SCALE && 0 < radius <= COORD_LIMIT,
            FieldFn::Clump { x, y, amount, falloff } => 0 <= x <= COORD_LIMIT && 0 <= y
                <= COORD_LIMIT && -0x10_0000 <= amount <= 0x10_0000 && 0 <= falloff <= 0x10_0000,
            FieldFn::Noise { salt, period, amp } => 0 < period <= COORD_LIMIT && 0 <= amp
                <= 0x10_0000,
        }
    }

    /// The exact field value at a point.
    pub open spec fn spec_value(self, x: i64, y: i64) -> int {
        match self {
            FieldFn::Slope { cx, cy, m } => (x - cx) * m - (y - cy) * crate::SCALE,
            FieldFn::Band { cx, cy, m, radius } => {
                let dist = iabs((x - cx) * m - (y - cy) * crate::SCALE);
                let fall = (crate::SCALE as int) - dist / (radius as int);
                if fall < 0 {
                    0
                } else {
                    fall
                }
            },
            FieldFn::Clump { x: px, y: py, amount, falloff } => {
                let dist = iabs(x as int - px) + iabs(y as int - py);
                let v = (amount as int) - dist * falloff / (crate::SCALE as int);
                if v < 0 {
                    0
                } else {
                    v
                }
            },
            FieldFn::Noise { salt, period, amp } => {
                let gx = ((x as int) / (period as int)) as u64;
                let gy = ((y as int) / (period as int)) as u64;
                let mixed = spec_step(spec_step(salt ^ gx) ^ (gy ^ 0x9E3779B97F4A7C15u64));
                (mixed % ((2 * amp + 1) as u64)) as int - amp
            },
        }
    }

    /// Evaluates the field; the result is the exact spec value.
    pub fn value(&self, x: i64, y: i64) -> (r: i64)
        requires
            self.wf(),
            0 <= x <= COORD_LIMIT,
            0 <= y <= COORD_LIMIT,
        ensures
            r == self.spec_value(x, y),
            -VALUE_LIMIT <= r <= VALUE_LIMIT,
    {
        match *self {
            FieldFn::Slope { cx, cy, m } => {
                proof {
                    lemma_bounded_mul((x - cx) as int, m as int, 0x4000_0000, 2 * crate::SCALE);
                    lemma_bounded_mul((y - cy) as int, crate::SCALE as int, 0x4000_0000, crate::SCALE as int);
                }
                (x - cx) * m - (y - cy) * crate::SCALE
            },
            FieldFn::Band { cx, cy, m, radius } => {
                proof {
                    lemma_bounded_mul((x - cx) as int, m as int, 0x4000_0000, 2 * crate::SCALE);
                    lemma_bounded_mul((y - cy) as int, crate::SCALE as int, 0x4000_0000, crate::SCALE as int);
                }
                let raw: i64 = (x - cx) * m - (y - cy) * crate::SCALE;
                let dist: i64 = if raw < 0 {
                    -raw
                } else {
                    raw
                };
                proof {
                    assert(dist as int / (radius as int) >= 0) by (nonlinear_arith)
                        requires
                            dist >= 0,
                            radius > 0,
                    ;
                }
                let fall: i64 = crate::SCALE - dist / radius;
                if fall < 0 {
                    0
                } else {
                    fall
                }
            },
            FieldFn::Clump { x: px, y: py, amount, falloff } => {
                let dx: i64 = if x >= px {
                    x - px
                } else {
                    px - x
                };
                let dy: i64 = if y >= py {
                    y - py
                } else {
                    py - y
                };
                let dist: i64 = dx + dy;
                proof {
                    lemma_bounded_mul(dist as int, falloff as int, 0x1_0000_0000, 0x10_0000);
                    assert(dist as int * (falloff as int) / (crate::SCALE as int) >= 0)
                        by (nonlinear_arith)
                        requires
                            dist >= 0,
                            falloff >= 0,
                    ;
                }
                let v: i64 = amount - dist * falloff / crate::SCALE;
                if v < 0 {
                    0
                } else {
                    v
                }
            },
            FieldFn::Noise { salt, period, amp } => {
                let gx: u64 = (x / period) as u64;
                let gy: u64 = (y / period) as u64;
                let m1 = crate::rng::mix(salt ^ gx);
                let m2 = crate::rng::mix(m1 ^ (gy ^ 0x9E3779B97F4A7C15u64));
                let modulus: u64 = (2 * amp + 1) as u64;
                let r: i64 = (m2 % modulus) as i64 - amp;
                r
            },
        }
    }
}

/// The seeded slope: centered on the map, with a gradient drawn from the
/// generator.
pub open spec fn spec_slope(w: i64, h: i64, s: u64) -> FieldFn {
    FieldFn::Slope {
        cx: (w as int / 2) as i64,
        cy: (h as int / 2) as i64,
        m: (-crate::SCALE + (spec_step(s) % ((3 * crate::SCALE) as u64)) as i64) as i64,
    }
}

pub fn slope_with_rng(w: i64, h: i64, rng: &mut Rng) -> (r: FieldFn)
    requires
        0 < w <= COORD_LIMIT,
        0 < h <= COORD_LIMIT,
    ensures
        r == spec_slope(w, h, old(rng)@),
        final(rng)@ == spec_step(old(rng)@),
        r.wf(),
{
    let m = rng.next_range(-crate::SCALE, 2 * crate::SCALE);
    FieldFn::Slope { cx: w / 2, cy: h / 2, m }
}

pub fn band_new(cx: i64, cy: i64, m: i64, radius: i64) -> (r: FieldFn)
    requires
        0 <= cx <= COORD_LIMIT,
        0 <= cy <= COORD_LIMIT,
        -2 * crate::SCALE <= m <= 2 * crate::SCALE,
        0 < radius <= COORD_LIMIT,
    ensures
        r == (FieldFn::Band { cx, cy, m, radius }),
        r.wf(),
{
    FieldFn::Band { cx, cy, m, radius }
}

/// The seeded clump: a random center inside the map.
pub open spec fn spec_clump(w: i64, h: i64, amount: i64, falloff: i64, s: u64) -> FieldFn {
    FieldFn::Clump {
        x: (spec_step(s) % ((w + 1) as u64)) as i64,
        y: (spec_step(spec_step(s)) % ((h + 1) as u64)) as i64,
        amount,
        falloff,
    }
}

pub fn clump_with_rng(w: i64, h: i64, amount: i64, falloff: i64, rng: &mut Rng) -> (r: FieldFn)
    requires
        0 < w <= COORD_LIMIT,
        0 < h <= COORD_LIMIT,
        -0x10_0000 <= amount <= 0x10_0000,
        0 <= falloff <= 0x10_0000,
    ensures
        r == spec_clump(w, h, amount, falloff, old(rng)@),
        final(rng)@ == spec_step(spec_step(old(rng)@)),
        r.wf(),
{
    let x = rng.next_range(0, w + 1);
    let y = rng.next_range(0, h + 1);
    FieldFn::Clump { x, y, amount, falloff }
}

/// The seeded lattice noise: its salt is one draw of the generator.
pub open spec fn spec_noise(period: i64, amp: i64, s: u64) -> FieldFn {
    FieldFn::Noise { salt: spec_step(s), period, amp }
}

pub fn noise_with_rng(period: i64, amp: i64, rng: &mut Rng) -> (r: FieldFn)
    requires
        0 < period <= COORD_LIMIT,
        0 <= amp <= 0x10_0000,
    ensures
        r == spec_noise(period, amp, old(rng)@),
        final(rng)@ == spec_step(old(rng)@),
        r.wf(),
{
    let salt = rng.next_u64();
    FieldFn::Noise { salt, period, amp }
}

/// Division by the milli-unit scale, rounding towards zero as the machine
/// division does.
pub open spec fn scale_down(x: int) -> int {
    if x >= 0 {
        x / (crate::SCALE as int)
    } else {
        -((-x) / (crate::SCALE as int))
    }
}

proof fn lemma_scale_down_bound(x: int)
    ensures
        iabs(scale_down(x)) <= iabs(x),
        x >= 0 ==> scale_down(x) >= 0,
        x <= 0 ==> scale_down(x) <= 0,
{
    if x >= 0 {
        assert(0 <= x / (crate::SCALE as int) <= x) by (nonlinear_arith)
            requires
                x >= 0,
        ;
    } else {
        assert(0 <= (-x) / (crate::SCALE as int) <= -x) by (nonlinear_arith)
            requires
                x < 0,
        ;
    }
}

/// Bounds for a field value scaled by an intensity: the product fits the
/// machine word and scaling down never grows it.
pub proof fn lemma_value_times_intensity(v: int, i: int)
    requires
        iabs(v) <= VALUE_LIMIT,
        iabs(i) <= INTENSITY_LIMIT,
    ensures
        iabs(v * i) <= VALUE_LIMIT * INTENSITY_LIMIT,
        iabs(scale_down(v * i)) <= iabs(v * i),
        v * i >= 0 ==> scale_down(v * i) >= 0,
        v * i <= 0 ==> scale_down(v * i) <= 0,
{
    lemma_bounded_mul(v, i, VALUE_LIMIT as int, INTENSITY_LIMIT as int);
    lemma_scale_down_bound(v * i);
}

/// Clamp of a composed height into the admissible band.
pub open spec fn clamp_height(x: int) -> i64 {
    if x < -HEIGHT_LIMIT {
        (-HEIGHT_LIMIT) as i64
    } else if x > HEIGHT_LIMIT {
        HEIGHT_LIMIT as i64
    } else {
        x as i64
    }
}

/// The value `add_to` leaves at vertex `v`.
pub open spec fn added_value(
    mesh: PolyMap,
    f: FieldFn,
    d: Seq<i64>,
    v: int,
    intensity: i64,
) -> i64 {
    clamp_height(d[v] + scale_down(f.spec_value(mesh.vertices@[v].x, mesh.vertices@[v].y) * intensity))
}

impl FieldFn {
    /// Adds the field, scaled by `intensity` thousandths, onto a vertex
    /// scalar container, clamping into the admissible height band.
    pub fn add_to(&self, mesh: &PolyMap, data: &mut VertexData<i64>, intensity: i64)
        requires
            mesh.wf(),
            self.wf(),
            old(data).data@.len() == mesh.nv(),
            -INTENSITY_LIMIT <= intensity <= INTENSITY_LIMIT,
            forall|v: int|
                0 <= v < old(data).data@.len() ==> -HEIGHT_LIMIT <= #[trigger] old(
                    data,
                ).data@[v] <= HEIGHT_LIMIT,
        ensures
            final(data).data@.len() == old(data).data@.len(),
            forall|v: int|
                0 <= v < final(data).data@.len() ==> final(data).data@[v] == added_value(
                    *mesh,
                    *self,
                    old(data).data@,
                    v,
                    intensity,
                ),
            forall|v: int|
                0 <= v < final(data).data@.len() ==> -HEIGHT_LIMIT <= #[trigger] final(data).data@[v] <= HEIGHT_LIMIT,
    {
        let ghost d0 = data.data@;
        let n = data.len();
        let mut out: Vec<i64> = Vec::new();
        let mut v: usize = 0;
        while v < n
            invariant
                v <= n,
                n == d0.len(),
                d0 == data.data@,
                n == mesh.nv(),
                mesh.wf(),
                self.wf(),
                -INTENSITY_LIMIT <= intensity <= INTENSITY_LIMIT,
                forall|u: int| 0 <= u < n ==> -HEIGHT_LIMIT <= #[trigger] d0[u] <= HEIGHT_LIMIT,
                out@.len() == v,
                forall|u: int|
                    0 <= u < v ==> out@[u] == added_value(*mesh, *self, d0, u, intensity),
                forall|u: int| 0 <= u < v ==> -HEIGHT_LIMIT <= #[trigger] out@[u] <= HEIGHT_LIMIT,
            decreases n - v,
        {
            proof {
                assert(mesh.wf_vertex(v as int));
            }
            let vt = mesh.vertex(VertexId(v));
            let fv = self.value(vt.x, vt.y);
            proof {
                lemma_bounded_mul(fv as int, intensity as int, VALUE_LIMIT as int, INTENSITY_LIMIT as int);
                lemma_scale_down_bound(fv as int * intensity as int);
            }
            let prod: i64 = fv * intensity;
            let scaled: i64 = if prod >= 0 {
                prod / crate::SCALE
            } else {
                -((-prod) / crate::SCALE)
            };
            let sum: i64 = data.data[v] + scaled;
            let clamped: i64 = if sum < -HEIGHT_LIMIT {
                -HEIGHT_LIMIT
            } else if sum > HEIGHT_LIMIT {
                HEIGHT_LIMIT
            } else {
                sum
            };
            out.push(clamped);
            v = v + 1;
        }
        data.data = out;
    }
}

} // verus!
