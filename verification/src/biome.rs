//! Ground and vegetation composition: deterministic, closed-form weighted
//! combinations of terrain category, rainfall, drainage, elevation and
//! temperature, each normalized onto the unit simplex in thousandths.
//!
//! Normalization assigns the last component the exact remainder, so a
//! normalized composition sums to one whole unit exactly; a vector whose
//! total is zero is returned unchanged.

use vstd::prelude::*;

verus! {

/// The coarse landscape category a cell falls in: open water, shoreline
/// land, or inland.
#[derive(Clone, Copy, Debug, PartialEq, Eq, Structural)]
pub enum TerrainCategory {
    Sea,
    Coast,
    Land,
}

/// A named biome with its water flag.
pub struct BiomeType {
    pub name: String,
    pub is_water: bool,
}

/// An affine measurement scale used to normalize raw field values onto
/// thousandths.
pub struct Measure {
    pub min: i64,
    pub max: i64,
}

impl Measure {
    /// Where `x` falls on the scale, in thousandths, clamped to the unit.
    pub open spec fn spec_normalize(self, x: i64) -> i64 {
        let raw = (x - self.min) * (crate::SCALE as int) / (self.max - self.min);
        if raw > crate::SCALE {
            crate::SCALE as i64
        } else {
            raw as i64
        }
    }

    pub fn normalize(&self, x: i64) -> (r: i64)
        requires
            0 <= self.min < self.max <= 0x100_0000_0000,
            self.min <= x <= 0x100_0000_0000,
        ensures
            r == self.spec_normalize(x),
            0 <= r <= crate::SCALE,
    {
        proof {
            assert(0 <= (x - self.min) as int * (crate::SCALE as int) <= 0x100_0000_0000 * (
            crate::SCALE as int)) by (nonlinear_arith)
                requires
                    0 <= x - self.min <= 0x100_0000_0000,
            ;
            assert(0 <= ((x - self.min) as int * (crate::SCALE as int)) / ((self.max
                - self.min) as int)) by (nonlinear_arith)
                requires
                    0 <= (x - self.min) as int * (crate::SCALE as int),
                    0 < self.max - self.min,
            ;
        }
        let raw: i64 = (x - self.min) * crate::SCALE / (self.max - self.min);
        if raw > crate::SCALE {
            crate::SCALE
        } else {
            raw
        }
    }
}

/// The rainfall measurement scale.
pub fn rain_measure() -> (r: Measure)
    ensures
        r.min == 0 && r.max == 50_000i64,
{
    Measure { min: 0, max: 50_000 }
}

/// The drainage measurement scale.
pub fn drain_measure() -> (r: Measure)
    ensures
        r.min == 0 && r.max == 0x100_0000_0000i64,
{
    Measure { min: 0, max: 0x100_0000_0000 }
}

/// Ground composition fractions, in thousandths.
#[derive(Clone, Copy, Debug, PartialEq, Eq, Structural)]
pub struct Ground {
    pub water: i64,
    pub sand: i64,
    pub soil: i64,
    pub rock: i64,
}

/// The normalization of a ground composition: components are rescaled onto
/// thousandths of the total, the last one taking the exact remainder; the
/// degenerate zero-total vector stays unchanged.
pub open spec fn spec_ground_normalize(g: Ground) -> Ground {
    let total = g.water + g.sand + g.soil + g.rock;
    if total == 0 {
        g
    } else {
        let w = g.water * (crate::SCALE as int) / total;
        let sa = g.sand * (crate::SCALE as int) / total;
        let so = g.soil * (crate::SCALE as int) / total;
        let used = if w + sa + so > crate::SCALE {
            crate::SCALE as int
        } else {
            w + sa + so
        };
        Ground {
            water: w as i64,
            sand: sa as i64,
            soil: so as i64,
            rock: (crate::SCALE - used) as i64,
        }
    }
}

impl Ground {
    /// Normalizes the composition onto the unit simplex; the result sums
    /// to one whole unit exactly unless the total is zero, in which case
    /// the vector is unchanged.
    pub fn normalize(self) -> (r: Ground)
        requires
            0 <= self.water <= 0x100_0000_0000,
            0 <= self.sand <= 0x100_0000_0000,
            0 <= self.soil <= 0x100_0000_0000,
            0 <= self.rock <= 0x100_0000_0000,
        ensures
            r == spec_ground_normalize(self),
            self.water + self.sand + self.soil + self.rock != 0 ==> r.water + r.sand + r.soil
                + r.rock == crate::SCALE,
            self.water + self.sand + self.soil + self.rock == 0 ==> r == self,
            0 <= r.water && 0 <= r.sand && 0 <= r.soil && 0 <= r.rock,
    {
        let total: i64 = self.water + self.sand + self.soil + self.rock;
        if total == 0 {
            self
        } else {
            proof {
                lemma_simplex_part(self.water as int, total as int);
                lemma_simplex_part(self.sand as int, total as int);
                lemma_simplex_part(self.soil as int, total as int);
                lemma_parts_within_unit(
                    self.water as int,
                    self.sand as int,
                    self.soil as int,
                    total as int,
                );
            }
            let w: i64 = self.water * crate::SCALE / total;
            let sa: i64 = self.sand * crate::SCALE / total;
            let so: i64 = self.soil * crate::SCALE / total;
            let used: i64 = if w + sa + so > crate::SCALE {
                crate::SCALE
            } else {
                w + sa + so
            };
            Ground { water: w, sand: sa, soil: so, rock: crate::SCALE - used }
        }
    }
}

proof fn lemma_div_superadd(x: int, y: int, t: int)
    requires
        x >= 0,
        y >= 0,
        t > 0,
    ensures
        x / t + y / t <= (x + y) / t,
{
    vstd::arithmetic::div_mod::lemma_fundamental_div_mod(x, t);
    vstd::arithmetic::div_mod::lemma_fundamental_div_mod(y, t);
    vstd::arithmetic::div_mod::lemma_fundamental_div_mod(x + y, t);
    vstd::arithmetic::div_mod::lemma_mod_bound(x, t);
    vstd::arithmetic::div_mod::lemma_mod_bound(y, t);
    vstd::arithmetic::div_mod::lemma_mod_bound(x + y, t);
    assert(x / t + y / t <= (x + y) / t) by (nonlinear_arith)
        requires
            t > 0,
            x == t * (x / t) + x % t,
            y == t * (y / t) + y % t,
            x + y == t * ((x + y) / t) + (x + y) % t,
            0 <= x % t < t,
            0 <= y % t < t,
            0 <= (x + y) % t < t,
    ;
}

/// The rescaled parts of a composition never exceed the whole unit.
proof fn lemma_parts_within_unit(a: int, b: int, c: int, total: int)
    requires
        0 <= a,
        0 <= b,
        0 <= c,
        a + b + c <= total,
        0 < total,
    ensures
        a * (crate::SCALE as int) / total + b * (crate::SCALE as int) / total + c * (
        crate::SCALE as int) / total <= crate::SCALE,
{
    let s = crate::SCALE as int;
    lemma_div_superadd(a * s, b * s, total);
    lemma_div_superadd(a * s + b * s, c * s, total);
    assert((a + b + c) * s <= total * s) by (nonlinear_arith)
        requires
            a + b + c <= total,
            s > 0,
    ;
    vstd::arithmetic::div_mod::lemma_div_is_ordered((a + b + c) * s, total * s, total);
    assert(total * s == total * s);
    vstd::arithmetic::div_mod::lemma_div_multiples_vanish(s, total);
    assert((total * s) / total == s);
    assert(a * s + b * s + c * s == (a + b + c) * s) by (nonlinear_arith);
}

/// A nonnegative part of a positive total maps into `[0, SCALE]`.
proof fn lemma_simplex_part(part: int, total: int)
    requires
        0 <= part <= total,
        0 < total <= 0x400_0000_0000,
    ensures
        0 <= part * (crate::SCALE as int) / total <= crate::SCALE,
        part * (crate::SCALE as int) <= 0x400_0000_0000 * (crate::SCALE as int),
{
    assert(0 <= part * (crate::SCALE as int) <= total * (crate::SCALE as int)) by (nonlinear_arith)
        requires
            0 <= part <= total,
    ;
    assert(0 <= part * (crate::SCALE as int) / total <= crate::SCALE) by (nonlinear_arith)
        requires
            0 < total,
            0 <= part * (crate::SCALE as int) <= total * (crate::SCALE as int),
    ;
    assert(total * (crate::SCALE as int) <= 0x400_0000_0000 * (crate::SCALE as int))
        by (nonlinear_arith)
        requires
            0 < total <= 0x400_0000_0000,
    ;
}

/// The ground composition of a cell: open water is pure water; land mixes
/// sand, soil and rock from wetness and elevation, then normalizes.
pub open spec fn spec_ground_new(tc: TerrainCategory, rain: i64, drain: i64, height: i64) -> Ground {
    if tc is Sea {
        Ground { water: crate::SCALE as i64, sand: 0i64, soil: 0i64, rock: 0i64 }
    } else {
        let dn = (Measure { min: 0i64, max: 0x100_0000_0000i64 }).spec_normalize(drain);
        let rn = (Measure { min: 0i64, max: 50_000i64 }).spec_normalize(rain);
        let wetness = dn + rn;
        let dryness = if crate::SCALE - wetness < 0 {
            0
        } else {
            (crate::SCALE - wetness) as int
        };
        let lowness = if crate::SCALE - height < 0 {
            0
        } else {
            (crate::SCALE - height) as int
        };
        let sand = dryness * lowness / (5 * crate::SCALE as int);
        let rock = if height > crate::SCALE {
            (crate::SCALE as int) / 5
        } else {
            (height as int) / 5
        };
        spec_ground_normalize(
            Ground { water: 0i64, sand: sand as i64, soil: wetness as i64, rock: rock as i64 },
        )
    }
}

impl Ground {
    /// Composes the ground fractions of a cell and normalizes them; the
    /// result sums to one whole unit exactly.
    pub fn new(tc: TerrainCategory, rain: i64, drain: i64, height: i64) -> (r: Ground)
        requires
            0 <= rain <= 0x100_0000_0000,
            0 <= drain <= 0x100_0000_0000,
            0 <= height <= 0x100_0000_0000,
        ensures
            r == spec_ground_new(tc, rain, drain, height),
            r.water + r.sand + r.soil + r.rock == crate::SCALE,
            0 <= r.water && 0 <= r.sand && 0 <= r.soil && 0 <= r.rock,
    {
        match tc {
            TerrainCategory::Sea => Ground { water: crate::SCALE, sand: 0, soil: 0, rock: 0 },
            _ => {
                let dm = drain_measure();
                let rm = rain_measure();
                let dn = dm.normalize(drain);
                let rn = rm.normalize(rain);
                let wetness: i64 = dn + rn;
                let dryness: i64 = if crate::SCALE - wetness < 0 {
                    0
                } else {
                    crate::SCALE - wetness
                };
                let lowness: i64 = if crate::SCALE - height < 0 {
                    0
                } else {
                    crate::SCALE - height
                };
                proof {
                    assert(0 <= dryness as int * lowness as int <= (crate::SCALE as int) * (
                    crate::SCALE as int)) by (nonlinear_arith)
                        requires
                            0 <= dryness <= crate::SCALE,
                            0 <= lowness <= crate::SCALE,
                    ;
                    assert(0 <= dryness as int * lowness as int / (5 * crate::SCALE as int)
                        <= crate::SCALE) by (nonlinear_arith)
                        requires
                            0 <= dryness as int * lowness as int <= (crate::SCALE as int) * (
                            crate::SCALE as int),
                    ;
                }
                let sand: i64 = dryness * lowness / (5 * crate::SCALE);
                let rock: i64 = if height > crate::SCALE {
                    crate::SCALE / 5
                } else {
                    height / 5
                };
                let raw = Ground { water: 0, sand, soil: wetness, rock };
                let out = raw.normalize();
                proof {
                    assert(raw.water + raw.sand + raw.soil + raw.rock != 0) by {
                        assert(raw.soil == wetness);
                        if wetness == 0 {
                            assert(dryness == crate::SCALE);
                        }
                    }
                }
                out
            },
        }
    }
}

/// Vegetation composition fractions, in thousandths.
#[derive(Clone, Copy, Debug, PartialEq, Eq, Structural)]
pub struct Vegetation {
    pub none: i64,
    pub deciduous: i64,
    pub boreal: i64,
}

impl Default for Vegetation {
    /// Bare ground: no vegetation at all.
    fn default() -> (r: Self)
        ensures
            r.none == crate::SCALE && r.deciduous == 0 && r.boreal == 0,
    {
        Vegetation { none: crate::SCALE, deciduous: 0, boreal: 0 }
    }
}

/// The normalization of a vegetation composition, the last component
/// taking the exact remainder; the zero-total vector stays unchanged.
pub open spec fn spec_vegetation_normalize(g: Vegetation) -> Vegetation {
    let total = g.none + g.deciduous + g.boreal;
    if total == 0 {
        g
    } else {
        let n = g.none * (crate::SCALE as int) / total;
        let d = g.deciduous * (crate::SCALE as int) / total;
        let used = if n + d > crate::SCALE {
            crate::SCALE as int
        } else {
            n + d
        };
        Vegetation { none: n as i64, deciduous: d as i64, boreal: (crate::SCALE - used) as i64 }
    }
}

impl Vegetation {
    /// Normalizes the composition onto the unit simplex; the result sums
    /// to one whole unit exactly unless the total is zero, in which case
    /// the vector is unchanged.
    pub fn normalize(self) -> (r: Vegetation)
        requires
            0 <= self.none <= 0x100_0000_0000,
            0 <= self.deciduous <= 0x100_0000_0000,
            0 <= self.boreal <= 0x100_0000_0000,
        ensures
            r == spec_vegetation_normalize(self),
            self.none + self.deciduous + self.boreal != 0 ==> r.none + r.deciduous + r.boreal
                == crate::SCALE,
            self.none + self.deciduous + self.boreal == 0 ==> r == self,
            0 <= r.none && 0 <= r.deciduous && 0 <= r.boreal,
    {
        let total: i64 = self.none + self.deciduous + self.boreal;
        if total == 0 {
            self
        } else {
            proof {
                lemma_simplex_part(self.none as int, total as int);
                lemma_simplex_part(self.deciduous as int, total as int);
                lemma_parts_within_unit(
                    self.none as int,
                    self.deciduous as int,
                    0,
                    total as int,
                );
            }
            let n: i64 = self.none * crate::SCALE / total;
            let d: i64 = self.deciduous * crate::SCALE / total;
            let used: i64 = if n + d > crate::SCALE {
                crate::SCALE
            } else {
                n + d
            };
            Vegetation { none: n, deciduous: d, boreal: crate::SCALE - used }
        }
    }
}

/// The vegetation of a cell: open water carries none; land balances bare
/// ground against deciduous and boreal cover from rainfall, temperature
/// and elevation, then normalizes.
pub open spec fn spec_vegetation_new(
    tc: TerrainCategory,
    rain: i64,
    temperature: i64,
    height: i64,
) -> Vegetation {
    if tc is Sea {
        Vegetation { none: crate::SCALE as i64, deciduous: 0i64, boreal: 0i64 }
    } else {
        let rn = (Measure { min: 0i64, max: 50_000i64 }).spec_normalize(rain);
        let none = (crate::SCALE - rn) as int;
        let dd = if 500 - temperature >= 0 {
            500 - temperature as int
        } else {
            temperature as int - 500
        };
        let deciduous = if height > 800 {
            0
        } else {
            10 * (300 - (if dd > 300 {
                300int
            } else {
                dd
            }))
        };
        let bd = if 200 - temperature >= 0 {
            200 - temperature as int
        } else {
            temperature as int - 200
        };
        let hcap = if height > crate::SCALE {
            crate::SCALE as int
        } else {
            height as int
        };
        let braw = 10 * (300 - (if bd > 300 {
            300int
        } else {
            bd
        }) * hcap / (crate::SCALE as int));
        let boreal = if height > 900 {
            0
        } else if braw < 0 {
            0
        } else {
            braw
        };
        spec_vegetation_normalize(
            Vegetation { none: none as i64, deciduous: deciduous as i64, boreal: boreal as i64 },
        )
    }
}

impl Vegetation {
    /// Composes the vegetation fractions of a cell and normalizes them;
    /// the result sums to one whole unit exactly, except in the degenerate
    /// case where every term vanishes, which stays the zero vector.
    pub fn new(tc: TerrainCategory, rain: i64, temperature: i64, height: i64) -> (r: Vegetation)
        requires
            0 <= rain <= 0x100_0000_0000,
            0 <= temperature <= 0x100_0000_0000,
            0 <= height <= 0x100_0000_0000,
        ensures
            r == spec_vegetation_new(tc, rain, temperature, height),
            0 <= r.none && 0 <= r.deciduous && 0 <= r.boreal,
            r.none + r.deciduous + r.boreal == crate::SCALE || (r.none == 0 && r.deciduous == 0
                && r.boreal == 0),
    {
        match tc {
            TerrainCategory::Sea => Vegetation { none: crate::SCALE, deciduous: 0, boreal: 0 },
            _ => {
                let rm = rain_measure();
                let rn = rm.normalize(rain);
                let none: i64 = crate::SCALE - rn;
                let dd: i64 = if 500 - temperature >= 0 {
                    500 - temperature
                } else {
                    temperature - 500
                };
                let deciduous: i64 = if height > 800 {
                    0
                } else {
                    10 * (300 - (if dd > 300 {
                        300
                    } else {
                        dd
                    }))
                };
                let bd: i64 = if 200 - temperature >= 0 {
                    200 - temperature
                } else {
                    temperature - 200
                };
                let hcap: i64 = if height > crate::SCALE {
                    crate::SCALE
                } else {
                    height
                };
                let bdc: i64 = if bd > 300 {
                    300
                } else {
                    bd
                };
                proof {
                    assert(0 <= bdc as int * hcap as int <= 300 * (crate::SCALE as int))
                        by (nonlinear_arith)
                        requires
                            0 <= bdc <= 300,
                            0 <= hcap <= crate::SCALE,
                    ;
                    assert(0 <= bdc as int * hcap as int / (crate::SCALE as int) <= 300)
                        by (nonlinear_arith)
                        requires
                            0 <= bdc as int * hcap as int <= 300 * (crate::SCALE as int),
                    ;
                }
                let braw: i64 = 10 * (300 - bdc * hcap / crate::SCALE);
                let boreal: i64 = if height > 900 {
                    0
                } else if braw < 0 {
                    0
                } else {
                    braw
                };
                let raw = Vegetation { none, deciduous, boreal };
                raw.normalize()
            },
        }
    }
}

} // verus!
