//! Generation configuration: noise periods and intensities, slope, clump
//! and depression counts, the depression-filling switch, and the hydrology
//! rain coefficients and river cutoff.  Configuration arrives pre-parsed;
//! `wf` bounds every knob so that the whole pipeline stays exact.

use vstd::prelude::*;

verus! {

/// One noise octave: lattice period (in map units) and intensity (in
/// thousandths).
pub struct PerlinConf {
    pub period: i64,
    pub intensity: i64,
}

impl PerlinConf {
    pub open spec fn wf(self) -> bool {
        0 < self.period <= crate::mesh::COORD_LIMIT
            && -crate::generators::INTENSITY_LIMIT <= self.intensity
            <= crate::generators::INTENSITY_LIMIT
    }
}

/// A repetition count with a per-instance intensity.
pub struct NumberIntensity {
    pub number: usize,
    pub intensity: i64,
}

impl NumberIntensity {
    pub open spec fn wf(self) -> bool {
        0 <= self.intensity <= crate::generators::INTENSITY_LIMIT
    }
}

/// Rainfall: a height-proportional coefficient plus one noise octave.
pub struct RainConf {
    pub height_coeff: i64,
    pub perlin: PerlinConf,
}

impl RainConf {
    pub open spec fn wf(self) -> bool {
        0 <= self.height_coeff <= crate::generators::INTENSITY_LIMIT && self.perlin.wf()
    }
}

/// Hydrology configuration: the river flux cutoff and the rain model.
pub struct Hydrology {
    pub min_river_flux: i64,
    pub rain: RainConf,
}

impl Hydrology {
    pub open spec fn wf(self) -> bool {
        self.rain.wf()
    }
}

/// Elevation configuration: slopes, clumps, depressions, two noise
/// octaves, and the depression-filling switch.
pub struct HeightMap {
    pub planchon_darboux: bool,
    pub slopes: NumberIntensity,
    pub clumps: NumberIntensity,
    pub depressions: NumberIntensity,
    pub perlin1: PerlinConf,
    pub perlin2: PerlinConf,
}

impl HeightMap {
    pub open spec fn wf(self) -> bool {
        self.slopes.wf() && self.clumps.wf() && self.depressions.wf() && self.perlin1.wf()
            && self.perlin2.wf()
    }
}

/// The whole generation configuration.
pub struct WorldGenConf {
    pub heightmap: HeightMap,
    pub hydrology: Hydrology,
}

impl WorldGenConf {
    pub open spec fn wf(self) -> bool {
        self.heightmap.wf() && self.hydrology.wf()
    }
}

} // verus!
