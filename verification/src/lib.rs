//! Procedural terrain synthesis over an irregular planar mesh.
//!
//! The crate builds a Voronoi-style polygonal map from pre-sampled cell
//! polygons, composes a seeded elevation field over its vertices, removes
//! closed depressions, derives a downhill flow graph, accumulates rainfall
//! into drainage and river networks, and layers temperature and biome
//! classification on top.  All scalar fields are fixed-point integers in
//! milli-units, so every stage of the pipeline is exact and deterministic.

use vstd::prelude::*;

pub mod biome;
pub mod conf;
pub mod element_set;
pub mod fields;
pub mod finvec;
pub mod generators;
pub mod heightmap;
pub mod hydrology;
pub mod mesh;
pub mod rng;
pub mod terrain;
pub mod thermology;
pub mod world_map;

verus! {

/// One whole unit of the normalized scalar scale (heights, temperatures and
/// composition fractions are carried in thousandths).
pub const SCALE: i64 = 1000;

} // verus!
