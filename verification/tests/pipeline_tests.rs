//! The whole generation pipeline on a small grid: determinism, depression
//! filling, the descending schedule, and the derived layers.

use polyworld::conf::{HeightMap, Hydrology, NumberIntensity, PerlinConf, RainConf, WorldGenConf};
use polyworld::heightmap::SENTINEL;
use polyworld::mesh::{CellId, PolyMap, VertexId};
use polyworld::world_map::WorldGenerator;

fn grid_polys(nx: i64, ny: i64, side: i64) -> Vec<Vec<(i64, i64)>> {
    let mut polys = Vec::new();
    for j in 0..ny {
        for i in 0..nx {
            let x0 = i * side;
            let y0 = j * side;
            polys.push(vec![
                (x0, y0),
                (x0 + side, y0),
                (x0 + side, y0 + side),
                (x0, y0 + side),
            ]);
        }
    }
    polys
}

fn small_conf() -> WorldGenConf {
    WorldGenConf {
        heightmap: HeightMap {
            planchon_darboux: true,
            slopes: NumberIntensity { number: 2, intensity: 800 },
            clumps: NumberIntensity { number: 2, intensity: 600 },
            depressions: NumberIntensity { number: 1, intensity: 400 },
            perlin1: PerlinConf { period: 40, intensity: 900 },
            perlin2: PerlinConf { period: 15, intensity: 300 },
        },
        hydrology: Hydrology {
            min_river_flux: 2000,
            rain: RainConf {
                height_coeff: 1000,
                perlin: PerlinConf { period: 30, intensity: 500 },
            },
        },
    }
}

#[test]
fn generation_is_bit_identical_for_equal_seeds() {
    let polys = grid_polys(6, 6, 10);
    let mesh = PolyMap::build(60, 60, &polys).unwrap();
    let gen = WorldGenerator::new(small_conf());
    let a = gen.generate(&mesh, 12345);
    let b = gen.generate(&mesh, 12345);
    assert_eq!(a.heightmap.vertices.data, b.heightmap.vertices.data);
    assert_eq!(a.hydrology.vertex_flux.data, b.hydrology.vertex_flux.data);
    assert_eq!(
        a.thermology.cell_temperature.data,
        b.thermology.cell_temperature.data
    );
    assert_eq!(a.hydrology.vertex_rainfall.data, b.hydrology.vertex_rainfall.data);
    let c = gen.generate(&mesh, 54321);
    assert_ne!(a.heightmap.vertices.data, c.heightmap.vertices.data);
}

#[test]
fn depression_filling_leaves_no_interior_local_minimum() {
    let polys = grid_polys(6, 6, 10);
    let mesh = PolyMap::build(60, 60, &polys).unwrap();
    let gen = WorldGenerator::new(small_conf());
    let wm = gen.generate(&mesh, 99);
    let hm = wm.heightmap();
    for v in 0..mesh.num_vertices() {
        let vt = mesh.vertex(VertexId(v));
        let h = hm.vertex_height(VertexId(v));
        assert!(h < SENTINEL);
        if !vt.is_border {
            // Every interior vertex must carry a descent vector, and the
            // chain of descents must reach the border in finitely many
            // steps.
            assert!(hm.descent_vector(VertexId(v)).is_some());
            let mut cur = VertexId(v);
            let mut steps = 0;
            while !mesh.vertex(cur).is_border {
                let slope = hm.descent_vector(cur).unwrap();
                assert!(hm.vertex_height(slope.towards) < hm.vertex_height(cur));
                assert_eq!(
                    slope.intensity,
                    hm.vertex_height(cur) - hm.vertex_height(slope.towards)
                );
                cur = slope.towards;
                steps += 1;
                assert!(steps <= mesh.num_vertices());
            }
        }
    }
}

#[test]
fn descending_order_is_topological_for_descents() {
    let polys = grid_polys(6, 6, 10);
    let mesh = PolyMap::build(60, 60, &polys).unwrap();
    let gen = WorldGenerator::new(small_conf());
    let wm = gen.generate(&mesh, 7);
    let hm = wm.heightmap();
    let mut position = vec![0usize; mesh.num_vertices()];
    for (i, v) in hm.downhill.iter().enumerate() {
        position[v.0] = i;
    }
    for v in 0..mesh.num_vertices() {
        if let Some(slope) = hm.descent_vector(VertexId(v)) {
            assert!(
                hm.vertex_height(VertexId(v)) > hm.vertex_height(slope.towards)
            );
            assert!(position[v] < position[slope.towards.0]);
        }
    }
    // The schedule covers every vertex exactly once.
    let mut seen = vec![false; mesh.num_vertices()];
    for v in hm.downhill.iter() {
        assert!(!seen[v.0]);
        seen[v.0] = true;
    }
    assert!(seen.iter().all(|x| *x));
}

#[test]
fn flux_accumulation_is_conservative_over_the_whole_map() {
    let polys = grid_polys(6, 6, 10);
    let mesh = PolyMap::build(60, 60, &polys).unwrap();
    let gen = WorldGenerator::new(small_conf());
    let wm = gen.generate(&mesh, 31);
    let hm = wm.heightmap();
    let total_rain: i64 = wm.hydrology.vertex_rainfall.data.iter().sum();
    let sink_flux: i64 = (0..mesh.num_vertices())
        .filter(|v| hm.descent_vector(VertexId(*v)).is_none())
        .map(|v| wm.hydrology.vertex_flux(VertexId(v)))
        .sum();
    assert_eq!(sink_flux, total_rain);
}

#[test]
fn derived_layers_are_consistent() {
    let polys = grid_polys(6, 6, 10);
    let mesh = PolyMap::build(60, 60, &polys).unwrap();
    let gen = WorldGenerator::new(small_conf());
    let wm = gen.generate(&mesh, 5);
    for c in 0..mesh.num_cells() {
        let t = wm.terrain.data[c];
        let water = wm.cell_is_water.data[c];
        assert_eq!(water, t.0 < 2);
        let g = wm.ground.data[c];
        assert_eq!(g.water + g.sand + g.soil + g.rock, 1000);
        let veg = wm.vegetation.data[c];
        let total = veg.none + veg.deciduous + veg.boreal;
        assert!(total == 1000 || total == 0);
        if water {
            assert_eq!(g.water, 1000);
        }
    }
}

#[test]
fn reflow_rederives_layers_and_keeps_innate_fields() {
    let polys = grid_polys(6, 6, 10);
    let mesh = PolyMap::build(60, 60, &polys).unwrap();
    let conf = small_conf();
    let gen = WorldGenerator::new(small_conf());
    let mut wm = gen.generate(&mesh, 11);
    let rain_before = wm.hydrology.vertex_rainfall.data.clone();
    let innate_before = wm.thermology.vertex_innate_temperature.data.clone();
    wm.reflow_rivers(&mesh, &conf);
    assert_eq!(wm.hydrology.vertex_rainfall.data, rain_before);
    assert_eq!(wm.thermology.vertex_innate_temperature.data, innate_before);
    // The reflowed heights are again filled: no interior local minima.
    for v in 0..mesh.num_vertices() {
        if !mesh.vertex(VertexId(v)).is_border {
            assert!(wm.heightmap.descent_vector(VertexId(v)).is_some());
        }
    }
    // Reflow is itself deterministic.
    let mut wm2 = gen.generate(&mesh, 11);
    wm2.reflow_rivers(&mesh, &conf);
    assert_eq!(wm.heightmap.vertices.data, wm2.heightmap.vertices.data);
    assert_eq!(wm.hydrology.vertex_flux.data, wm2.hydrology.vertex_flux.data);
}

#[test]
fn cell_heights_average_their_corners() {
    let polys = grid_polys(4, 4, 10);
    let mesh = PolyMap::build(40, 40, &polys).unwrap();
    let gen = WorldGenerator::new(small_conf());
    let wm = gen.generate(&mesh, 3);
    let hm = wm.heightmap();
    for c in 0..mesh.num_cells() {
        let cell = mesh.cell(CellId(c));
        let sum: i64 = cell
            .corners
            .iter()
            .map(|v| hm.vertex_height(*v))
            .sum();
        let avg = sum / cell.corners.len() as i64;
        assert_eq!(hm.cell_height(CellId(c)), avg);
    }
}
