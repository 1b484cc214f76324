//! Field containers, flow accumulation, the descending schedule, the
//! threshold table and the composition vectors, on concrete values.

use polyworld::biome::{Ground, TerrainCategory, Vegetation};
use polyworld::fields::{VertexData, VertexPicker};
use polyworld::finvec::FinIdx;
use polyworld::mesh::PolyMap;
use polyworld::rng::Rng;
use polyworld::terrain::TerrainType;

fn grid_polys(nx: i64, ny: i64, side: i64) -> Vec<Vec<(i64, i64)>> {
    let mut polys = Vec::new();
    for j in 0..ny {
        for i in 0..nx {
            let x0 = i * side;
            let y0 = j * side;
            polys.push(vec![
                (x0, y0),
                (x0 + side, y0),
                (x0 + side, y0 + side),
                (x0, y0 + side),
            ]);
        }
    }
    polys
}

#[test]
fn flow_accumulates_along_a_line() {
    // Five vertices in a line, descending from the last to the first, with
    // one unit of rainfall each; flux accumulates downstream and the sink
    // collects the whole mass.
    let mut flux = VertexData { data: vec![1i64, 1, 1, 1, 1] };
    let pairs: Vec<(usize, usize)> = vec![(4, 3), (3, 2), (2, 1), (1, 0)];
    flux.flow(&pairs);
    assert_eq!(flux.data, vec![5, 4, 3, 2, 1]);
    // Conservation: the only vertex that never forwards holds the total.
    assert_eq!(flux.data[0], 5);
}

#[test]
fn flow_conserves_mass_on_a_tree() {
    // Two branches joining into one sink.
    let mut flux = VertexData { data: vec![10i64, 20, 30, 40] };
    let pairs: Vec<(usize, usize)> = vec![(3, 1), (2, 1), (1, 0)];
    flux.flow(&pairs);
    // Vertex 1 gathers both branches before forwarding everything to 0.
    assert_eq!(flux.data, vec![100, 90, 30, 40]);
}

#[test]
fn ordered_by_sorts_descending_with_id_tiebreak() {
    let d = VertexData { data: vec![5i64, 9, 5, 1] };
    let order = d.ordered_by();
    let ids: Vec<usize> = order.iter().map(|v| v.0).collect();
    assert_eq!(ids, vec![1, 0, 2, 3]);
}

#[test]
fn min_max_find_extremes() {
    let d = VertexData { data: vec![3i64, -7, 12, 0] };
    assert_eq!(d.min(), -7);
    assert_eq!(d.max(), 12);
}

#[test]
fn vertex_picker_stays_in_range_and_is_reproducible() {
    let polys = grid_polys(2, 2, 10);
    let mesh = PolyMap::build(20, 20, &polys).unwrap();
    let mut a = Rng::seeded(7);
    let mut b = Rng::seeded(7);
    let va = VertexPicker::random(&mesh, &mut a);
    let vb = VertexPicker::random(&mesh, &mut b);
    assert_eq!(va, vb);
    assert!(va.0 < mesh.num_vertices());
}

#[test]
fn terrain_lookup_resolves_ties_upwards() {
    // A height exactly equal to a threshold resolves to the category
    // immediately above it: with levels [0, 500, 500, 750, top], a query
    // of 500 lands on position 3.
    let defs = TerrainType::default_definition();
    let t = defs.from_level(500);
    assert_eq!(t.index(), 3);
    let low = defs.from_level(499);
    assert_eq!(low.index(), 1);
    let deep = defs.from_level(-1);
    assert_eq!(deep.index(), 0);
    let high = defs.from_level(800);
    assert_eq!(high.index(), 4);
    assert!(defs.get(t).is_water == false);
    assert!(defs.get(deep).is_water == true);
}

#[test]
fn terrain_bracket_interpolates_exactly() {
    let defs = TerrainType::default_definition();
    // 600 falls between land (500) and hill (750): t = 100 * 1000 / 250.
    let (low, high, t) = defs.from_level_range(600);
    assert_eq!(low.index(), 2);
    assert_eq!(high.index(), 3);
    assert_eq!(t, 400);
    // 499 falls between deep water (0) and water (500).
    let (l2, h2, t2) = defs.from_level_range(499);
    assert_eq!(l2.index(), 0);
    assert_eq!(h2.index(), 1);
    assert_eq!(t2, 998);
}

#[test]
fn degenerate_bracket_yields_full_fraction() {
    // A query below the very first level brackets against the first
    // record alone: equal bracket levels give the full fraction.
    let defs = TerrainType::default_definition();
    let (low, high, t) = defs.from_level_range(-5);
    assert_eq!(low.index(), 0);
    assert_eq!(high.index(), 0);
    assert_eq!(t, 1000);
}

#[test]
fn ground_composition_sums_to_one_unit() {
    let sea = Ground::new(TerrainCategory::Sea, 0, 0, 0);
    assert_eq!(sea.water + sea.sand + sea.soil + sea.rock, 1000);
    assert_eq!(sea.water, 1000);
    let dry = Ground::new(TerrainCategory::Land, 0, 0, 0);
    assert_eq!(dry.water + dry.sand + dry.soil + dry.rock, 1000);
    let wet = Ground::new(TerrainCategory::Coast, 50_000, 0x100_0000_0000, 500);
    assert_eq!(wet.water + wet.sand + wet.soil + wet.rock, 1000);
    let peak = Ground::new(TerrainCategory::Land, 10_000, 12345, 1000);
    assert_eq!(peak.water + peak.sand + peak.soil + peak.rock, 1000);
}

#[test]
fn ground_normalize_keeps_zero_vector() {
    let zero = Ground { water: 0, sand: 0, soil: 0, rock: 0 };
    let out = zero.normalize();
    assert_eq!(out, zero);
    let mix = Ground { water: 1, sand: 1, soil: 1, rock: 1 };
    let out2 = mix.normalize();
    assert_eq!(out2.water + out2.sand + out2.soil + out2.rock, 1000);
}

#[test]
fn vegetation_composition_sums_to_one_unit_or_stays_zero() {
    let sea = Vegetation::new(TerrainCategory::Sea, 0, 0, 0);
    assert_eq!(sea.none, 1000);
    let mild = Vegetation::new(TerrainCategory::Land, 10_000, 500, 300);
    assert_eq!(mild.none + mild.deciduous + mild.boreal, 1000);
    // The degenerate all-zero case: saturated rain, high altitude.
    let barren = Vegetation::new(TerrainCategory::Land, 50_000, 500, 950);
    assert_eq!(barren.none + barren.deciduous + barren.boreal, 0);
    assert_eq!(barren.none, 0);
    assert_eq!(barren.deciduous, 0);
    assert_eq!(barren.boreal, 0);
}

#[test]
fn transform_maps_every_cell() {
    let base = polyworld::fields::CellData { data: vec![100i64, 250, 760] };
    let doubled = base.transform(|_, x: &i64| x * 2);
    assert_eq!(doubled.data, vec![200, 500, 1520]);
    let flags = base.transform(|_, x: &i64| *x >= 500);
    assert_eq!(flags.data, vec![false, false, true]);
}

#[test]
fn for_each_and_update_each_follow_the_mesh() {
    let polys = grid_polys(2, 2, 10);
    let mesh = PolyMap::build(20, 20, &polys).unwrap();
    let mut xs = VertexData::for_each(&mesh, |_, vt| vt.x);
    for v in 0..mesh.num_vertices() {
        assert_eq!(
            xs.data[v],
            mesh.vertex(polyworld::mesh::VertexId(v)).x
        );
    }
    xs.update_each(&mesh, |_, vt, old: &i64| old + vt.y);
    for v in 0..mesh.num_vertices() {
        let vt = mesh.vertex(polyworld::mesh::VertexId(v));
        assert_eq!(xs.data[v], vt.x + vt.y);
    }
    let corner_counts = polyworld::fields::CellData::for_each(&mesh, |_, cell| cell.corners.len());
    assert!(corner_counts.data.iter().all(|n| *n == 4));
    let spans = polyworld::fields::EdgeData::for_each(&mesh, |_, edge| edge.max.0 - edge.min.0);
    assert_eq!(spans.data.len(), mesh.num_edges());
}

#[test]
fn rng_draws_are_deterministic_and_in_range() {
    let mut a = Rng::seeded(42);
    let mut b = Rng::seeded(42);
    for _ in 0..10 {
        let x = a.next_range(-1000, 2000);
        let y = b.next_range(-1000, 2000);
        assert_eq!(x, y);
        assert!(-1000 <= x && x < 2000);
    }
    let mut c = Rng::seeded(43);
    let mut saw_different = false;
    let mut a2 = Rng::seeded(42);
    for _ in 0..10 {
        if c.next_u64() != a2.next_u64() {
            saw_different = true;
        }
    }
    assert!(saw_different);
}
